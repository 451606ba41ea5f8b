//! The Zig backend: naming pipelines decorated with the Zig keyword set,
//! type-reference rendering with an optional-wrapping toggle, and
//! declaration rendering including the enum name-table scaffold.

use vstd::prelude::*;
use vstd::string::StringExecFns;

use crate::inflector::Case;
use crate::inflector::CombiningInflector;
use crate::inflector::Inflector;
use crate::inflector::TailInflector;
use crate::ir::EnumMember;
use crate::ir::EnumMemberNamingStrategy;
use crate::ir::Expr;
use crate::ir::Field;
use crate::ir::FilePartitioningStrategy;
use crate::ir::Item;
use crate::ir::Metadata;
use crate::ir::NameableKind;
use crate::ir::OptionalPropertyHandlingStrategy;
use crate::ir::Strategy;
use crate::text::contains_string;
use crate::text::dec_str;
use crate::text::push_char;
use crate::text::push_dec;
use crate::text::push_quoted;
use crate::text::quoted;
use crate::text::sorted_insert;
use crate::text::vec_sorted_insert;

verus! {

/// The decorated name: a keyword is wrapped in `@"..."`, the Zig way;
/// anything else passes through unchanged.
pub open spec fn escape_keyword(keywords: Seq<Seq<char>>, raw: Seq<char>) -> Seq<char> {
    if keywords.contains(raw) {
        seq!['@', '"'] + raw + seq!['"']
    } else {
        raw
    }
}

/// Keyword safety: when the plain name collides with a keyword, the decorated
/// name differs from the plain one and is itself no keyword.  The proviso
/// that no keyword starts with the escape character holds of every keyword
/// set made of identifiers.
pub proof fn lemma_keyword_safety(keywords: Seq<Seq<char>>, raw: Seq<char>)
    requires
        keywords.contains(raw),
        forall|i: int|
            0 <= i < keywords.len() ==> (#[trigger] keywords[i]).len() == 0 || keywords[i][0]
                != '@',
    ensures
        escape_keyword(keywords, raw) != raw,
        !keywords.contains(escape_keyword(keywords, raw)),
{
    let e = seq!['@', '"'] + raw + seq!['"'];
    assert(e.len() == raw.len() + 3);
    assert(e[0] == '@');
    if keywords.contains(e) {
        let i = choose|i: int| 0 <= i < keywords.len() && keywords[i] == e;
        assert(keywords[i].len() == 0 || keywords[i][0] != '@');
        assert(false);
    }
}

/// The shipped Zig keyword set meets the proviso of `lemma_keyword_safety`:
/// every keyword is non-empty and none starts with the escape character.
#[verifier::rlimit(100)]
pub proof fn lemma_keywords_plain()
    ensures
        forall|i: int|
            0 <= i < keyword_seq().len() ==> (#[trigger] keyword_seq()[i]).len() > 0
                && keyword_seq()[i][0] != '@',
{
    reveal_strlit("align");
    reveal_strlit("allowzero");
    reveal_strlit("and");
    reveal_strlit("anyframe");
    reveal_strlit("anytype");
    reveal_strlit("asm");
    reveal_strlit("async");
    reveal_strlit("await");
    reveal_strlit("break");
    reveal_strlit("callconv");
    reveal_strlit("catch");
    reveal_strlit("comptime");
    reveal_strlit("const");
    reveal_strlit("continue");
    reveal_strlit("defer");
    reveal_strlit("else");
    reveal_strlit("enum");
    reveal_strlit("errdefer");
    reveal_strlit("error");
    reveal_strlit("export");
    reveal_strlit("fn");
    reveal_strlit("for");
    reveal_strlit("if");
    reveal_strlit("inline");
    reveal_strlit("linksection");
    reveal_strlit("noalias");
    reveal_strlit("noinline");
    reveal_strlit("nosuspend");
    reveal_strlit("opaque");
    reveal_strlit("or");
    reveal_strlit("orelse");
    reveal_strlit("packed");
    reveal_strlit("pub");
    reveal_strlit("resume");
    reveal_strlit("return");
    reveal_strlit("struct");
    reveal_strlit("suspend");
    reveal_strlit("switch");
    reveal_strlit("test");
    reveal_strlit("threadlocal");
    reveal_strlit("try");
    reveal_strlit("union");
    reveal_strlit("unreachable");
    reveal_strlit("usingnamespace");
    reveal_strlit("var");
    reveal_strlit("volatile");
    reveal_strlit("while");
}

/// Keyword safety for the shipped Zig keyword set.
pub proof fn lemma_keyword_safety_shipped(raw: Seq<char>)
    requires
        keyword_seq().contains(raw),
    ensures
        escape_keyword(keyword_seq(), raw) != raw,
        !keyword_seq().contains(escape_keyword(keyword_seq(), raw)),
{
    lemma_keywords_plain();
    lemma_keyword_safety(keyword_seq(), raw);
}

/// Wraps an inflector; a result that collides with a keyword is escaped as
/// a quoted identifier.
pub struct KeywordAvoidingInflector<I> {
    keywords: Vec<String>,
    inflector: I,
}

impl<I> KeywordAvoidingInflector<I> {
    /// The keyword set this decorator avoids.
    pub closed spec fn spec_keywords(&self) -> Seq<Seq<char>> {
        self.keywords.deep_view()
    }

    /// The wrapped inflector.
    pub closed spec fn spec_inner(&self) -> I {
        self.inflector
    }

    pub fn new(keywords: Vec<String>, inflector: I) -> (r: Self)
        ensures
            r.spec_keywords() == keywords.deep_view(),
            r.spec_inner() == inflector,
    {
        Self { keywords, inflector }
    }
}

impl<I: Inflector> Inflector for KeywordAvoidingInflector<I> {
    open spec fn accepts(&self, parts: Seq<Seq<char>>) -> bool {
        self.spec_inner().accepts(parts)
    }

    open spec fn spec_inflect(&self, parts: Seq<Seq<char>>) -> Seq<char> {
        escape_keyword(self.spec_keywords(), self.spec_inner().spec_inflect(parts))
    }

    fn inflect(&self, name_parts: &[String]) -> (r: String) {
        let raw_name = self.inflector.inflect(name_parts);
        if contains_string(&self.keywords, raw_name.as_str()) {
            let mut e = String::new();
            push_char(&mut e, '@');
            push_char(&mut e, '"');
            e.append(raw_name.as_str());
            push_char(&mut e, '"');
            proof {
                assert(e@ =~= seq!['@', '"'] + raw_name@ + seq!['"']);
            }
            e
        } else {
            raw_name
        }
    }
}

/// The reserved words of Zig.
pub open spec fn keyword_seq() -> Seq<Seq<char>> {
    seq![
        "align"@, "allowzero"@, "and"@, "anyframe"@, "anytype"@, "asm"@, "async"@, "await"@,
        "break"@, "callconv"@, "catch"@, "comptime"@, "const"@, "continue"@, "defer"@, "else"@,
        "enum"@, "errdefer"@, "error"@, "export"@, "fn"@, "for"@, "if"@, "inline"@,
        "linksection"@, "noalias"@, "noinline"@, "nosuspend"@, "opaque"@, "or"@, "orelse"@,
        "packed"@, "pub"@, "resume"@, "return"@, "struct"@, "suspend"@, "switch"@, "test"@,
        "threadlocal"@, "try"@, "union"@, "unreachable"@, "usingnamespace"@, "var"@,
        "volatile"@, "while"@,
    ]
}

fn keywords() -> (v: Vec<String>)
    ensures
        v.deep_view() == keyword_seq(),
{
    let mut v: Vec<String> = Vec::new();
    crate::text::push_string(&mut v, "align");
    crate::text::push_string(&mut v, "allowzero");
    crate::text::push_string(&mut v, "and");
    crate::text::push_string(&mut v, "anyframe");
    crate::text::push_string(&mut v, "anytype");
    crate::text::push_string(&mut v, "asm");
    crate::text::push_string(&mut v, "async");
    crate::text::push_string(&mut v, "await");
    crate::text::push_string(&mut v, "break");
    crate::text::push_string(&mut v, "callconv");
    crate::text::push_string(&mut v, "catch");
    crate::text::push_string(&mut v, "comptime");
    crate::text::push_string(&mut v, "const");
    crate::text::push_string(&mut v, "continue");
    crate::text::push_string(&mut v, "defer");
    crate::text::push_string(&mut v, "else");
    crate::text::push_string(&mut v, "enum");
    crate::text::push_string(&mut v, "errdefer");
    crate::text::push_string(&mut v, "error");
    crate::text::push_string(&mut v, "export");
    crate::text::push_string(&mut v, "fn");
    crate::text::push_string(&mut v, "for");
    crate::text::push_string(&mut v, "if");
    crate::text::push_string(&mut v, "inline");
    crate::text::push_string(&mut v, "linksection");
    crate::text::push_string(&mut v, "noalias");
    crate::text::push_string(&mut v, "noinline");
    crate::text::push_string(&mut v, "nosuspend");
    crate::text::push_string(&mut v, "opaque");
    crate::text::push_string(&mut v, "or");
    crate::text::push_string(&mut v, "orelse");
    crate::text::push_string(&mut v, "packed");
    crate::text::push_string(&mut v, "pub");
    crate::text::push_string(&mut v, "resume");
    crate::text::push_string(&mut v, "return");
    crate::text::push_string(&mut v, "struct");
    crate::text::push_string(&mut v, "suspend");
    crate::text::push_string(&mut v, "switch");
    crate::text::push_string(&mut v, "test");
    crate::text::push_string(&mut v, "threadlocal");
    crate::text::push_string(&mut v, "try");
    crate::text::push_string(&mut v, "union");
    crate::text::push_string(&mut v, "unreachable");
    crate::text::push_string(&mut v, "usingnamespace");
    crate::text::push_string(&mut v, "var");
    crate::text::push_string(&mut v, "volatile");
    crate::text::push_string(&mut v, "while");
    proof {
        assert(v.deep_view() =~= keyword_seq());
    }
    v
}

/// The per-file accumulator: the modules named in `@import` lines, kept
/// sorted and duplicate-free.
pub struct FileState {
    imports: Vec<String>,
}

impl FileState {
    /// The accumulated imports.
    pub closed spec fn imports_view(&self) -> Seq<Seq<char>> {
        self.imports.deep_view()
    }

    pub fn new() -> (r: Self)
        ensures
            r.imports_view() == Seq::<Seq<char>>::empty(),
    {
        let r = FileState { imports: Vec::new() };
        proof {
            assert(r.imports_view() =~= Seq::<Seq<char>>::empty());
        }
        r
    }

    fn add_import(&mut self, module: &str)
        ensures
            final(self).imports_view() == sorted_insert(old(self).imports_view(), module@),
    {
        vec_sorted_insert(&mut self.imports, module);
    }
}

impl Default for FileState {
    fn default() -> (r: Self)
        ensures
            r.imports_view() == Seq::<Seq<char>>::empty(),
    {
        FileState::new()
    }
}

/// The Zig spelling of a type reference.  When the optional toggle is off, a
/// nullable wrapper adds nothing.
pub open spec fn expr_text(with_optionals: bool, e: Expr) -> Seq<char> {
    match e {
        Expr::Empty => "std.json.Value"@,
        Expr::Boolean => "bool"@,
        Expr::Int8 => "i8"@,
        Expr::Uint8 => "u8"@,
        Expr::Int16 => "i16"@,
        Expr::Uint16 => "u16"@,
        Expr::Int32 => "i32"@,
        Expr::Uint32 => "u32"@,
        Expr::Float32 => "f32"@,
        Expr::Float64 => "f64"@,
        Expr::String => "[]const u8"@,
        Expr::Timestamp => "u64"@,
        Expr::ArrayOf(sub) => "[]"@ + sub@,
        Expr::DictOf(_) => "jsonm.Map(json.Value)"@,
        Expr::NullableOf(sub) => if with_optionals {
            "?"@ + sub@
        } else {
            sub@
        },
    }
}

/// Every type reference renders to non-empty text, provided the rendered
/// inner type inside a nullable wrapper is itself non-empty.
pub proof fn lemma_expr_text_nonempty(with_optionals: bool, e: Expr)
    requires
        e matches Expr::NullableOf(sub) ==> sub@.len() > 0,
    ensures
        expr_text(with_optionals, e).len() > 0,
{
    reveal_strlit("std.json.Value");
    reveal_strlit("bool");
    reveal_strlit("i8");
    reveal_strlit("u8");
    reveal_strlit("i16");
    reveal_strlit("u16");
    reveal_strlit("i32");
    reveal_strlit("u32");
    reveal_strlit("f32");
    reveal_strlit("f64");
    reveal_strlit("[]const u8");
    reveal_strlit("u64");
    reveal_strlit("[]");
    reveal_strlit("jsonm.Map(json.Value)");
    reveal_strlit("?");
}

/// The imports registered by rendering one type reference.
pub open spec fn expr_imports(m: Seq<Seq<char>>, e: Expr) -> Seq<Seq<char>> {
    match e {
        Expr::Empty => sorted_insert(m, "std"@),
        Expr::DictOf(_) => sorted_insert(m, "jsonm"@),
        _ => m,
    }
}

/// Import idempotence: rendering the same expression twice leaves the same
/// import state as rendering it once.
pub proof fn lemma_expr_imports_idempotent(m: Seq<Seq<char>>, e: Expr)
    ensures
        expr_imports(expr_imports(m, e), e) == expr_imports(m, e),
{
    crate::text::lemma_sorted_insert_idempotent(m, "std"@);
    crate::text::lemma_sorted_insert_idempotent(m, "jsonm"@);
}

pub open spec fn import_lines(imports: Seq<Seq<char>>, n: int) -> Seq<char>
    decreases n,
{
    if n <= 0 {
        Seq::empty()
    } else {
        import_lines(imports, n - 1) + "const "@ + imports[n - 1] + " = @import(\""@
            + imports[n - 1] + "\");\n"@
    }
}

pub open spec fn member_name_lines(ms: Seq<EnumMember>, n: int) -> Seq<char>
    decreases n,
{
    if n <= 0 {
        Seq::empty()
    } else {
        member_name_lines(ms, n - 1) + "    "@ + ms[n - 1].name@ + ",\n"@
    }
}

pub open spec fn member_quoted_lines(ms: Seq<EnumMember>, n: int) -> Seq<char>
    decreases n,
{
    if n <= 0 {
        Seq::empty()
    } else {
        member_quoted_lines(ms, n - 1) + "        "@ + quoted(ms[n - 1].json_value@) + ",\n"@
    }
}

pub open spec fn name_map_lines(ms: Seq<EnumMember>, n: int) -> Seq<char>
    decreases n,
{
    if n <= 0 {
        Seq::empty()
    } else {
        name_map_lines(ms, n - 1) + "        .{ NAMES["@ + dec_str((n - 1) as nat) + "], ."@
            + ms[n - 1].name@ + " },\n"@
    }
}

pub open spec fn field_lines(fs: Seq<Field>, n: int) -> Seq<char>
    decreases n,
{
    if n <= 0 {
        Seq::empty()
    } else {
        field_lines(fs, n - 1) + "    "@ + fs[n - 1].name@ + ": "@ + fs[n - 1].type_@ + ",\n"@
    }
}

/// The rendering of one enum declaration, with its name table and lookup
/// helpers.
pub open spec fn enum_text(name: Seq<char>, ms: Seq<EnumMember>) -> Seq<char> {
    "\n"@ + "pub const "@ + name + " = enum {\n"@ + member_name_lines(ms, ms.len() as int)
        + "\n"@ + "    pub const NAMES = [@typeInfo("@ + name
        + ").Enum.fields.len][:0]const u8 {\n"@ + member_quoted_lines(ms, ms.len() as int)
        + "    };\n"@ + "    pub const NAME_MAP = std.ComptimeStringMap("@ + name + ", .{\n"@
        + name_map_lines(ms, ms.len() as int) + "    };\n"@ + "\n"@ + "    pub fn name(self: "@
        + name + ") [:0]const u8 {\n"@ + "        return NAMES[@enumToInt(self)];\n"@
        + "    }\n"@ + "    pub fn fromNumber(i: u8) ?"@ + name + " {\n"@
        + "        return if (i < NAMES.len) @intToEnum("@ + name + ", i) else null;\n"@
        + "    }\n"@ + "    pub fn fromName(s: []const u8]) ?"@ + name + " {\n"@
        + "        return NAME_MAP.get(s);\n"@ + "    }\n"@ + "};\n"@
}

/// The text one declaration contributes to the output file.
pub open spec fn item_text(imports: Seq<Seq<char>>, item: Item) -> Seq<char> {
    match item {
        Item::Auxiliary { .. } => Seq::empty(),
        Item::Preamble => "// Code generated by jtd-codegen for Zig v0.1.0\n"@ + "\n"@
            + import_lines(imports, imports.len() as int) + "\n"@,
        Item::Postamble => "\n"@,
        Item::Alias { name, type_, .. } => "\n"@ + "type "@ + name@ + "* = "@ + type_@ + "\n"@,
        Item::Enum { name, members, .. } => enum_text(name@, members@),
        Item::Struct { name, fields, .. } => "\n"@ + "pub const "@ + name@ + " = struct {\n"@
            + field_lines(fields@, fields@.len() as int) + "};\n"@,
        Item::Discriminator { .. } => "\n"@,
        Item::DiscriminatorVariant { .. } => "\n"@,
    }
}

/// The Zig backend: renders declarations into one `.zig` file.
pub struct Target {
    filename: String,
    with_optionals: bool,
    type_naming: KeywordAvoidingInflector<CombiningInflector>,
    field_naming: KeywordAvoidingInflector<TailInflector>,
    enum_member_naming: KeywordAvoidingInflector<TailInflector>,
}

impl Target {
    /// The base name of the output file.
    pub closed spec fn spec_filename(&self) -> Seq<char> {
        self.filename@
    }

    /// Whether nullable wrappers render as Zig optionals.
    pub closed spec fn spec_with_optionals(&self) -> bool {
        self.with_optionals
    }

    /// The pipeline that names types.
    pub closed spec fn spec_type_naming(&self) -> KeywordAvoidingInflector<CombiningInflector> {
        self.type_naming
    }

    /// The pipeline that names fields.
    pub closed spec fn spec_field_naming(&self) -> KeywordAvoidingInflector<TailInflector> {
        self.field_naming
    }

    /// The pipeline that names enum members.
    pub closed spec fn spec_enum_member_naming(&self) -> KeywordAvoidingInflector<
        TailInflector,
    > {
        self.enum_member_naming
    }

    /// The name given to a fragment sequence, by kind.
    pub open spec fn spec_name(&self, kind: NameableKind, parts: Seq<Seq<char>>) -> Seq<char> {
        match kind {
            NameableKind::Type => self.spec_type_naming().spec_inflect(parts),
            NameableKind::Field => self.spec_field_naming().spec_inflect(parts),
            NameableKind::EnumMember => self.spec_enum_member_naming().spec_inflect(parts),
        }
    }

    pub fn new(filename: String, with_optionals: bool) -> (r: Self)
        ensures
            r.spec_filename() == filename@,
            r.spec_with_optionals() == with_optionals,
            r.spec_type_naming().spec_keywords() == keyword_seq(),
            r.spec_type_naming().spec_inner().spec_case() == Case::PascalCase,
            r.spec_field_naming().spec_keywords() == keyword_seq(),
            r.spec_field_naming().spec_inner().spec_case() == Case::SnakeCase,
            r.spec_enum_member_naming().spec_keywords() == keyword_seq(),
            r.spec_enum_member_naming().spec_inner().spec_case() == Case::ScreamingSnakeCase,
    {
        Target {
            filename,
            with_optionals,
            type_naming: KeywordAvoidingInflector::new(
                keywords(),
                CombiningInflector::new(Case::PascalCase),
            ),
            field_naming: KeywordAvoidingInflector::new(
                keywords(),
                TailInflector::new(Case::SnakeCase),
            ),
            enum_member_naming: KeywordAvoidingInflector::new(
                keywords(),
                TailInflector::new(Case::ScreamingSnakeCase),
            ),
        }
    }

    pub fn strategy(&self) -> (r: Strategy)
        ensures
            r.file_partitioning is SingleFile,
            (r.file_partitioning->SingleFile_0)@ == self.spec_filename() + ".zig"@,
            r.enum_member_naming is Modularized,
            r.optional_property_handling is WrapWithNullable,
            !r.booleans_are_nullable,
            !r.int8s_are_nullable,
            !r.uint8s_are_nullable,
            !r.int16s_are_nullable,
            !r.uint16s_are_nullable,
            !r.int32s_are_nullable,
            !r.uint32s_are_nullable,
            !r.float32s_are_nullable,
            !r.float64s_are_nullable,
            !r.strings_are_nullable,
            !r.timestamps_are_nullable,
            !r.arrays_are_nullable,
            !r.dicts_are_nullable,
            !r.aliases_are_nullable,
            !r.enums_are_nullable,
            !r.structs_are_nullable,
            !r.discriminators_are_nullable,
    {
        let mut f = self.filename.clone();
        f.append(".zig");
        Strategy {
            file_partitioning: FilePartitioningStrategy::SingleFile(f),
            enum_member_naming: EnumMemberNamingStrategy::Modularized,
            optional_property_handling: OptionalPropertyHandlingStrategy::WrapWithNullable,
            booleans_are_nullable: false,
            int8s_are_nullable: false,
            uint8s_are_nullable: false,
            int16s_are_nullable: false,
            uint16s_are_nullable: false,
            int32s_are_nullable: false,
            uint32s_are_nullable: false,
            float32s_are_nullable: false,
            float64s_are_nullable: false,
            strings_are_nullable: false,
            timestamps_are_nullable: false,
            arrays_are_nullable: false,
            dicts_are_nullable: false,
            aliases_are_nullable: false,
            enums_are_nullable: false,
            structs_are_nullable: false,
            discriminators_are_nullable: false,
        }
    }

    /// Names a schema path; the driver never asks with zero fragments.
    pub fn name(&self, kind: NameableKind, parts: &[String]) -> (r: String)
        requires
            parts@.len() > 0,
        ensures
            r@ == self.spec_name(kind, parts.deep_view()),
    {
        proof {
            assert(parts.deep_view().len() == parts@.len());
        }
        match kind {
            NameableKind::Type => self.type_naming.inflect(parts),
            NameableKind::Field => self.field_naming.inflect(parts),
            NameableKind::EnumMember => self.enum_member_naming.inflect(parts),
        }
    }

    /// Renders a type reference and registers any import it needs.
    pub fn expr(&self, state: &mut FileState, metadata: Metadata, expr: Expr) -> (r: String)
        ensures
            r@ == expr_text(self.spec_with_optionals(), expr),
            final(state).imports_view() == expr_imports(old(state).imports_view(), expr),
    {
        match expr {
            Expr::Empty => {
                state.add_import("std");
                String::from_str("std.json.Value")
            },
            Expr::Boolean => String::from_str("bool"),
            Expr::Int8 => String::from_str("i8"),
            Expr::Uint8 => String::from_str("u8"),
            Expr::Int16 => String::from_str("i16"),
            Expr::Uint16 => String::from_str("u16"),
            Expr::Int32 => String::from_str("i32"),
            Expr::Uint32 => String::from_str("u32"),
            Expr::Float32 => String::from_str("f32"),
            Expr::Float64 => String::from_str("f64"),
            Expr::String => String::from_str("[]const u8"),
            Expr::Timestamp => String::from_str("u64"),
            Expr::ArrayOf(sub) => {
                let mut r = String::from_str("[]");
                r.append(sub.as_str());
                proof {
                    assert(r@ =~= "[]"@ + sub@);
                }
                r
            },
            Expr::DictOf(_) => {
                state.add_import("jsonm");
                String::from_str("jsonm.Map(json.Value)")
            },
            Expr::NullableOf(sub) => {
                if !self.with_optionals {
                    sub
                } else {
                    let mut r = String::from_str("?");
                    r.append(sub.as_str());
                    proof {
                        assert(r@ =~= "?"@ + sub@);
                    }
                    r
                }
            },
        }
    }

    /// Appends the rendering of one declaration to `out`.  Only reads the
    /// accumulated imports; single-file backends export no names.
    pub fn item(&self, out: &mut String, state: &mut FileState, item: Item) -> (r: Option<
        String,
    >)
        ensures
            final(out)@ == old(out)@ + item_text(old(state).imports_view(), item),
            *final(state) == *old(state),
            r is None,
    {
        match item {
            Item::Auxiliary { .. } => {
                proof {
                    assert(out@ =~= old(out)@ + item_text(old(state).imports_view(), item));
                }
                None
            },
            Item::Preamble => {
                out.append("// Code generated by jtd-codegen for Zig v0.1.0\n");
                out.append("\n");
                let ghost mv = state.imports_view();
                let ghost base = out@;
                let n = state.imports.len();
                proof {
                    assert(mv.len() == n);
                }
                let mut i: usize = 0;
                while i < n
                    invariant
                        n == state.imports@.len(),
                        *state == *old(state),
                        mv == state.imports_view(),
                        mv.len() == n,
                        0 <= i <= n,
                        out@ == base + import_lines(mv, i as int),
                    decreases n - i,
                {
                    proof {
                        assert(mv[i as int] == state.imports@[i as int]@);
                    }
                    out.append("const ");
                    out.append(state.imports[i].as_str());
                    out.append(" = @import(\"");
                    out.append(state.imports[i].as_str());
                    out.append("\");\n");
                    proof {
                        assert(out@ =~= base + import_lines(mv, i + 1));
                    }
                    i = i + 1;
                }
                out.append("\n");
                proof {
                    assert(out@ =~= old(out)@ + item_text(old(state).imports_view(), item));
                }
                None
            },
            Item::Postamble => {
                out.append("\n");
                None
            },
            Item::Alias { metadata: _, name, type_ } => {
                out.append("\n");
                out.append("type ");
                out.append(name.as_str());
                out.append("* = ");
                out.append(type_.as_str());
                out.append("\n");
                proof {
                    assert(out@ =~= old(out)@ + ("\n"@ + "type "@ + name@ + "* = "@ + type_@
                        + "\n"@));
                }
                None
            },
            Item::Enum { metadata: _, name, members } => {
                self.emit_enum(out, name, members);
                proof {
                    assert(out@ =~= old(out)@ + item_text(old(state).imports_view(), item));
                }
                None
            },
            Item::Struct { metadata: _, name, has_additional: _, fields } => {
                out.append("\n");
                out.append("pub const ");
                out.append(name.as_str());
                out.append(" = struct {\n");
                let ghost fs = fields@;
                let ghost base = out@;
                let n = fields.len();
                let mut i: usize = 0;
                while i < n
                    invariant
                        n == fields@.len(),
                        fs == fields@,
                        *state == *old(state),
                        0 <= i <= n,
                        out@ == base + field_lines(fs, i as int),
                    decreases n - i,
                {
                    out.append("    ");
                    out.append(fields[i].name.as_str());
                    out.append(": ");
                    out.append(fields[i].type_.as_str());
                    out.append(",\n");
                    proof {
                        assert(out@ =~= base + field_lines(fs, i + 1));
                    }
                    i = i + 1;
                }
                out.append("};\n");
                proof {
                    assert(out@ =~= old(out)@ + item_text(old(state).imports_view(), item));
                }
                None
            },
            Item::Discriminator { .. } => {
                out.append("\n");
                None
            },
            Item::DiscriminatorVariant { .. } => {
                out.append("\n");
                None
            },
        }
    }

    #[verifier::rlimit(60)]
    fn emit_enum(&self, out: &mut String, name: String, members: Vec<EnumMember>)
        ensures
            final(out)@ == old(out)@ + enum_text(name@, members@),
    {
        let ghost ms = members@;
        out.append("\n");
        out.append("pub const ");
        out.append(name.as_str());
        out.append(" = enum {\n");
        let n = members.len();
        let ghost base1 = out@;
        let mut i: usize = 0;
        while i < n
            invariant
                n == members@.len(),
                ms == members@,
                0 <= i <= n,
                out@ == base1 + member_name_lines(ms, i as int),
            decreases n - i,
        {
            out.append("    ");
            out.append(members[i].name.as_str());
            out.append(",\n");
            proof {
                assert(out@ =~= base1 + member_name_lines(ms, i + 1));
            }
            i = i + 1;
        }
        out.append("\n");
        out.append("    pub const NAMES = [@typeInfo(");
        out.append(name.as_str());
        out.append(").Enum.fields.len][:0]const u8 {\n");
        let ghost base2 = out@;
        let mut i2: usize = 0;
        while i2 < n
            invariant
                n == members@.len(),
                ms == members@,
                0 <= i2 <= n,
                out@ == base2 + member_quoted_lines(ms, i2 as int),
            decreases n - i2,
        {
            out.append("        ");
            push_quoted(members[i2].json_value.as_str(), out);
            out.append(",\n");
            proof {
                assert(out@ =~= base2 + member_quoted_lines(ms, i2 + 1));
            }
            i2 = i2 + 1;
        }
        out.append("    };\n");
        out.append("    pub const NAME_MAP = std.ComptimeStringMap(");
        out.append(name.as_str());
        out.append(", .{\n");
        let ghost base3 = out@;
        let mut i3: usize = 0;
        while i3 < n
            invariant
                n == members@.len(),
                ms == members@,
                0 <= i3 <= n,
                out@ == base3 + name_map_lines(ms, i3 as int),
            decreases n - i3,
        {
            out.append("        .{ NAMES[");
            push_dec(i3, out);
            out.append("], .");
            out.append(members[i3].name.as_str());
            out.append(" },\n");
            proof {
                assert(out@ =~= base3 + name_map_lines(ms, i3 + 1));
            }
            i3 = i3 + 1;
        }
        out.append("    };\n");
        out.append("\n");
        out.append("    pub fn name(self: ");
        out.append(name.as_str());
        out.append(") [:0]const u8 {\n");
        out.append("        return NAMES[@enumToInt(self)];\n");
        out.append("    }\n");
        out.append("    pub fn fromNumber(i: u8) ?");
        out.append(name.as_str());
        out.append(" {\n");
        out.append("        return if (i < NAMES.len) @intToEnum(");
        out.append(name.as_str());
        out.append(", i) else null;\n");
        out.append("    }\n");
        out.append("    pub fn fromName(s: []const u8]) ?");
        out.append(name.as_str());
        out.append(" {\n");
        out.append("        return NAME_MAP.get(s);\n");
        out.append("    }\n");
        out.append("};\n");
        proof {
            assert(out@ =~= old(out)@ + enum_text(name@, ms));
        }
    }
}

/// Naming is referentially consistent: for one kind and one fragment
/// sequence, any two results of `name` agree.
pub proof fn lemma_name_deterministic(
    t: &Target,
    kind: NameableKind,
    parts: Seq<Seq<char>>,
    r1: Seq<char>,
    r2: Seq<char>,
)
    requires
        r1 == t.spec_name(kind, parts),
        r2 == t.spec_name(kind, parts),
    ensures
        r1 == r2,
{
}

} // verus!
