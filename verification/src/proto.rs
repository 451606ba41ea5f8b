//! The Protobuf backend: undecorated naming pipelines, type-reference
//! rendering, and declaration rendering with numbered, name-sorted fields.

use vstd::prelude::*;
use vstd::string::StringExecFns;

use crate::inflector::Case;
use crate::inflector::CombiningInflector;
use crate::inflector::Inflector;
use crate::inflector::TailInflector;
use crate::ir::EnumMember;
use crate::ir::EnumMemberNamingStrategy;
use crate::ir::Expr;
use crate::ir::Field;
use crate::ir::FilePartitioningStrategy;
use crate::ir::Item;
use crate::ir::Metadata;
use crate::ir::NameableKind;
use crate::ir::OptionalPropertyHandlingStrategy;
use crate::ir::Strategy;
use crate::text::all_digits;
use crate::text::dec_str;
use crate::text::lex_lt;
use crate::text::push_dec;
use crate::text::push_quoted;
use crate::text::quoted;
use crate::text::str_all_digits;
use crate::text::str_contains_char;
use crate::text::str_eq;
use crate::text::str_lex_lt;
use crate::text::str_starts_with;

verus! {

/// This decorator's escaping is disabled for Protobuf: the name passes
/// through unchanged.
pub struct KeywordAvoidingInflector<I> {
    inflector: I,
}

impl<I> KeywordAvoidingInflector<I> {
    /// The wrapped inflector.
    pub closed spec fn spec_inner(&self) -> I {
        self.inflector
    }

    pub fn new(inflector: I) -> (r: Self)
        ensures
            r.spec_inner() == inflector,
    {
        Self { inflector }
    }
}

impl<I: Inflector> Inflector for KeywordAvoidingInflector<I> {
    open spec fn accepts(&self, parts: Seq<Seq<char>>) -> bool {
        self.spec_inner().accepts(parts)
    }

    open spec fn spec_inflect(&self, parts: Seq<Seq<char>>) -> Seq<char> {
        self.spec_inner().spec_inflect(parts)
    }

    fn inflect(&self, name_parts: &[String]) -> (r: String) {
        self.inflector.inflect(name_parts)
    }
}

/// The per-file accumulator.  The Protobuf backend registers no imports
/// while rendering expressions, so the set only ever holds what a caller
/// put there; the preamble prints it.
pub struct FileState {
    imports: Vec<String>,
}

impl FileState {
    /// The accumulated import lines.
    pub closed spec fn imports_view(&self) -> Seq<Seq<char>> {
        self.imports.deep_view()
    }

    pub fn new() -> (r: Self)
        ensures
            r.imports_view() == Seq::<Seq<char>>::empty(),
    {
        let r = FileState { imports: Vec::new() };
        proof {
            assert(r.imports_view() =~= Seq::<Seq<char>>::empty());
        }
        r
    }
}

impl Default for FileState {
    fn default() -> (r: Self)
        ensures
            r.imports_view() == Seq::<Seq<char>>::empty(),
    {
        FileState::new()
    }
}

/// The Protobuf spelling of a type reference.  A nullable wrapper adds
/// nothing: the inner rendering passes through.
pub open spec fn expr_text(e: Expr) -> Seq<char> {
    match e {
        Expr::Empty => "reserved"@,
        Expr::Boolean => "bool"@,
        Expr::Int8 => "int8"@,
        Expr::Uint8 => "uint8"@,
        Expr::Int16 => "int16"@,
        Expr::Uint16 => "uint16"@,
        Expr::Int32 => "int32"@,
        Expr::Uint32 => "uint32"@,
        Expr::Float32 => "float32"@,
        Expr::Float64 => "float64"@,
        Expr::String => "string"@,
        Expr::Timestamp => "uint64"@,
        Expr::ArrayOf(sub) => "repeated "@ + sub@,
        Expr::DictOf(sub) => "map<string, "@ + sub@ + ">"@,
        Expr::NullableOf(sub) => sub@,
    }
}

/// Every type reference renders to non-empty text, provided the rendered
/// inner type inside a nullable wrapper is itself non-empty.
pub proof fn lemma_expr_text_nonempty(e: Expr)
    requires
        e matches Expr::NullableOf(sub) ==> sub@.len() > 0,
    ensures
        expr_text(e).len() > 0,
{
    reveal_strlit("reserved");
    reveal_strlit("bool");
    reveal_strlit("int8");
    reveal_strlit("uint8");
    reveal_strlit("int16");
    reveal_strlit("uint16");
    reveal_strlit("int32");
    reveal_strlit("uint32");
    reveal_strlit("float32");
    reveal_strlit("float64");
    reveal_strlit("string");
    reveal_strlit("uint64");
    reveal_strlit("repeated ");
    reveal_strlit("map<string, ");
}

/// Whether a rendered type is a repeated one.
pub open spec fn is_repeated(t: Seq<char>) -> bool {
    "repeated "@.is_prefix_of(t)
}

/// Whether a field goes into the leading `required` block.
pub open spec fn required_pred(emit_required: bool, f: Field) -> bool {
    emit_required && !f.optional && !is_repeated(f.type_@)
}

/// The fields among the first `n` that render as `required`, in order.
pub open spec fn req_upto(s: Seq<Field>, emit_required: bool, n: int) -> Seq<Field>
    decreases n,
{
    if n <= 0 {
        Seq::empty()
    } else {
        req_upto(s, emit_required, n - 1) + (if required_pred(emit_required, s[n - 1]) {
            seq![s[n - 1]]
        } else {
            Seq::empty()
        })
    }
}

/// The fields among the first `n` that render as optional, in order.
pub open spec fn opt_upto(s: Seq<Field>, emit_required: bool, n: int) -> Seq<Field>
    decreases n,
{
    if n <= 0 {
        Seq::empty()
    } else {
        opt_upto(s, emit_required, n - 1) + (if !required_pred(emit_required, s[n - 1]) {
            seq![s[n - 1]]
        } else {
            Seq::empty()
        })
    }
}

/// Inserts a field into a name-sorted run, after any field of equal name, so
/// that sorting stays stable.
pub open spec fn insert_field(s: Seq<Field>, f: Field) -> Seq<Field>
    decreases s.len(),
{
    if s.len() == 0 {
        seq![f]
    } else if lex_lt(f.name@, s[0].name@) {
        seq![f] + s
    } else {
        seq![s[0]] + insert_field(s.drop_first(), f)
    }
}

/// The first `n` fields, sorted by name via stable insertion.
pub open spec fn sort_upto(s: Seq<Field>, n: int) -> Seq<Field>
    decreases n,
{
    if n <= 0 {
        Seq::empty()
    } else {
        insert_field(sort_upto(s, n - 1), s[n - 1])
    }
}

/// The trailing part of a field line: an alias clause whenever the legal
/// name differs from the JSON name or the JSON name holds an underscore.
pub open spec fn alias_suffix(f: Field) -> Seq<char> {
    if f.name@ != f.json_name@ || f.json_name@.contains('_') {
        " [ alias = \""@ + f.json_name@ + "\" ];"@
    } else {
        ";"@
    }
}

pub open spec fn req_line(f: Field, num: int) -> Seq<char> {
    "  required "@ + f.type_@ + " "@ + f.name@ + " = "@ + dec_str(num as nat) + alias_suffix(f)
        + "\n"@
}

pub open spec fn req_lines(req: Seq<Field>, n: int) -> Seq<char>
    decreases n,
{
    if n <= 0 {
        Seq::empty()
    } else {
        req_lines(req, n - 1) + req_line(req[n - 1], n)
    }
}

pub open spec fn opt_line(f: Field, num: int) -> Seq<char> {
    "  "@ + (if is_repeated(f.type_@) {
        Seq::<char>::empty()
    } else {
        "optional "@
    }) + f.type_@ + " "@ + f.name@ + " = "@ + dec_str(num as nat) + alias_suffix(f) + "\n"@
}

pub open spec fn opt_lines(opt: Seq<Field>, base: int, n: int) -> Seq<char>
    decreases n,
{
    if n <= 0 {
        Seq::empty()
    } else {
        opt_lines(opt, base, n - 1) + opt_line(opt[n - 1], base + n)
    }
}

/// The rendering of one struct declaration: a `required` block in schema
/// order, then the remaining fields sorted by name, numbered consecutively.
pub open spec fn struct_text(emit_required: bool, name: Seq<char>, fields: Seq<Field>) -> Seq<
    char,
> {
    let req = req_upto(fields, emit_required, fields.len() as int);
    let opt_plain = opt_upto(fields, emit_required, fields.len() as int);
    let opt = sort_upto(opt_plain, opt_plain.len() as int);
    "message "@ + name + " {\n"@ + req_lines(req, req.len() as int) + opt_lines(
        opt,
        req.len() as int,
        opt.len() as int,
    ) + "}\n"@ + "\n"@
}

pub open spec fn enum_member_line(m: EnumMember, numeric: bool, num: int) -> Seq<char> {
    if numeric {
        "  "@ + m.name@ + " = "@ + m.json_value@ + ";\n"@
    } else {
        "  "@ + m.name@ + " = "@ + dec_str(num as nat) + "; // "@ + quoted(m.json_value@)
            + "\n"@
    }
}

pub open spec fn enum_lines(ms: Seq<EnumMember>, numeric: bool, n: int) -> Seq<char>
    decreases n,
{
    if n <= 0 {
        Seq::empty()
    } else {
        enum_lines(ms, numeric, n - 1) + enum_member_line(ms[n - 1], numeric, n)
    }
}

/// Whether an enum renders its members with their own numeric JSON values:
/// decided by the first member alone.
pub open spec fn enum_numeric(ms: Seq<EnumMember>) -> bool {
    ms.len() > 0 && all_digits(ms[0].json_value@)
}

pub open spec fn import_lines(imports: Seq<Seq<char>>, n: int) -> Seq<char>
    decreases n,
{
    if n <= 0 {
        Seq::empty()
    } else {
        import_lines(imports, n - 1) + "import "@ + imports[n - 1] + ";\n"@
    }
}

/// The text one declaration contributes to the output file.
pub open spec fn item_text(
    emit_required: bool,
    package: Seq<char>,
    imports: Seq<Seq<char>>,
    item: Item,
) -> Seq<char> {
    match item {
        Item::Auxiliary { .. } => Seq::empty(),
        Item::Preamble => "// Code generated by jtd-codegen for proto v0.1.0\n\npackage "@
            + package + ";\n"@ + "\n"@ + import_lines(imports, imports.len() as int) + "\n"@,
        Item::Postamble => "\n"@,
        Item::Alias { name, type_, .. } => "//alias "@ + name@ + " = "@ + type_@ + "\n"@
            + "\n"@,
        Item::Enum { name, members, .. } => "enum "@ + name@ + " {\n"@ + enum_lines(
            members@,
            enum_numeric(members@),
            members@.len() as int,
        ) + "}\n"@ + "\n"@,
        Item::Struct { name, fields, .. } => struct_text(emit_required, name@, fields@),
        Item::Discriminator { .. } => "\n"@,
        Item::DiscriminatorVariant { .. } => "\n"@,
    }
}

proof fn lemma_insert_field_len(s: Seq<Field>, f: Field)
    ensures
        insert_field(s, f).len() == s.len() + 1,
    decreases s.len(),
{
    if s.len() > 0 && !lex_lt(f.name@, s[0].name@) {
        lemma_insert_field_len(s.drop_first(), f);
    }
}

proof fn lemma_sort_len(s: Seq<Field>, n: int)
    requires
        0 <= n <= s.len(),
    ensures
        sort_upto(s, n).len() == n,
    decreases n,
{
    if n > 0 {
        lemma_sort_len(s, n - 1);
        lemma_insert_field_len(sort_upto(s, n - 1), s[n - 1]);
    }
}

proof fn lemma_partition_len(s: Seq<Field>, emit_required: bool, n: int)
    requires
        0 <= n <= s.len(),
    ensures
        req_upto(s, emit_required, n).len() + opt_upto(s, emit_required, n).len() == n,
    decreases n,
{
    if n > 0 {
        lemma_partition_len(s, emit_required, n - 1);
    }
}

fn insert_field_sorted(v: &mut Vec<Field>, f: Field)
    ensures
        final(v)@ == insert_field(old(v)@, f),
{
    let ghost orig = v@;
    let ghost fg = f;
    let n = v.len();
    proof {
        assert(orig.subrange(0, n as int) =~= orig);
        assert(orig.subrange(0, 0) + insert_field(orig.subrange(0, n as int), fg)
            =~= insert_field(orig, fg));
    }
    let mut i: usize = 0;
    while i < n
        invariant
            n == v@.len(),
            orig == v@,
            orig == old(v)@,
            fg == f,
            0 <= i <= n,
            insert_field(orig, fg) == orig.subrange(0, i as int) + insert_field(
                orig.subrange(i as int, n as int),
                fg,
            ),
        decreases n - i,
    {
        let ghost rest = orig.subrange(i as int, n as int);
        proof {
            assert(rest[0] == orig[i as int]);
            assert(rest.drop_first() =~= orig.subrange(i + 1, n as int));
        }
        if str_lex_lt(f.name.as_str(), v[i].name.as_str()) {
            proof {
                assert(lex_lt(fg.name@, rest[0].name@));
                assert(insert_field(rest, fg) == seq![fg] + rest);
            }
            v.insert(i, f);
            proof {
                assert(v@ =~= insert_field(orig, fg));
            }
            return;
        }
        proof {
            assert(!lex_lt(fg.name@, rest[0].name@));
            assert(insert_field(rest, fg) == seq![rest[0]] + insert_field(
                rest.drop_first(),
                fg,
            ));
            assert(orig.subrange(0, i + 1) =~= orig.subrange(0, i as int) + seq![
                orig[i as int],
            ]);
            assert(insert_field(orig, fg) =~= orig.subrange(0, i + 1) + insert_field(
                orig.subrange(i + 1, n as int),
                fg,
            ));
        }
        i = i + 1;
    }
    proof {
        assert(orig.subrange(n as int, n as int) =~= Seq::<Field>::empty());
        assert(insert_field(orig.subrange(n as int, n as int), fg) =~= seq![fg]);
    }
    v.push(f);
    proof {
        assert(v@ =~= insert_field(orig, fg));
    }
}

/// The Protobuf backend: renders declarations into one `.proto` file.
pub struct Target {
    filename: String,
    package: String,
    emit_required_fields: bool,
    type_naming: KeywordAvoidingInflector<CombiningInflector>,
    field_naming: KeywordAvoidingInflector<TailInflector>,
    enum_member_naming: KeywordAvoidingInflector<TailInflector>,
}

impl Target {
    /// The base name of the output file.
    pub closed spec fn spec_filename(&self) -> Seq<char> {
        self.filename@
    }

    /// The package named in the preamble.
    pub closed spec fn spec_package(&self) -> Seq<char> {
        self.package@
    }

    /// Whether non-optional scalar fields render as `required`.
    pub closed spec fn spec_emit_required_fields(&self) -> bool {
        self.emit_required_fields
    }

    /// The pipeline that names types.
    pub closed spec fn spec_type_naming(&self) -> KeywordAvoidingInflector<CombiningInflector> {
        self.type_naming
    }

    /// The pipeline that names fields.
    pub closed spec fn spec_field_naming(&self) -> KeywordAvoidingInflector<TailInflector> {
        self.field_naming
    }

    /// The pipeline that names enum members.
    pub closed spec fn spec_enum_member_naming(&self) -> KeywordAvoidingInflector<
        TailInflector,
    > {
        self.enum_member_naming
    }

    /// The name given to a fragment sequence, by kind.
    pub open spec fn spec_name(&self, kind: NameableKind, parts: Seq<Seq<char>>) -> Seq<char> {
        match kind {
            NameableKind::Type => self.spec_type_naming().spec_inflect(parts),
            NameableKind::Field => self.spec_field_naming().spec_inflect(parts),
            NameableKind::EnumMember => self.spec_enum_member_naming().spec_inflect(parts),
        }
    }

    pub fn new(filename: String, package: String, emit_required_fields: bool) -> (r: Self)
        ensures
            r.spec_filename() == filename@,
            r.spec_package() == package@,
            r.spec_emit_required_fields() == emit_required_fields,
            r.spec_type_naming().spec_inner().spec_case() == Case::PascalCase,
            r.spec_field_naming().spec_inner().spec_case() == Case::SnakeCase,
            r.spec_enum_member_naming().spec_inner().spec_case() == Case::ScreamingSnakeCase,
    {
        Target {
            filename,
            package,
            emit_required_fields,
            type_naming: KeywordAvoidingInflector::new(
                CombiningInflector::new(Case::PascalCase),
            ),
            field_naming: KeywordAvoidingInflector::new(TailInflector::new(Case::SnakeCase)),
            enum_member_naming: KeywordAvoidingInflector::new(
                TailInflector::new(Case::ScreamingSnakeCase),
            ),
        }
    }

    pub fn strategy(&self) -> (r: Strategy)
        ensures
            r.file_partitioning is SingleFile,
            (r.file_partitioning->SingleFile_0)@ == self.spec_filename() + ".proto"@,
            r.enum_member_naming is Modularized,
            r.optional_property_handling is WrapWithNullable,
            !r.booleans_are_nullable,
            !r.int8s_are_nullable,
            !r.uint8s_are_nullable,
            !r.int16s_are_nullable,
            !r.uint16s_are_nullable,
            !r.int32s_are_nullable,
            !r.uint32s_are_nullable,
            !r.float32s_are_nullable,
            !r.float64s_are_nullable,
            !r.strings_are_nullable,
            !r.timestamps_are_nullable,
            !r.arrays_are_nullable,
            !r.dicts_are_nullable,
            !r.aliases_are_nullable,
            !r.enums_are_nullable,
            !r.structs_are_nullable,
            !r.discriminators_are_nullable,
    {
        let mut f = self.filename.clone();
        f.append(".proto");
        Strategy {
            file_partitioning: FilePartitioningStrategy::SingleFile(f),
            enum_member_naming: EnumMemberNamingStrategy::Modularized,
            optional_property_handling: OptionalPropertyHandlingStrategy::WrapWithNullable,
            booleans_are_nullable: false,
            int8s_are_nullable: false,
            uint8s_are_nullable: false,
            int16s_are_nullable: false,
            uint16s_are_nullable: false,
            int32s_are_nullable: false,
            uint32s_are_nullable: false,
            float32s_are_nullable: false,
            float64s_are_nullable: false,
            strings_are_nullable: false,
            timestamps_are_nullable: false,
            arrays_are_nullable: false,
            dicts_are_nullable: false,
            aliases_are_nullable: false,
            enums_are_nullable: false,
            structs_are_nullable: false,
            discriminators_are_nullable: false,
        }
    }

    /// Names a schema path; the driver never asks with zero fragments.
    pub fn name(&self, kind: NameableKind, parts: &[String]) -> (r: String)
        requires
            parts@.len() > 0,
        ensures
            r@ == self.spec_name(kind, parts.deep_view()),
    {
        proof {
            assert(parts.deep_view().len() == parts@.len());
        }
        match kind {
            NameableKind::Type => self.type_naming.inflect(parts),
            NameableKind::Field => self.field_naming.inflect(parts),
            NameableKind::EnumMember => self.enum_member_naming.inflect(parts),
        }
    }

    /// Renders a type reference.  The Protobuf backend registers no imports.
    pub fn expr(&self, state: &mut FileState, metadata: Metadata, expr: Expr) -> (r: String)
        ensures
            r@ == expr_text(expr),
            *final(state) == *old(state),
    {
        match expr {
            Expr::Empty => String::from_str("reserved"),
            Expr::Boolean => String::from_str("bool"),
            Expr::Int8 => String::from_str("int8"),
            Expr::Uint8 => String::from_str("uint8"),
            Expr::Int16 => String::from_str("int16"),
            Expr::Uint16 => String::from_str("uint16"),
            Expr::Int32 => String::from_str("int32"),
            Expr::Uint32 => String::from_str("uint32"),
            Expr::Float32 => String::from_str("float32"),
            Expr::Float64 => String::from_str("float64"),
            Expr::String => String::from_str("string"),
            Expr::Timestamp => String::from_str("uint64"),
            Expr::ArrayOf(sub) => {
                let mut r = String::from_str("repeated ");
                r.append(sub.as_str());
                proof {
                    assert(r@ =~= "repeated "@ + sub@);
                }
                r
            },
            Expr::DictOf(sub) => {
                let mut r = String::from_str("map<string, ");
                r.append(sub.as_str());
                r.append(">");
                proof {
                    assert(r@ =~= "map<string, "@ + sub@ + ">"@);
                }
                r
            },
            Expr::NullableOf(sub) => sub,
        }
    }

    /// Appends the rendering of one declaration to `out`.  Only reads the
    /// accumulated imports; single-file backends export no names.
    pub fn item(&self, out: &mut String, state: &mut FileState, item: Item) -> (r: Option<
        String,
    >)
        ensures
            final(out)@ == old(out)@ + item_text(
                self.spec_emit_required_fields(),
                self.spec_package(),
                old(state).imports_view(),
                item,
            ),
            *final(state) == *old(state),
            r is None,
    {
        match item {
            Item::Auxiliary { .. } => {
                proof {
                    assert(out@ =~= old(out)@ + item_text(
                        self.spec_emit_required_fields(),
                        self.spec_package(),
                        old(state).imports_view(),
                        item,
                    ));
                }
                None
            },
            Item::Preamble => {
                out.append("// Code generated by jtd-codegen for proto v0.1.0\n\npackage ");
                out.append(self.package.as_str());
                out.append(";\n");
                out.append("\n");
                let ghost mv = state.imports_view();
                let ghost base = out@;
                let n = state.imports.len();
                proof {
                    assert(mv.len() == n);
                }
                let mut i: usize = 0;
                while i < n
                    invariant
                        n == state.imports@.len(),
                        *state == *old(state),
                        mv == state.imports_view(),
                        mv.len() == n,
                        0 <= i <= n,
                        out@ == base + import_lines(mv, i as int),
                    decreases n - i,
                {
                    proof {
                        assert(mv[i as int] == state.imports@[i as int]@);
                    }
                    out.append("import ");
                    out.append(state.imports[i].as_str());
                    out.append(";\n");
                    proof {
                        assert(out@ =~= base + import_lines(mv, i + 1));
                    }
                    i = i + 1;
                }
                out.append("\n");
                proof {
                    assert(out@ =~= old(out)@ + item_text(
                        self.spec_emit_required_fields(),
                        self.spec_package(),
                        old(state).imports_view(),
                        item,
                    ));
                }
                None
            },
            Item::Postamble => {
                out.append("\n");
                None
            },
            Item::Alias { metadata: _, name, type_ } => {
                out.append("//alias ");
                out.append(name.as_str());
                out.append(" = ");
                out.append(type_.as_str());
                out.append("\n");
                out.append("\n");
                proof {
                    assert(out@ =~= old(out)@ + ("//alias "@ + name@ + " = "@ + type_@ + "\n"@
                        + "\n"@));
                }
                None
            },
            Item::Enum { metadata: _, name, members } => {
                out.append("enum ");
                out.append(name.as_str());
                out.append(" {\n");
                let ghost ms = members@;
                let ghost base = out@;
                let n = members.len();
                let numeric = if n > 0 {
                    str_all_digits(members[0].json_value.as_str())
                } else {
                    false
                };
                proof {
                    assert(numeric == enum_numeric(ms));
                }
                let mut i: usize = 0;
                while i < n
                    invariant
                        n == members@.len(),
                        ms == members@,
                        *state == *old(state),
                        numeric == enum_numeric(ms),
                        0 <= i <= n,
                        out@ == base + enum_lines(ms, numeric, i as int),
                    decreases n - i,
                {
                    out.append("  ");
                    out.append(members[i].name.as_str());
                    out.append(" = ");
                    if numeric {
                        out.append(members[i].json_value.as_str());
                        out.append(";\n");
                    } else {
                        push_dec(i + 1, out);
                        out.append("; // ");
                        push_quoted(members[i].json_value.as_str(), out);
                        out.append("\n");
                    }
                    proof {
                        assert(out@ =~= base + enum_lines(ms, numeric, i + 1));
                    }
                    i = i + 1;
                }
                out.append("}\n");
                out.append("\n");
                proof {
                    assert(out@ =~= old(out)@ + item_text(
                        self.spec_emit_required_fields(),
                        self.spec_package(),
                        old(state).imports_view(),
                        item,
                    ));
                }
                None
            },
            Item::Struct { metadata: _, name, has_additional: _, fields } => {
                self.emit_struct(out, name, fields);
                proof {
                    assert(out@ =~= old(out)@ + item_text(
                        self.spec_emit_required_fields(),
                        self.spec_package(),
                        old(state).imports_view(),
                        item,
                    ));
                }
                None
            },
            Item::Discriminator { .. } => {
                out.append("\n");
                None
            },
            Item::DiscriminatorVariant { .. } => {
                out.append("\n");
                None
            },
        }
    }

    fn emit_struct(&self, out: &mut String, name: String, fields: Vec<Field>)
        ensures
            final(out)@ == old(out)@ + struct_text(
                self.spec_emit_required_fields(),
                name@,
                fields@,
            ),
    {
        let ghost fs = fields@;
        let ghost emit = self.spec_emit_required_fields();
        out.append("message ");
        out.append(name.as_str());
        out.append(" {\n");
        let mut required_fields: Vec<Field> = Vec::new();
        let mut optional_fields: Vec<Field> = Vec::new();
        let mut rest = fields;
        let n_total = rest.len();
        let ghost total = fs.len() as int;
        proof {
            assert(req_upto(fs, emit, 0) =~= Seq::<Field>::empty());
            assert(opt_upto(fs, emit, 0) =~= Seq::<Field>::empty());
        }
        let mut i: usize = 0;
        while rest.len() > 0
            invariant
                i <= fs.len(),
                fs.len() == n_total,
                i + rest@.len() == n_total,
                rest@ =~= fs.subrange(i as int, fs.len() as int),
                required_fields@ == req_upto(fs, emit, i as int),
                optional_fields@ == opt_upto(fs, emit, i as int),
                emit == self.spec_emit_required_fields(),
            decreases rest@.len(),
        {
            let f = rest.remove(0);
            proof {
                assert(fs.subrange(i as int, fs.len() as int)[0] == fs[i as int]);
                assert(f == fs[i as int]);
                assert(rest@ =~= fs.subrange(i + 1, fs.len() as int));
            }
            let is_req = if self.emit_required_fields && !f.optional {
                !str_starts_with(f.type_.as_str(), "repeated ")
            } else {
                false
            };
            proof {
                assert(is_req == required_pred(emit, fs[i as int]));
            }
            if is_req {
                required_fields.push(f);
                proof {
                    assert(required_fields@ =~= req_upto(fs, emit, i + 1));
                    assert(optional_fields@ =~= opt_upto(fs, emit, i + 1));
                }
            } else {
                optional_fields.push(f);
                proof {
                    assert(required_fields@ =~= req_upto(fs, emit, i + 1));
                    assert(optional_fields@ =~= opt_upto(fs, emit, i + 1));
                }
            }
            i = i + 1;
        }
        proof {
            assert(i == fs.len());
        }
        let ghost req = req_upto(fs, emit, total);
        let ghost opt_plain = opt_upto(fs, emit, total);

        // Sort the optional fields by name, stably.
        let mut sorted_fields: Vec<Field> = Vec::new();
        let mut j: usize = 0;
        let n_opt = optional_fields.len();
        let ghost opt_total = opt_plain.len() as int;
        while optional_fields.len() > 0
            invariant
                j <= opt_plain.len(),
                opt_plain.len() == n_opt,
                j + optional_fields@.len() == n_opt,
                optional_fields@ =~= opt_plain.subrange(j as int, opt_plain.len() as int),
                sorted_fields@ == sort_upto(opt_plain, j as int),
            decreases optional_fields@.len(),
        {
            let f = optional_fields.remove(0);
            proof {
                assert(opt_plain.subrange(j as int, opt_plain.len() as int)[0]
                    == opt_plain[j as int]);
                assert(f == opt_plain[j as int]);
                assert(optional_fields@ =~= opt_plain.subrange(j + 1, opt_plain.len() as int));
            }
            insert_field_sorted(&mut sorted_fields, f);
            j = j + 1;
        }
        let ghost opt = sort_upto(opt_plain, opt_total);
        proof {
            assert(sorted_fields@ == opt);
        }

        let ghost base = out@;
        let mut count: usize = 0;
        let nreq = required_fields.len();
        proof {
            assert(req.len() == nreq);
        }
        let mut k: usize = 0;
        while k < nreq
            invariant
                nreq == required_fields@.len(),
                required_fields@ == req,
                0 <= k <= nreq,
                count == k,
                out@ == base + req_lines(req, k as int),
            decreases nreq - k,
        {
            count = count + 1;
            out.append("  required ");
            out.append(required_fields[k].type_.as_str());
            out.append(" ");
            out.append(required_fields[k].name.as_str());
            out.append(" = ");
            push_dec(count, out);
            self.emit_alias_suffix(out, &required_fields[k]);
            out.append("\n");
            proof {
                assert(out@ =~= base + req_lines(req, k + 1));
            }
            k = k + 1;
        }
        let ghost base2 = out@;
        let nopt = sorted_fields.len();
        proof {
            assert(opt.len() == nopt);
            lemma_sort_len(opt_plain, opt_total);
            lemma_partition_len(fs, emit, total);
            assert(nreq + nopt == fs.len());
        }
        let mut k2: usize = 0;
        while k2 < nopt
            invariant
                nopt == sorted_fields@.len(),
                sorted_fields@ == opt,
                nreq == req.len(),
                nreq + nopt <= usize::MAX,
                0 <= k2 <= nopt,
                count == nreq + k2,
                out@ == base2 + opt_lines(opt, nreq as int, k2 as int),
            decreases nopt - k2,
        {
            count = count + 1;
            out.append("  ");
            let rep = str_starts_with(sorted_fields[k2].type_.as_str(), "repeated ");
            if !rep {
                out.append("optional ");
            }
            out.append(sorted_fields[k2].type_.as_str());
            out.append(" ");
            out.append(sorted_fields[k2].name.as_str());
            out.append(" = ");
            push_dec(count, out);
            self.emit_alias_suffix(out, &sorted_fields[k2]);
            out.append("\n");
            proof {
                assert(out@ =~= base2 + opt_lines(opt, nreq as int, k2 + 1));
            }
            k2 = k2 + 1;
        }
        out.append("}\n");
        out.append("\n");
        proof {
            assert(out@ =~= old(out)@ + struct_text(emit, name@, fs));
        }
    }

    fn emit_alias_suffix(&self, out: &mut String, f: &Field)
        ensures
            final(out)@ == old(out)@ + alias_suffix(*f),
    {
        let differs = !str_eq(f.name.as_str(), f.json_name.as_str());
        let underscored = str_contains_char(f.json_name.as_str(), '_');
        if differs || underscored {
            out.append(" [ alias = \"");
            out.append(f.json_name.as_str());
            out.append("\" ];");
            proof {
                assert(out@ =~= old(out)@ + (" [ alias = \""@ + f.json_name@ + "\" ];"@));
            }
        } else {
            out.append(";");
        }
    }
}

/// Naming is referentially consistent: for one kind and one fragment
/// sequence, any two results of `name` agree.
pub proof fn lemma_name_deterministic(
    t: &Target,
    kind: NameableKind,
    parts: Seq<Seq<char>>,
    r1: Seq<char>,
    r2: Seq<char>,
)
    requires
        r1 == t.spec_name(kind, parts),
        r2 == t.spec_name(kind, parts),
    ensures
        r1 == r2,
{
}

} // verus!
