//! The Nim backend: naming pipelines decorated with the Nim keyword set,
//! type-reference rendering, and declaration rendering.

use vstd::prelude::*;
use vstd::string::StringExecFns;

use crate::inflector::Case;
use crate::inflector::CombiningInflector;
use crate::inflector::Inflector;
use crate::inflector::TailInflector;
use crate::ir::EnumMember;
use crate::ir::EnumMemberNamingStrategy;
use crate::ir::Expr;
use crate::ir::Field;
use crate::ir::FilePartitioningStrategy;
use crate::ir::Item;
use crate::ir::Metadata;
use crate::ir::NameableKind;
use crate::ir::OptionalPropertyHandlingStrategy;
use crate::ir::Strategy;
use crate::text::contains_string;
use crate::text::join_strings;
use crate::text::join_with;
use crate::text::lex_lt;
use crate::text::push_char;
use crate::text::push_quoted;
use crate::text::quoted;
use crate::text::sorted_insert;
use crate::text::str_eq;
use crate::text::str_lex_lt;
use crate::text::vec_sorted_insert;

verus! {

/// The decorated name: a keyword is wrapped in backticks, anything else
/// passes through unchanged.
pub open spec fn escape_keyword(keywords: Seq<Seq<char>>, raw: Seq<char>) -> Seq<char> {
    if keywords.contains(raw) {
        seq!['`'] + raw + seq!['`']
    } else {
        raw
    }
}

/// Keyword safety: when the plain name collides with a keyword, the decorated
/// name differs from the plain one and is itself no keyword.  The proviso
/// that no keyword starts with the escape character holds of every keyword
/// set made of identifiers.
pub proof fn lemma_keyword_safety(keywords: Seq<Seq<char>>, raw: Seq<char>)
    requires
        keywords.contains(raw),
        forall|i: int|
            0 <= i < keywords.len() ==> (#[trigger] keywords[i]).len() == 0 || keywords[i][0]
                != '`',
    ensures
        escape_keyword(keywords, raw) != raw,
        !keywords.contains(escape_keyword(keywords, raw)),
{
    let e = seq!['`'] + raw + seq!['`'];
    assert(e.len() == raw.len() + 2);
    assert(e[0] == '`');
    if keywords.contains(e) {
        let i = choose|i: int| 0 <= i < keywords.len() && keywords[i] == e;
        assert(keywords[i].len() == 0 || keywords[i][0] != '`');
        assert(false);
    }
}

/// The shipped Nim keyword set meets the proviso of `lemma_keyword_safety`:
/// every keyword is non-empty and none starts with the escape character.
#[verifier::rlimit(100)]
pub proof fn lemma_keywords_plain()
    ensures
        forall|i: int|
            0 <= i < keyword_seq().len() ==> (#[trigger] keyword_seq()[i]).len() > 0
                && keyword_seq()[i][0] != '`',
{
    reveal_strlit("addr");
    reveal_strlit("and");
    reveal_strlit("as");
    reveal_strlit("asm");
    reveal_strlit("bind");
    reveal_strlit("block");
    reveal_strlit("break");
    reveal_strlit("case");
    reveal_strlit("cast");
    reveal_strlit("concept");
    reveal_strlit("const");
    reveal_strlit("continue");
    reveal_strlit("converter");
    reveal_strlit("defer");
    reveal_strlit("discard");
    reveal_strlit("distinct");
    reveal_strlit("div");
    reveal_strlit("do");
    reveal_strlit("elif");
    reveal_strlit("else");
    reveal_strlit("end");
    reveal_strlit("enum");
    reveal_strlit("except");
    reveal_strlit("export");
    reveal_strlit("finally");
    reveal_strlit("for");
    reveal_strlit("from");
    reveal_strlit("func");
    reveal_strlit("if");
    reveal_strlit("import");
    reveal_strlit("in");
    reveal_strlit("interface");
    reveal_strlit("is");
    reveal_strlit("isnot");
    reveal_strlit("iterator");
    reveal_strlit("let");
    reveal_strlit("macro");
    reveal_strlit("method");
    reveal_strlit("mixin");
    reveal_strlit("mod");
    reveal_strlit("nil");
    reveal_strlit("not");
    reveal_strlit("notin");
    reveal_strlit("object");
    reveal_strlit("of");
    reveal_strlit("or");
    reveal_strlit("out");
    reveal_strlit("proc");
    reveal_strlit("ptr");
    reveal_strlit("raise");
    reveal_strlit("ref");
    reveal_strlit("return");
    reveal_strlit("shl");
    reveal_strlit("shr");
    reveal_strlit("static");
    reveal_strlit("template");
    reveal_strlit("try");
    reveal_strlit("tuple");
    reveal_strlit("type");
    reveal_strlit("using");
    reveal_strlit("var");
    reveal_strlit("when");
    reveal_strlit("while");
    reveal_strlit("xor");
    reveal_strlit("yield");
}

/// Keyword safety for the shipped Nim keyword set.
pub proof fn lemma_keyword_safety_shipped(raw: Seq<char>)
    requires
        keyword_seq().contains(raw),
    ensures
        escape_keyword(keyword_seq(), raw) != raw,
        !keyword_seq().contains(escape_keyword(keyword_seq(), raw)),
{
    lemma_keywords_plain();
    lemma_keyword_safety(keyword_seq(), raw);
}

/// Wraps an inflector; a result that collides with a keyword is escaped with
/// backticks, the Nim way.
pub struct KeywordAvoidingInflector<I> {
    keywords: Vec<String>,
    inflector: I,
}

impl<I> KeywordAvoidingInflector<I> {
    /// The keyword set this decorator avoids.
    pub closed spec fn spec_keywords(&self) -> Seq<Seq<char>> {
        self.keywords.deep_view()
    }

    /// The wrapped inflector.
    pub closed spec fn spec_inner(&self) -> I {
        self.inflector
    }

    pub fn new(keywords: Vec<String>, inflector: I) -> (r: Self)
        ensures
            r.spec_keywords() == keywords.deep_view(),
            r.spec_inner() == inflector,
    {
        Self { keywords, inflector }
    }
}

impl<I: Inflector> Inflector for KeywordAvoidingInflector<I> {
    open spec fn accepts(&self, parts: Seq<Seq<char>>) -> bool {
        self.spec_inner().accepts(parts)
    }

    open spec fn spec_inflect(&self, parts: Seq<Seq<char>>) -> Seq<char> {
        escape_keyword(self.spec_keywords(), self.spec_inner().spec_inflect(parts))
    }

    fn inflect(&self, name_parts: &[String]) -> (r: String) {
        let raw_name = self.inflector.inflect(name_parts);
        if contains_string(&self.keywords, raw_name.as_str()) {
            let mut e = String::new();
            push_char(&mut e, '`');
            e.append(raw_name.as_str());
            push_char(&mut e, '`');
            proof {
                assert(e@ =~= seq!['`'] + raw_name@ + seq!['`']);
            }
            e
        } else {
            raw_name
        }
    }
}

/// The reserved words of Nim.
pub open spec fn keyword_seq() -> Seq<Seq<char>> {
    seq![
        "addr"@, "and"@, "as"@, "asm"@, "bind"@, "block"@, "break"@, "case"@, "cast"@,
        "concept"@, "const"@, "continue"@, "converter"@, "defer"@, "discard"@, "distinct"@,
        "div"@, "do"@, "elif"@, "else"@, "end"@, "enum"@, "except"@, "export"@, "finally"@,
        "for"@, "from"@, "func"@, "if"@, "import"@, "in"@, "interface"@, "is"@, "isnot"@,
        "iterator"@, "let"@, "macro"@, "method"@, "mixin"@, "mod"@, "nil"@, "not"@, "notin"@,
        "object"@, "of"@, "or"@, "out"@, "proc"@, "ptr"@, "raise"@, "ref"@, "return"@, "shl"@,
        "shr"@, "static"@, "template"@, "try"@, "tuple"@, "type"@, "using"@, "var"@, "when"@,
        "while"@, "xor"@, "yield"@,
    ]
}

fn keywords() -> (v: Vec<String>)
    ensures
        v.deep_view() == keyword_seq(),
{
    let mut v: Vec<String> = Vec::new();
    crate::text::push_string(&mut v, "addr");
    crate::text::push_string(&mut v, "and");
    crate::text::push_string(&mut v, "as");
    crate::text::push_string(&mut v, "asm");
    crate::text::push_string(&mut v, "bind");
    crate::text::push_string(&mut v, "block");
    crate::text::push_string(&mut v, "break");
    crate::text::push_string(&mut v, "case");
    crate::text::push_string(&mut v, "cast");
    crate::text::push_string(&mut v, "concept");
    crate::text::push_string(&mut v, "const");
    crate::text::push_string(&mut v, "continue");
    crate::text::push_string(&mut v, "converter");
    crate::text::push_string(&mut v, "defer");
    crate::text::push_string(&mut v, "discard");
    crate::text::push_string(&mut v, "distinct");
    crate::text::push_string(&mut v, "div");
    crate::text::push_string(&mut v, "do");
    crate::text::push_string(&mut v, "elif");
    crate::text::push_string(&mut v, "else");
    crate::text::push_string(&mut v, "end");
    crate::text::push_string(&mut v, "enum");
    crate::text::push_string(&mut v, "except");
    crate::text::push_string(&mut v, "export");
    crate::text::push_string(&mut v, "finally");
    crate::text::push_string(&mut v, "for");
    crate::text::push_string(&mut v, "from");
    crate::text::push_string(&mut v, "func");
    crate::text::push_string(&mut v, "if");
    crate::text::push_string(&mut v, "import");
    crate::text::push_string(&mut v, "in");
    crate::text::push_string(&mut v, "interface");
    crate::text::push_string(&mut v, "is");
    crate::text::push_string(&mut v, "isnot");
    crate::text::push_string(&mut v, "iterator");
    crate::text::push_string(&mut v, "let");
    crate::text::push_string(&mut v, "macro");
    crate::text::push_string(&mut v, "method");
    crate::text::push_string(&mut v, "mixin");
    crate::text::push_string(&mut v, "mod");
    crate::text::push_string(&mut v, "nil");
    crate::text::push_string(&mut v, "not");
    crate::text::push_string(&mut v, "notin");
    crate::text::push_string(&mut v, "object");
    crate::text::push_string(&mut v, "of");
    crate::text::push_string(&mut v, "or");
    crate::text::push_string(&mut v, "out");
    crate::text::push_string(&mut v, "proc");
    crate::text::push_string(&mut v, "ptr");
    crate::text::push_string(&mut v, "raise");
    crate::text::push_string(&mut v, "ref");
    crate::text::push_string(&mut v, "return");
    crate::text::push_string(&mut v, "shl");
    crate::text::push_string(&mut v, "shr");
    crate::text::push_string(&mut v, "static");
    crate::text::push_string(&mut v, "template");
    crate::text::push_string(&mut v, "try");
    crate::text::push_string(&mut v, "tuple");
    crate::text::push_string(&mut v, "type");
    crate::text::push_string(&mut v, "using");
    crate::text::push_string(&mut v, "var");
    crate::text::push_string(&mut v, "when");
    crate::text::push_string(&mut v, "while");
    crate::text::push_string(&mut v, "xor");
    crate::text::push_string(&mut v, "yield");
    proof {
        assert(v.deep_view() =~= keyword_seq());
    }
    v
}

struct ImportEntry {
    module: String,
    names: Vec<String>,
}

/// The per-file accumulator: modules to import, each with the names imported
/// from it, both levels kept sorted and duplicate-free.
pub struct FileState {
    imports: Vec<ImportEntry>,
}

/// Adds `name` under `module` in the import model; both levels stay sorted
/// and duplicate-free, so repeating an addition changes nothing.
pub open spec fn spec_add_import(
    m: Seq<(Seq<char>, Seq<Seq<char>>)>,
    module: Seq<char>,
    name: Seq<char>,
) -> Seq<(Seq<char>, Seq<Seq<char>>)>
    decreases m.len(),
{
    if m.len() == 0 {
        seq![(module, seq![name])]
    } else if m[0].0 == module {
        seq![(m[0].0, sorted_insert(m[0].1, name))] + m.drop_first()
    } else if lex_lt(module, m[0].0) {
        seq![(module, seq![name])] + m
    } else {
        seq![m[0]] + spec_add_import(m.drop_first(), module, name)
    }
}

/// Adding the same import twice leaves the same state as adding it once.
pub proof fn lemma_add_import_idempotent(
    m: Seq<(Seq<char>, Seq<Seq<char>>)>,
    module: Seq<char>,
    name: Seq<char>,
)
    ensures
        spec_add_import(spec_add_import(m, module, name), module, name) == spec_add_import(
            m,
            module,
            name,
        ),
    decreases m.len(),
{
    crate::text::lemma_sorted_insert_idempotent(seq![name], name);
    if m.len() == 0 {
        let r = spec_add_import(m, module, name);
        assert(r[0].0 == module);
        assert(sorted_insert(seq![name], name) == seq![name]);
        assert(spec_add_import(r, module, name) =~= r);
    } else if m[0].0 == module {
        crate::text::lemma_sorted_insert_idempotent(m[0].1, name);
        let r = spec_add_import(m, module, name);
        assert(r[0].0 == module);
        assert(r.drop_first() =~= m.drop_first());
        assert(spec_add_import(r, module, name) =~= r);
    } else if lex_lt(module, m[0].0) {
        let r = seq![(module, seq![name])] + m;
        assert(r[0].0 == module);
        assert(sorted_insert(seq![name], name) == seq![name]);
        assert(r.drop_first() =~= m);
        assert(spec_add_import(r, module, name) =~= r);
    } else {
        lemma_add_import_idempotent(m.drop_first(), module, name);
        let r = seq![m[0]] + spec_add_import(m.drop_first(), module, name);
        assert(spec_add_import(m, module, name) == r);
        assert(r[0] == m[0]);
        assert(r.drop_first() =~= spec_add_import(m.drop_first(), module, name));
        assert(spec_add_import(r, module, name) =~= r);
    }
}

impl FileState {
    /// The accumulated imports: for each module, the names imported from it.
    pub closed spec fn imports_view(&self) -> Seq<(Seq<char>, Seq<Seq<char>>)> {
        Seq::new(
            self.imports@.len(),
            |i: int| (self.imports@[i].module@, self.imports@[i].names.deep_view()),
        )
    }

    pub fn new() -> (r: Self)
        ensures
            r.imports_view() == Seq::<(Seq<char>, Seq<Seq<char>>)>::empty(),
    {
        let r = FileState { imports: Vec::new() };
        proof {
            assert(r.imports_view() =~= Seq::<(Seq<char>, Seq<Seq<char>>)>::empty());
        }
        r
    }

    fn add_import(&mut self, module: &str, name: &str)
        ensures
            final(self).imports_view() == spec_add_import(
                old(self).imports_view(),
                module@,
                name@,
            ),
    {
        let ghost orig = self.imports_view();
        let n = self.imports.len();
        proof {
            assert(orig.len() == n);
            assert(orig.subrange(0, n as int) =~= orig);
            assert(orig.subrange(0, 0) + spec_add_import(
                orig.subrange(0, n as int),
                module@,
                name@,
            ) =~= spec_add_import(orig, module@, name@));
        }
        let mut i: usize = 0;
        while i < n
            invariant
                n == self.imports@.len(),
                orig == self.imports_view(),
                orig == old(self).imports_view(),
                orig.len() == n,
                0 <= i <= n,
                spec_add_import(orig, module@, name@) == orig.subrange(0, i as int)
                    + spec_add_import(orig.subrange(i as int, n as int), module@, name@),
            decreases n - i,
        {
            let ghost rest = orig.subrange(i as int, n as int);
            proof {
                assert(rest[0] == orig[i as int]);
                assert(rest.drop_first() =~= orig.subrange(i + 1, n as int));
                assert(orig[i as int] == (self.imports@[i as int].module@,
                    self.imports@[i as int].names.deep_view()));
            }
            let entry_module_eq = str_eq(self.imports[i].module.as_str(), module);
            if entry_module_eq {
                proof {
                    assert(rest[0].0 == module@);
                    assert(spec_add_import(rest, module@, name@) == seq![
                        (rest[0].0, sorted_insert(rest[0].1, name@)),
                    ] + rest.drop_first());
                }
                let mut entry = self.imports.remove(i);
                vec_sorted_insert(&mut entry.names, name);
                self.imports.insert(i, entry);
                proof {
                    assert(self.imports_view() =~= spec_add_import(orig, module@, name@));
                }
                return;
            }
            if str_lex_lt(module, self.imports[i].module.as_str()) {
                proof {
                    assert(rest[0].0 != module@);
                    assert(lex_lt(module@, rest[0].0));
                    assert(spec_add_import(rest, module@, name@) == seq![
                        (module@, seq![name@]),
                    ] + rest);
                }
                let mut names: Vec<String> = Vec::new();
                crate::text::push_string(&mut names, name);
                proof {
                    assert(names.deep_view() =~= seq![name@]);
                }
                self.imports.insert(i, ImportEntry { module: module.to_owned(), names });
                proof {
                    assert(self.imports_view() =~= spec_add_import(orig, module@, name@));
                }
                return;
            }
            proof {
                assert(rest[0].0 != module@);
                assert(!lex_lt(module@, rest[0].0));
                assert(spec_add_import(rest, module@, name@) == seq![rest[0]]
                    + spec_add_import(rest.drop_first(), module@, name@));
                assert(orig.subrange(0, i + 1) =~= orig.subrange(0, i as int) + seq![
                    orig[i as int],
                ]);
                assert(spec_add_import(orig, module@, name@) =~= orig.subrange(0, i + 1)
                    + spec_add_import(orig.subrange(i + 1, n as int), module@, name@));
            }
            i = i + 1;
        }
        proof {
            assert(orig.subrange(n as int, n as int) =~= Seq::<(
                Seq<char>,
                Seq<Seq<char>>,
            )>::empty());
            assert(spec_add_import(orig.subrange(n as int, n as int), module@, name@) =~= seq![
                (module@, seq![name@]),
            ]);
        }
        let mut names: Vec<String> = Vec::new();
        crate::text::push_string(&mut names, name);
        proof {
            assert(names.deep_view() =~= seq![name@]);
        }
        self.imports.insert(i, ImportEntry { module: module.to_owned(), names });
        proof {
            assert(self.imports_view() =~= spec_add_import(orig, module@, name@));
        }
    }
}

impl Default for FileState {
    fn default() -> (r: Self)
        ensures
            r.imports_view() == Seq::<(Seq<char>, Seq<Seq<char>>)>::empty(),
    {
        FileState::new()
    }
}

/// The Nim spelling of a type reference.
pub open spec fn expr_text(e: Expr) -> Seq<char> {
    match e {
        Expr::Empty => "JsonNode"@,
        Expr::Boolean => "bool"@,
        Expr::Int8 => "int8"@,
        Expr::Uint8 => "uint8"@,
        Expr::Int16 => "int16"@,
        Expr::Uint16 => "uint16"@,
        Expr::Int32 => "int32"@,
        Expr::Uint32 => "uint32"@,
        Expr::Float32 => "float32"@,
        Expr::Float64 => "float64"@,
        Expr::String => "string"@,
        Expr::Timestamp => "uint64"@,
        Expr::ArrayOf(sub) => "seq["@ + sub@ + "]"@,
        Expr::DictOf(sub) => "Table[string, "@ + sub@ + "]"@,
        Expr::NullableOf(sub) => "Option["@ + sub@ + "]"@,
    }
}

/// Every type reference renders to non-empty text.
pub proof fn lemma_expr_text_nonempty(e: Expr)
    ensures
        expr_text(e).len() > 0,
{
    reveal_strlit("JsonNode");
    reveal_strlit("bool");
    reveal_strlit("int8");
    reveal_strlit("uint8");
    reveal_strlit("int16");
    reveal_strlit("uint16");
    reveal_strlit("int32");
    reveal_strlit("uint32");
    reveal_strlit("float32");
    reveal_strlit("float64");
    reveal_strlit("string");
    reveal_strlit("uint64");
    reveal_strlit("seq[");
    reveal_strlit("Table[string, ");
    reveal_strlit("Option[");
}

/// The imports registered by rendering one type reference.
pub open spec fn expr_imports(
    m: Seq<(Seq<char>, Seq<Seq<char>>)>,
    e: Expr,
) -> Seq<(Seq<char>, Seq<Seq<char>>)> {
    match e {
        Expr::Empty => spec_add_import(m, "json"@, "JsonNode"@),
        Expr::DictOf(_) => spec_add_import(m, "tables"@, "Table"@),
        Expr::NullableOf(_) => spec_add_import(m, "options"@, "Option"@),
        _ => m,
    }
}

/// Import idempotence: rendering the same expression twice leaves the same
/// import state as rendering it once.
pub proof fn lemma_expr_imports_idempotent(m: Seq<(Seq<char>, Seq<Seq<char>>)>, e: Expr)
    ensures
        expr_imports(expr_imports(m, e), e) == expr_imports(m, e),
{
    lemma_add_import_idempotent(m, "json"@, "JsonNode"@);
    lemma_add_import_idempotent(m, "tables"@, "Table"@);
    lemma_add_import_idempotent(m, "options"@, "Option"@);
}

pub open spec fn import_lines(m: Seq<(Seq<char>, Seq<Seq<char>>)>, n: int) -> Seq<char>
    decreases n,
{
    if n <= 0 {
        Seq::empty()
    } else {
        import_lines(m, n - 1) + "from "@ + m[n - 1].0 + " import "@ + join_with(
            m[n - 1].1,
            ", "@,
        ) + "\n"@
    }
}

pub open spec fn member_lines(ms: Seq<EnumMember>, n: int) -> Seq<char>
    decreases n,
{
    if n <= 0 {
        Seq::empty()
    } else {
        member_lines(ms, n - 1) + "    "@ + ms[n - 1].name@ + " = "@ + quoted(
            ms[n - 1].json_value@,
        ) + "\n"@
    }
}

pub open spec fn field_lines(fs: Seq<Field>, n: int) -> Seq<char>
    decreases n,
{
    if n <= 0 {
        Seq::empty()
    } else {
        field_lines(fs, n - 1) + "    "@ + fs[n - 1].name@ + "*: "@ + fs[n - 1].type_@ + "\n"@
    }
}

/// The text one declaration contributes to the output file, given the
/// imports accumulated when it is rendered.
pub open spec fn item_text(imports: Seq<(Seq<char>, Seq<Seq<char>>)>, item: Item) -> Seq<char> {
    match item {
        Item::Auxiliary { .. } => Seq::empty(),
        Item::Preamble => "# Code generated by jtd-codegen for Nim v0.1.0\n"@ + "\n"@
            + import_lines(imports, imports.len() as int) + "\n"@,
        Item::Postamble => "\n"@,
        Item::Alias { name, type_, .. } => "\n"@ + "type "@ + name@ + "* = "@ + type_@ + "\n"@,
        Item::Enum { name, members, .. } => "\n"@ + "type "@ + name@ + "* {.pure.} = enum\n"@
            + member_lines(members@, members@.len() as int),
        Item::Struct { name, fields, .. } => "\n"@ + "type "@ + name@ + "* = object\n"@
            + field_lines(fields@, fields@.len() as int),
        Item::Discriminator { .. } => "\n"@,
        Item::DiscriminatorVariant { .. } => "\n"@,
    }
}

/// The Nim backend: renders declarations into one `.nim` file.
pub struct Target {
    filename: String,
    type_naming: KeywordAvoidingInflector<CombiningInflector>,
    field_naming: KeywordAvoidingInflector<TailInflector>,
    enum_member_naming: KeywordAvoidingInflector<TailInflector>,
}

impl Target {
    /// The base name of the output file.
    pub closed spec fn spec_filename(&self) -> Seq<char> {
        self.filename@
    }

    /// The pipeline that names types.
    pub closed spec fn spec_type_naming(&self) -> KeywordAvoidingInflector<CombiningInflector> {
        self.type_naming
    }

    /// The pipeline that names fields.
    pub closed spec fn spec_field_naming(&self) -> KeywordAvoidingInflector<TailInflector> {
        self.field_naming
    }

    /// The pipeline that names enum members.
    pub closed spec fn spec_enum_member_naming(&self) -> KeywordAvoidingInflector<
        TailInflector,
    > {
        self.enum_member_naming
    }

    /// The name given to a fragment sequence, by kind.
    pub open spec fn spec_name(&self, kind: NameableKind, parts: Seq<Seq<char>>) -> Seq<char> {
        match kind {
            NameableKind::Type => self.spec_type_naming().spec_inflect(parts),
            NameableKind::Field => self.spec_field_naming().spec_inflect(parts),
            NameableKind::EnumMember => self.spec_enum_member_naming().spec_inflect(parts),
        }
    }

    pub fn new(filename: String) -> (r: Self)
        ensures
            r.spec_filename() == filename@,
            r.spec_type_naming().spec_keywords() == keyword_seq(),
            r.spec_type_naming().spec_inner().spec_case() == Case::PascalCase,
            r.spec_field_naming().spec_keywords() == keyword_seq(),
            r.spec_field_naming().spec_inner().spec_case() == Case::SnakeCase,
            r.spec_enum_member_naming().spec_keywords() == keyword_seq(),
            r.spec_enum_member_naming().spec_inner().spec_case() == Case::ScreamingSnakeCase,
    {
        Target {
            filename,
            type_naming: KeywordAvoidingInflector::new(
                keywords(),
                CombiningInflector::new(Case::PascalCase),
            ),
            field_naming: KeywordAvoidingInflector::new(
                keywords(),
                TailInflector::new(Case::SnakeCase),
            ),
            enum_member_naming: KeywordAvoidingInflector::new(
                keywords(),
                TailInflector::new(Case::ScreamingSnakeCase),
            ),
        }
    }

    pub fn strategy(&self) -> (r: Strategy)
        ensures
            r.file_partitioning is SingleFile,
            (r.file_partitioning->SingleFile_0)@ == self.spec_filename() + ".nim"@,
            r.enum_member_naming is Modularized,
            r.optional_property_handling is WrapWithNullable,
            !r.booleans_are_nullable,
            !r.int8s_are_nullable,
            !r.uint8s_are_nullable,
            !r.int16s_are_nullable,
            !r.uint16s_are_nullable,
            !r.int32s_are_nullable,
            !r.uint32s_are_nullable,
            !r.float32s_are_nullable,
            !r.float64s_are_nullable,
            !r.strings_are_nullable,
            !r.timestamps_are_nullable,
            !r.arrays_are_nullable,
            !r.dicts_are_nullable,
            !r.aliases_are_nullable,
            !r.enums_are_nullable,
            !r.structs_are_nullable,
            !r.discriminators_are_nullable,
    {
        let mut f = self.filename.clone();
        f.append(".nim");
        Strategy {
            file_partitioning: FilePartitioningStrategy::SingleFile(f),
            enum_member_naming: EnumMemberNamingStrategy::Modularized,
            optional_property_handling: OptionalPropertyHandlingStrategy::WrapWithNullable,
            booleans_are_nullable: false,
            int8s_are_nullable: false,
            uint8s_are_nullable: false,
            int16s_are_nullable: false,
            uint16s_are_nullable: false,
            int32s_are_nullable: false,
            uint32s_are_nullable: false,
            float32s_are_nullable: false,
            float64s_are_nullable: false,
            strings_are_nullable: false,
            timestamps_are_nullable: false,
            arrays_are_nullable: false,
            dicts_are_nullable: false,
            aliases_are_nullable: false,
            enums_are_nullable: false,
            structs_are_nullable: false,
            discriminators_are_nullable: false,
        }
    }

    /// Names a schema path; the driver never asks with zero fragments.
    pub fn name(&self, kind: NameableKind, parts: &[String]) -> (r: String)
        requires
            parts@.len() > 0,
        ensures
            r@ == self.spec_name(kind, parts.deep_view()),
    {
        proof {
            assert(parts.deep_view().len() == parts@.len());
        }
        match kind {
            NameableKind::Type => self.type_naming.inflect(parts),
            NameableKind::Field => self.field_naming.inflect(parts),
            NameableKind::EnumMember => self.enum_member_naming.inflect(parts),
        }
    }

    /// Renders a type reference and registers any import it needs.
    pub fn expr(&self, state: &mut FileState, metadata: Metadata, expr: Expr) -> (r: String)
        ensures
            r@ == expr_text(expr),
            final(state).imports_view() == expr_imports(old(state).imports_view(), expr),
    {
        match expr {
            Expr::Empty => {
                state.add_import("json", "JsonNode");
                String::from_str("JsonNode")
            },
            Expr::Boolean => String::from_str("bool"),
            Expr::Int8 => String::from_str("int8"),
            Expr::Uint8 => String::from_str("uint8"),
            Expr::Int16 => String::from_str("int16"),
            Expr::Uint16 => String::from_str("uint16"),
            Expr::Int32 => String::from_str("int32"),
            Expr::Uint32 => String::from_str("uint32"),
            Expr::Float32 => String::from_str("float32"),
            Expr::Float64 => String::from_str("float64"),
            Expr::String => String::from_str("string"),
            Expr::Timestamp => String::from_str("uint64"),
            Expr::ArrayOf(sub) => {
                let mut r = String::from_str("seq[");
                r.append(sub.as_str());
                r.append("]");
                proof {
                    assert(r@ =~= "seq["@ + sub@ + "]"@);
                }
                r
            },
            Expr::DictOf(sub) => {
                state.add_import("tables", "Table");
                let mut r = String::from_str("Table[string, ");
                r.append(sub.as_str());
                r.append("]");
                proof {
                    assert(r@ =~= "Table[string, "@ + sub@ + "]"@);
                }
                r
            },
            Expr::NullableOf(sub) => {
                state.add_import("options", "Option");
                let mut r = String::from_str("Option[");
                r.append(sub.as_str());
                r.append("]");
                proof {
                    assert(r@ =~= "Option["@ + sub@ + "]"@);
                }
                r
            },
        }
    }

    /// Appends the rendering of one declaration to `out`.  Only reads the
    /// accumulated imports; single-file backends export no names.
    pub fn item(&self, out: &mut String, state: &mut FileState, item: Item) -> (r: Option<
        String,
    >)
        ensures
            final(out)@ == old(out)@ + item_text(old(state).imports_view(), item),
            *final(state) == *old(state),
            r is None,
    {
        match item {
            Item::Auxiliary { .. } => {
                proof {
                    assert(out@ =~= old(out)@ + item_text(old(state).imports_view(), item));
                }
                None
            },
            Item::Preamble => {
                out.append("# Code generated by jtd-codegen for Nim v0.1.0\n");
                out.append("\n");
                let ghost mv = state.imports_view();
                let ghost base = out@;
                let n = state.imports.len();
                proof {
                    assert(mv.len() == n);
                }
                let mut i: usize = 0;
                while i < n
                    invariant
                        n == state.imports@.len(),
                        *state == *old(state),
                        mv == state.imports_view(),
                        mv.len() == n,
                        0 <= i <= n,
                        out@ == base + import_lines(mv, i as int),
                        base == old(out)@
                            + "# Code generated by jtd-codegen for Nim v0.1.0\n"@ + "\n"@,
                    decreases n - i,
                {
                    proof {
                        assert(mv[i as int] == (state.imports@[i as int].module@,
                            state.imports@[i as int].names.deep_view()));
                    }
                    out.append("from ");
                    out.append(state.imports[i].module.as_str());
                    out.append(" import ");
                    let joined = join_strings(&state.imports[i].names, ", ");
                    out.append(joined.as_str());
                    out.append("\n");
                    proof {
                        assert(out@ =~= base + import_lines(mv, i + 1));
                    }
                    i = i + 1;
                }
                out.append("\n");
                proof {
                    assert(out@ =~= old(out)@ + item_text(old(state).imports_view(), item));
                }
                None
            },
            Item::Postamble => {
                out.append("\n");
                None
            },
            Item::Alias { metadata: _, name, type_ } => {
                out.append("\n");
                out.append("type ");
                out.append(name.as_str());
                out.append("* = ");
                out.append(type_.as_str());
                out.append("\n");
                proof {
                    assert(out@ =~= old(out)@ + ("\n"@ + "type "@ + name@ + "* = "@ + type_@
                        + "\n"@));
                }
                None
            },
            Item::Enum { metadata: _, name, members } => {
                out.append("\n");
                out.append("type ");
                out.append(name.as_str());
                out.append("* {.pure.} = enum\n");
                let ghost ms = members@;
                let ghost base = out@;
                let n = members.len();
                let mut i: usize = 0;
                while i < n
                    invariant
                        n == members@.len(),
                        ms == members@,
                        *state == *old(state),
                        0 <= i <= n,
                        out@ == base + member_lines(ms, i as int),
                    decreases n - i,
                {
                    out.append("    ");
                    out.append(members[i].name.as_str());
                    out.append(" = ");
                    push_quoted(members[i].json_value.as_str(), out);
                    out.append("\n");
                    proof {
                        assert(out@ =~= base + member_lines(ms, i + 1));
                    }
                    i = i + 1;
                }
                proof {
                    assert(out@ =~= old(out)@ + item_text(old(state).imports_view(), item));
                }
                None
            },
            Item::Struct { metadata: _, name, has_additional: _, fields } => {
                out.append("\n");
                out.append("type ");
                out.append(name.as_str());
                out.append("* = object\n");
                let ghost fs = fields@;
                let ghost base = out@;
                let n = fields.len();
                let mut i: usize = 0;
                while i < n
                    invariant
                        n == fields@.len(),
                        fs == fields@,
                        *state == *old(state),
                        0 <= i <= n,
                        out@ == base + field_lines(fs, i as int),
                    decreases n - i,
                {
                    out.append("    ");
                    out.append(fields[i].name.as_str());
                    out.append("*: ");
                    out.append(fields[i].type_.as_str());
                    out.append("\n");
                    proof {
                        assert(out@ =~= base + field_lines(fs, i + 1));
                    }
                    i = i + 1;
                }
                proof {
                    assert(out@ =~= old(out)@ + item_text(old(state).imports_view(), item));
                }
                None
            },
            Item::Discriminator { .. } => {
                out.append("\n");
                None
            },
            Item::DiscriminatorVariant { .. } => {
                out.append("\n");
                None
            },
        }
    }
}

/// Naming is referentially consistent: for one kind and one fragment
/// sequence, any two results of `name` agree.
pub proof fn lemma_name_deterministic(
    t: &Target,
    kind: NameableKind,
    parts: Seq<Seq<char>>,
    r1: Seq<char>,
    r2: Seq<char>,
)
    requires
        r1 == t.spec_name(kind, parts),
        r2 == t.spec_name(kind, parts),
    ensures
        r1 == r2,
{
}

} // verus!
