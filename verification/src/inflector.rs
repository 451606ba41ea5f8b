//! The naming pipeline: case transforms and the two fragment inflectors.
//!
//! An inflector turns an ordered sequence of identifier fragments into one
//! name string.  The combining inflector joins every fragment before the case
//! transform; the tail inflector applies it to the last fragment alone.

use vstd::prelude::*;
use vstd::string::StringExecFns;

verus! {

/// What inflector's to_snake_case returns, as a function of the characters.
pub uninterp spec fn snake_of(s: Seq<char>) -> Seq<char>;

/// What inflector's to_camel_case returns, as a function of the characters.
pub uninterp spec fn camel_of(s: Seq<char>) -> Seq<char>;

/// What inflector's to_pascal_case returns, as a function of the characters.
pub uninterp spec fn pascal_of(s: Seq<char>) -> Seq<char>;

/// What inflector's to_screaming_snake_case returns, as a function of the
/// characters.
pub uninterp spec fn screaming_snake_of(s: Seq<char>) -> Seq<char>;

/// Relies on inflector's cases::snakecase::to_snake_case: the result depends
/// on the input characters alone, and an empty input gives an empty result.
#[verifier::external_body]
fn to_snake(s: &str) -> (r: String)
    ensures
        r@ == snake_of(s@),
        s@.len() == 0 ==> r@.len() == 0,
{
    inflector::cases::snakecase::to_snake_case(s)
}

/// Relies on inflector's cases::camelcase::to_camel_case: the result depends
/// on the input characters alone, and an empty input gives an empty result.
#[verifier::external_body]
fn to_camel(s: &str) -> (r: String)
    ensures
        r@ == camel_of(s@),
        s@.len() == 0 ==> r@.len() == 0,
{
    inflector::cases::camelcase::to_camel_case(s)
}

/// Relies on inflector's cases::pascalcase::to_pascal_case: the result depends
/// on the input characters alone, and an empty input gives an empty result.
#[verifier::external_body]
fn to_pascal(s: &str) -> (r: String)
    ensures
        r@ == pascal_of(s@),
        s@.len() == 0 ==> r@.len() == 0,
{
    inflector::cases::pascalcase::to_pascal_case(s)
}

/// Relies on inflector's cases::screamingsnakecase::to_screaming_snake_case:
/// the result depends on the input characters alone, and an empty input gives
/// an empty result.
#[verifier::external_body]
fn to_screaming_snake(s: &str) -> (r: String)
    ensures
        r@ == screaming_snake_of(s@),
        s@.len() == 0 ==> r@.len() == 0,
{
    inflector::cases::screamingsnakecase::to_screaming_snake_case(s)
}

/// The case conventions a target can ask for.
pub enum Case {
    SnakeCase,
    CamelCase,
    PascalCase,
    ScreamingSnakeCase,
}

/// The case transform selected by `case`, applied to `s`.
pub open spec fn case_of(case: Case, s: Seq<char>) -> Seq<char> {
    match case {
        Case::SnakeCase => snake_of(s),
        Case::CamelCase => camel_of(s),
        Case::PascalCase => pascal_of(s),
        Case::ScreamingSnakeCase => screaming_snake_of(s),
    }
}

impl Case {
    fn to_case(&self, s: &str) -> (r: String)
        ensures
            r@ == case_of(*self, s@),
    {
        match self {
            Case::SnakeCase => to_snake(s),
            Case::CamelCase => to_camel(s),
            Case::PascalCase => to_pascal(s),
            Case::ScreamingSnakeCase => to_screaming_snake(s),
        }
    }
}

/// The capability "fragments to name string".
pub trait Inflector {
    /// The fragment sequences this inflector is defined on.
    spec fn accepts(&self, parts: Seq<Seq<char>>) -> bool;

    /// The name this inflector gives to a fragment sequence.
    spec fn spec_inflect(&self, parts: Seq<Seq<char>>) -> Seq<char>;

    /// Turns the fragments into one name string.
    fn inflect(&self, name_parts: &[String]) -> (r: String)
        requires
            self.accepts(name_parts.deep_view()),
        ensures
            r@ == self.spec_inflect(name_parts.deep_view()),
    ;
}

/// The fragments joined by single underscores, in order.
pub open spec fn join_underscore(parts: Seq<Seq<char>>) -> Seq<char>
    decreases parts.len(),
{
    if parts.len() == 0 {
        Seq::empty()
    } else if parts.len() == 1 {
        parts[0]
    } else {
        join_underscore(parts.drop_last()) + seq!['_'] + parts.last()
    }
}

fn join_parts(name_parts: &[String]) -> (r: String)
    ensures
        r@ == join_underscore(name_parts.deep_view()),
{
    let ghost dv = name_parts.deep_view();
    let mut r = String::new();
    let n = name_parts.len();
    proof {
        assert(dv.len() == n);
        assert(dv.subrange(0, 0) =~= Seq::<Seq<char>>::empty());
    }
    let mut i: usize = 0;
    while i < n
        invariant
            n == dv.len(),
            dv == name_parts.deep_view(),
            0 <= i <= n,
            r@ == join_underscore(dv.subrange(0, i as int)),
        decreases n - i,
    {
        if i > 0 {
            r.append("_");
        }
        let part: &String = &name_parts[i];
        r.append(part.as_str());
        proof {
            reveal_strlit("_");
            crate::text::lemma_subrange_step(dv, i as int);
            assert(dv[i as int] == part@);
            if i == 0 {
                assert(dv.subrange(0, 1)[0] == dv[0]);
                assert(r@ =~= join_underscore(dv.subrange(0, 1)));
            } else {
                assert(r@ =~= join_underscore(dv.subrange(0, i + 1)));
            }
        }
        i = i + 1;
    }
    proof {
        assert(dv.subrange(0, n as int) =~= dv);
    }
    r
}

/// Joins all fragments with underscores, then case-transforms the whole.
pub struct CombiningInflector {
    case: Case,
}

impl CombiningInflector {
    /// The case transform this inflector was built with.
    pub closed spec fn spec_case(&self) -> Case {
        self.case
    }

    pub fn new(case: Case) -> (r: Self)
        ensures
            r.spec_case() == case,
    {
        Self { case }
    }
}

impl Inflector for CombiningInflector {
    open spec fn accepts(&self, parts: Seq<Seq<char>>) -> bool {
        true
    }

    open spec fn spec_inflect(&self, parts: Seq<Seq<char>>) -> Seq<char> {
        case_of(self.spec_case(), join_underscore(parts))
    }

    fn inflect(&self, name_parts: &[String]) -> (r: String) {
        let joined = join_parts(name_parts);
        self.case.to_case(joined.as_str())
    }
}

/// Case-transforms the last fragment, discarding earlier path context.
pub struct TailInflector {
    case: Case,
}

impl TailInflector {
    /// The case transform this inflector was built with.
    pub closed spec fn spec_case(&self) -> Case {
        self.case
    }

    pub fn new(case: Case) -> (r: Self)
        ensures
            r.spec_case() == case,
    {
        Self { case }
    }
}

impl Inflector for TailInflector {
    open spec fn accepts(&self, parts: Seq<Seq<char>>) -> bool {
        parts.len() > 0
    }

    open spec fn spec_inflect(&self, parts: Seq<Seq<char>>) -> Seq<char> {
        case_of(self.spec_case(), parts.last())
    }

    fn inflect(&self, name_parts: &[String]) -> (r: String) {
        let n = name_parts.len();
        proof {
            assert(name_parts.deep_view().len() == n);
        }
        let last: &String = &name_parts[n - 1];
        proof {
            assert(name_parts.deep_view().last() == last@);
        }
        self.case.to_case(last.as_str())
    }
}

/// A tail inflector's name depends on the last fragment's spelling alone.
pub proof fn lemma_tail_uses_last(t: &TailInflector, p1: Seq<Seq<char>>, p2: Seq<Seq<char>>)
    requires
        p1.len() > 0,
        p2.len() > 0,
        p1.last() == p2.last(),
    ensures
        t.spec_inflect(p1) == t.spec_inflect(p2),
{
}

/// The position in the joined name at which fragment `i` begins.
pub open spec fn join_offset(parts: Seq<Seq<char>>, i: int) -> int
    decreases i,
{
    if i <= 0 {
        0
    } else {
        join_offset(parts, i - 1) + parts[i - 1].len() + 1
    }
}

proof fn lemma_join_offset_prefix(p1: Seq<Seq<char>>, p2: Seq<Seq<char>>, i: int)
    requires
        0 <= i,
        i <= p1.len(),
        i <= p2.len(),
        forall|j: int| 0 <= j < i ==> p1[j] == p2[j],
    ensures
        join_offset(p1, i) == join_offset(p2, i),
    decreases i,
{
    if i > 0 {
        lemma_join_offset_prefix(p1, p2, i - 1);
    }
}

proof fn lemma_join_len(parts: Seq<Seq<char>>)
    requires
        parts.len() > 0,
    ensures
        join_underscore(parts).len() == join_offset(parts, parts.len() - 1)
            + parts.last().len(),
    decreases parts.len(),
{
    if parts.len() > 1 {
        let front = parts.drop_last();
        lemma_join_len(front);
        lemma_join_offset_prefix(front, parts, parts.len() - 2);
    }
}

/// The combining inflector's input embeds every fragment, in order: fragment
/// `i` appears verbatim at `join_offset(parts, i)` of the underscore join.
pub proof fn lemma_join_embeds_fragment(parts: Seq<Seq<char>>, i: int)
    requires
        0 <= i < parts.len(),
    ensures
        0 <= join_offset(parts, i),
        join_offset(parts, i) + parts[i].len() <= join_underscore(parts).len(),
        join_underscore(parts).subrange(
            join_offset(parts, i),
            join_offset(parts, i) + parts[i].len(),
        ) =~= parts[i],
    decreases parts.len(),
{
    lemma_join_offset_nonneg(parts, i);
    lemma_join_len(parts);
    if i == parts.len() - 1 {
        if parts.len() == 1 {
            assert(join_underscore(parts).subrange(0, parts[0].len() as int) =~= parts[0]);
        } else {
            let front = parts.drop_last();
            lemma_join_len(front);
            lemma_join_offset_prefix(front, parts, parts.len() - 2);
            assert(join_underscore(parts) == join_underscore(front) + seq!['_']
                + parts.last());
        }
    } else {
        let front = parts.drop_last();
        lemma_join_embeds_fragment(front, i);
        lemma_join_offset_prefix(front, parts, i);
        assert(join_underscore(parts) == join_underscore(front) + seq!['_'] + parts.last());
        assert(join_underscore(front).subrange(
            join_offset(front, i),
            join_offset(front, i) + front[i].len(),
        ) =~= front[i]);
        assert(join_underscore(parts).subrange(
            join_offset(parts, i),
            join_offset(parts, i) + parts[i].len(),
        ) =~= parts[i]);
    }
}

proof fn lemma_join_offset_nonneg(parts: Seq<Seq<char>>, i: int)
    requires
        i < parts.len(),
    ensures
        0 <= join_offset(parts, i),
    decreases i,
{
    if i > 0 {
        lemma_join_offset_nonneg(parts, i - 1);
    }
}

} // verus!
