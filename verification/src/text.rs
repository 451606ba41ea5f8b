//! Small verified utilities on character sequences and strings: lexicographic
//! order, membership and prefix tests, decimal rendering, and quoting.

use vstd::prelude::*;
use vstd::string::StrSliceExecFns;
use vstd::string::StringExecFns;

verus! {

/// Strict lexicographic order on character sequences, by Unicode scalar value.
pub open spec fn lex_lt(a: Seq<char>, b: Seq<char>) -> bool
    decreases a.len(),
{
    if b.len() == 0 {
        false
    } else if a.len() == 0 {
        true
    } else if a[0] == b[0] {
        lex_lt(a.drop_first(), b.drop_first())
    } else {
        a[0] < b[0]
    }
}

/// When two sequences agree up to position `i` and differ there, the
/// lexicographic order is decided by the characters at `i`.
pub proof fn lemma_lex_lt_at(a: Seq<char>, b: Seq<char>, i: int)
    requires
        0 <= i < a.len(),
        i < b.len(),
        forall|j: int| 0 <= j < i ==> a[j] == b[j],
        a[i] != b[i],
    ensures
        lex_lt(a, b) <==> a[i] < b[i],
    decreases i,
{
    if i == 0 {
    } else {
        let a1 = a.drop_first();
        let b1 = b.drop_first();
        assert(forall|j: int| 0 <= j < i - 1 ==> a1[j] == b1[j]);
        lemma_lex_lt_at(a1, b1, i - 1);
    }
}

/// When one sequence is a prefix of the other, the shorter one comes first.
pub proof fn lemma_lex_lt_prefix(a: Seq<char>, b: Seq<char>, i: int)
    requires
        0 <= i,
        i == a.len() || i == b.len(),
        i <= a.len(),
        i <= b.len(),
        forall|j: int| 0 <= j < i ==> a[j] == b[j],
    ensures
        lex_lt(a, b) <==> a.len() < b.len(),
    decreases i,
{
    if i == 0 {
    } else {
        let a1 = a.drop_first();
        let b1 = b.drop_first();
        assert(forall|j: int| 0 <= j < i - 1 ==> a1[j] == b1[j]);
        lemma_lex_lt_prefix(a1, b1, i - 1);
    }
}

/// Decides `lex_lt` on two strings.
pub fn str_lex_lt(a: &str, b: &str) -> (r: bool)
    ensures
        r == lex_lt(a@, b@),
{
    let la = a.unicode_len();
    let lb = b.unicode_len();
    let mut i: usize = 0;
    while i < la && i < lb
        invariant
            la == a@.len(),
            lb == b@.len(),
            0 <= i <= la,
            i <= lb,
            forall|j: int| 0 <= j < i ==> a@[j] == b@[j],
        decreases la - i,
    {
        let ca = a.get_char(i);
        let cb = b.get_char(i);
        if ca != cb {
            proof {
                lemma_lex_lt_at(a@, b@, i as int);
            }
            return ca < cb;
        }
        i = i + 1;
    }
    proof {
        lemma_lex_lt_prefix(a@, b@, i as int);
    }
    la < lb
}

/// Decides view equality of two strings.
pub fn str_eq(a: &str, b: &str) -> (r: bool)
    ensures
        r == (a@ == b@),
{
    let la = a.unicode_len();
    let lb = b.unicode_len();
    if la != lb {
        return false;
    }
    let mut i: usize = 0;
    while i < la
        invariant
            la == a@.len(),
            lb == b@.len(),
            la == lb,
            0 <= i <= la,
            forall|j: int| 0 <= j < i ==> a@[j] == b@[j],
        decreases la - i,
    {
        if a.get_char(i) != b.get_char(i) {
            return false;
        }
        i = i + 1;
    }
    proof {
        assert(a@ =~= b@);
    }
    true
}

/// Whether `c` occurs in `s`.
pub fn str_contains_char(s: &str, c: char) -> (r: bool)
    ensures
        r == s@.contains(c),
{
    let n = s.unicode_len();
    let mut i: usize = 0;
    while i < n
        invariant
            n == s@.len(),
            0 <= i <= n,
            forall|j: int| 0 <= j < i ==> s@[j] != c,
        decreases n - i,
    {
        if s.get_char(i) == c {
            assert(s@[i as int] == c);
            return true;
        }
        i = i + 1;
    }
    assert(!s@.contains(c));
    false
}

/// Whether `p` is a prefix of `s`.
pub fn str_starts_with(s: &str, p: &str) -> (r: bool)
    ensures
        r == p@.is_prefix_of(s@),
{
    let ls = s.unicode_len();
    let lp = p.unicode_len();
    if ls < lp {
        return false;
    }
    let mut i: usize = 0;
    while i < lp
        invariant
            ls == s@.len(),
            lp == p@.len(),
            lp <= ls,
            0 <= i <= lp,
            forall|j: int| 0 <= j < i ==> s@[j] == p@[j],
        decreases lp - i,
    {
        if s.get_char(i) != p.get_char(i) {
            proof {
                assert(s@.subrange(0, lp as int)[i as int] == s@[i as int]);
                assert(p@ != s@.subrange(0, lp as int));
            }
            return false;
        }
        i = i + 1;
    }
    assert(p@.is_prefix_of(s@)) by {
        assert(p@ =~= s@.subrange(0, lp as int));
    }
    true
}

/// Whether every character of `s` is a decimal digit.
pub open spec fn all_digits(s: Seq<char>) -> bool {
    forall|i: int| 0 <= i < s.len() ==> '0' <= #[trigger] s[i] <= '9'
}

/// Decides `all_digits` on a string.
pub fn str_all_digits(s: &str) -> (r: bool)
    ensures
        r == all_digits(s@),
{
    let n = s.unicode_len();
    let mut i: usize = 0;
    while i < n
        invariant
            n == s@.len(),
            0 <= i <= n,
            forall|j: int| 0 <= j < i ==> '0' <= #[trigger] s@[j] <= '9',
        decreases n - i,
    {
        let c = s.get_char(i);
        if c < '0' || c > '9' {
            assert(!all_digits(s@)) by {
                assert(!('0' <= s@[i as int] <= '9'));
            }
            return false;
        }
        i = i + 1;
    }
    true
}

/// The decimal digit character for a value below ten.
pub open spec fn digit_char(d: nat) -> char {
    if d == 0 {
        '0'
    } else if d == 1 {
        '1'
    } else if d == 2 {
        '2'
    } else if d == 3 {
        '3'
    } else if d == 4 {
        '4'
    } else if d == 5 {
        '5'
    } else if d == 6 {
        '6'
    } else if d == 7 {
        '7'
    } else if d == 8 {
        '8'
    } else {
        '9'
    }
}

/// The decimal rendering of a natural number, most significant digit first.
pub open spec fn dec_str(n: nat) -> Seq<char>
    decreases n,
{
    if n < 10 {
        seq![digit_char(n)]
    } else {
        dec_str(n / 10).push(digit_char(n % 10))
    }
}

/// Appends the decimal rendering of `n` to `out`.
pub fn push_dec(n: usize, out: &mut String)
    ensures
        final(out)@ == old(out)@ + dec_str(n as nat),
    decreases n,
{
    if n >= 10 {
        push_dec(n / 10, out);
    }
    let d = n % 10;
    let ds: &str = if d == 0 {
        "0"
    } else if d == 1 {
        "1"
    } else if d == 2 {
        "2"
    } else if d == 3 {
        "3"
    } else if d == 4 {
        "4"
    } else if d == 5 {
        "5"
    } else if d == 6 {
        "6"
    } else if d == 7 {
        "7"
    } else if d == 8 {
        "8"
    } else {
        "9"
    };
    proof {
        reveal_strlit("0");
        reveal_strlit("1");
        reveal_strlit("2");
        reveal_strlit("3");
        reveal_strlit("4");
        reveal_strlit("5");
        reveal_strlit("6");
        reveal_strlit("7");
        reveal_strlit("8");
        reveal_strlit("9");
        assert(ds@ =~= seq![digit_char((n % 10) as nat)]);
    }
    out.append(ds);
    proof {
        assert(out@ =~= old(out)@ + dec_str(n as nat));
    }
}

/// The decimal rendering of `n` as a fresh string.
pub fn dec_string(n: usize) -> (r: String)
    ensures
        r@ == dec_str(n as nat),
{
    let mut r = String::new();
    push_dec(n, &mut r);
    proof {
        assert(r@ =~= dec_str(n as nat));
    }
    r
}

/// Whether `s` occurs in `v`.
pub fn contains_string(v: &Vec<String>, s: &str) -> (r: bool)
    ensures
        r == v.deep_view().contains(s@),
{
    let n = v.len();
    let mut i: usize = 0;
    while i < n
        invariant
            n == v@.len(),
            0 <= i <= n,
            forall|j: int| 0 <= j < i ==> v.deep_view()[j] != s@,
        decreases n - i,
    {
        if str_eq(v[i].as_str(), s) {
            proof {
                assert(v.deep_view()[i as int] == s@);
            }
            return true;
        }
        i = i + 1;
    }
    proof {
        assert(!v.deep_view().contains(s@));
    }
    false
}

/// Appends an owned copy of `s` to the vector.
pub fn push_string(v: &mut Vec<String>, s: &str)
    ensures
        final(v).deep_view() == old(v).deep_view().push(s@),
{
    v.push(s.to_owned());
    proof {
        assert(v.deep_view() =~= old(v).deep_view().push(s@));
    }
}

/// Relies on String::push: appends exactly the given character.
#[verifier::external_body]
pub fn push_char(out: &mut String, c: char)
    ensures
        final(out)@ == old(out)@ + seq![c],
{
    out.push(c);
}

/// The parts joined by the separator, in order.
pub open spec fn join_with(parts: Seq<Seq<char>>, sep: Seq<char>) -> Seq<char>
    decreases parts.len(),
{
    if parts.len() == 0 {
        Seq::empty()
    } else if parts.len() == 1 {
        parts[0]
    } else {
        join_with(parts.drop_last(), sep) + sep + parts.last()
    }
}

/// Joins the strings with the separator.
pub fn join_strings(parts: &Vec<String>, sep: &str) -> (r: String)
    ensures
        r@ == join_with(parts.deep_view(), sep@),
{
    let ghost dv = parts.deep_view();
    let mut r = String::new();
    let n = parts.len();
    proof {
        assert(dv.len() == n);
        assert(dv.subrange(0, 0) =~= Seq::<Seq<char>>::empty());
    }
    let mut i: usize = 0;
    while i < n
        invariant
            n == dv.len(),
            dv == parts.deep_view(),
            0 <= i <= n,
            r@ == join_with(dv.subrange(0, i as int), sep@),
        decreases n - i,
    {
        if i > 0 {
            r.append(sep);
        }
        r.append(parts[i].as_str());
        proof {
            lemma_subrange_step(dv, i as int);
            assert(dv[i as int] == parts@[i as int]@);
            if i == 0 {
                assert(dv.subrange(0, 1)[0] == dv[0]);
                assert(r@ =~= join_with(dv.subrange(0, 1), sep@));
            } else {
                assert(r@ =~= join_with(dv.subrange(0, i + 1), sep@));
            }
        }
        i = i + 1;
    }
    proof {
        assert(dv.subrange(0, n as int) =~= dv);
    }
    r
}

/// The escape for one character inside a quoted string.
pub open spec fn escape_char(c: char) -> Seq<char> {
    if c == '"' {
        "\\\""@
    } else if c == '\\' {
        "\\\\"@
    } else if c == '\n' {
        "\\n"@
    } else if c == '\r' {
        "\\r"@
    } else if c == '\t' {
        "\\t"@
    } else {
        seq![c]
    }
}

pub open spec fn escaped(s: Seq<char>) -> Seq<char>
    decreases s.len(),
{
    if s.len() == 0 {
        Seq::empty()
    } else {
        escaped(s.drop_last()) + escape_char(s.last())
    }
}

/// The string wrapped in double quotes, with quotes, backslashes and common
/// control characters escaped.
pub open spec fn quoted(s: Seq<char>) -> Seq<char> {
    seq!['"'] + escaped(s) + seq!['"']
}

/// Appends `quoted(s@)` to `out`.
pub fn push_quoted(s: &str, out: &mut String)
    ensures
        final(out)@ == old(out)@ + quoted(s@),
{
    push_char(out, '"');
    let n = s.unicode_len();
    proof {
        assert(s@.subrange(0, 0) =~= Seq::<char>::empty());
    }
    let mut i: usize = 0;
    while i < n
        invariant
            n == s@.len(),
            0 <= i <= n,
            out@ == old(out)@ + seq!['"'] + escaped(s@.subrange(0, i as int)),
        decreases n - i,
    {
        let c = s.get_char(i);
        if c == '"' {
            out.append("\\\"");
            proof {
                reveal_strlit("\\\"");
            }
        } else if c == '\\' {
            out.append("\\\\");
            proof {
                reveal_strlit("\\\\");
            }
        } else if c == '\n' {
            out.append("\\n");
            proof {
                reveal_strlit("\\n");
            }
        } else if c == '\r' {
            out.append("\\r");
            proof {
                reveal_strlit("\\r");
            }
        } else if c == '\t' {
            out.append("\\t");
            proof {
                reveal_strlit("\\t");
            }
        } else {
            push_char(out, c);
        }
        proof {
            lemma_subrange_step(s@, i as int);
            assert(out@ =~= old(out)@ + seq!['"'] + escaped(s@.subrange(0, i + 1)));
        }
        i = i + 1;
    }
    push_char(out, '"');
    proof {
        assert(s@.subrange(0, n as int) =~= s@);
        assert(out@ =~= old(out)@ + quoted(s@));
    }
}

/// Inserts `x` into a sorted, duplicate-free sequence, keeping it so; an
/// element already present leaves the sequence unchanged.
pub open spec fn sorted_insert(s: Seq<Seq<char>>, x: Seq<char>) -> Seq<Seq<char>>
    decreases s.len(),
{
    if s.len() == 0 {
        seq![x]
    } else if s[0] == x {
        s
    } else if lex_lt(x, s[0]) {
        seq![x] + s
    } else {
        seq![s[0]] + sorted_insert(s.drop_first(), x)
    }
}

/// Inserting the same element twice is the same as inserting it once.
pub proof fn lemma_sorted_insert_idempotent(s: Seq<Seq<char>>, x: Seq<char>)
    ensures
        sorted_insert(sorted_insert(s, x), x) == sorted_insert(s, x),
    decreases s.len(),
{
    if s.len() == 0 {
        assert(sorted_insert(s, x)[0] == x);
        assert(sorted_insert(sorted_insert(s, x), x) =~= sorted_insert(s, x));
    } else if s[0] == x {
    } else if lex_lt(x, s[0]) {
        let t = seq![x] + s;
        assert(t[0] == x);
        assert(sorted_insert(t, x) =~= t);
    } else {
        lemma_sorted_insert_idempotent(s.drop_first(), x);
        let t = seq![s[0]] + sorted_insert(s.drop_first(), x);
        assert(sorted_insert(s, x) == t);
        assert(t[0] == s[0]);
        if t[0] == x {
            assert(false);
        } else if lex_lt(x, t[0]) {
            assert(false);
        } else {
            assert(t.drop_first() =~= sorted_insert(s.drop_first(), x));
            assert(sorted_insert(t, x) =~= seq![s[0]] + sorted_insert(t.drop_first(), x));
            assert(sorted_insert(t, x) =~= t);
        }
    }
}

/// Inserts `s` into a vector kept in `sorted_insert` discipline.
pub fn vec_sorted_insert(v: &mut Vec<String>, s: &str)
    ensures
        final(v).deep_view() == sorted_insert(old(v).deep_view(), s@),
{
    let ghost orig = v.deep_view();
    let n = v.len();
    proof {
        assert(orig.len() == n);
        assert(orig.subrange(0, n as int) =~= orig);
        assert(orig.subrange(0, 0) + sorted_insert(orig.subrange(0, n as int), s@)
            =~= sorted_insert(orig, s@));
    }
    let mut i: usize = 0;
    while i < n
        invariant
            n == v@.len(),
            orig == v.deep_view(),
            orig == old(v).deep_view(),
            orig.len() == n,
            0 <= i <= n,
            sorted_insert(orig, s@) == orig.subrange(0, i as int) + sorted_insert(
                orig.subrange(i as int, n as int),
                s@,
            ),
        decreases n - i,
    {
        let ghost rest = orig.subrange(i as int, n as int);
        proof {
            assert(rest[0] == orig[i as int]);
            assert(rest.drop_first() =~= orig.subrange(i + 1, n as int));
        }
        if str_eq(v[i].as_str(), s) {
            proof {
                assert(v.deep_view()[i as int] == v@[i as int]@);
                assert(orig[i as int] == s@);
                assert(sorted_insert(rest, s@) == rest);
                assert(orig.subrange(0, i as int) + rest =~= orig);
                assert(sorted_insert(orig, s@) == orig);
            }
            return;
        }
        if str_lex_lt(s, v[i].as_str()) {
            proof {
                assert(v.deep_view()[i as int] == v@[i as int]@);
                assert(orig[i as int] != s@);
                assert(lex_lt(s@, orig[i as int]));
                assert(sorted_insert(rest, s@) == seq![s@] + rest);
            }
            v.insert(i, s.to_owned());
            proof {
                assert(v.deep_view() =~= orig.subrange(0, i as int) + seq![s@]
                    + orig.subrange(i as int, n as int));
                assert(orig.subrange(0, i as int) + seq![s@] + orig.subrange(
                    i as int,
                    n as int,
                ) =~= sorted_insert(orig, s@));
            }
            return;
        }
        proof {
            assert(v.deep_view()[i as int] == v@[i as int]@);
            assert(orig[i as int] != s@);
            assert(!lex_lt(s@, orig[i as int]));
        }
        proof {
            assert(sorted_insert(rest, s@) == seq![rest[0]] + sorted_insert(
                rest.drop_first(),
                s@,
            ));
            assert(orig.subrange(0, i + 1) =~= orig.subrange(0, i as int) + seq![
                orig[i as int],
            ]);
            assert(sorted_insert(orig, s@) =~= orig.subrange(0, i + 1) + sorted_insert(
                orig.subrange(i + 1, n as int),
                s@,
            ));
        }
        i = i + 1;
    }
    proof {
        assert(orig.subrange(n as int, n as int) =~= Seq::<Seq<char>>::empty());
        assert(sorted_insert(orig.subrange(n as int, n as int), s@) =~= seq![s@]);
    }
    v.push(s.to_owned());
    proof {
        assert(v.deep_view() =~= sorted_insert(orig, s@));
    }
}

/// A step lemma for loops that build a rendering left to right.
pub proof fn lemma_subrange_step<T>(s: Seq<T>, i: int)
    requires
        0 <= i < s.len(),
    ensures
        s.subrange(0, i + 1).drop_last() =~= s.subrange(0, i),
        s.subrange(0, i + 1).last() == s[i],
{
}

} // verus!
