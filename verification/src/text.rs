//! Text as sequences of characters: the conversions between strings and
//! character vectors, and the tests on them that the rest of the library uses.

use vstd::prelude::*;
use vstd::string::*;

verus! {

/// `String::push` appends one character to the string.
pub assume_specification[ String::push ](s: &mut String, c: char)
    ensures
        final(s)@ == old(s)@.push(c),
;

/// Whether `s` begins with `p`.
pub open spec fn is_prefix(p: Seq<char>, s: Seq<char>) -> bool {
    p.len() <= s.len() && s.subrange(0, p.len() as int) == p
}

/// Whether `c` is white space within a line.
pub open spec fn is_blank(c: char) -> bool {
    c == ' ' || c == '\t' || c == '\r' || c == '\u{3000}'
}

/// The number of blank characters at the front of `s`.
pub open spec fn leading_blanks(s: Seq<char>) -> nat
    decreases s.len(),
{
    if s.len() > 0 && is_blank(s[0]) {
        1 + leading_blanks(s.drop_first())
    } else {
        0
    }
}

/// The number of blank characters at the back of `s`.
pub open spec fn trailing_blanks(s: Seq<char>) -> nat
    decreases s.len(),
{
    if s.len() > 0 && is_blank(s.last()) {
        1 + trailing_blanks(s.drop_last())
    } else {
        0
    }
}

/// `s` without the blank characters at its front.
pub open spec fn trim_start(s: Seq<char>) -> Seq<char> {
    s.skip(leading_blanks(s) as int)
}

/// `s` without the blank characters at its back.
pub open spec fn trim_end(s: Seq<char>) -> Seq<char> {
    s.take(s.len() - trailing_blanks(s))
}

/// `s` without the blank characters at either end.
pub open spec fn trim(s: Seq<char>) -> Seq<char> {
    trim_end(trim_start(s))
}

/// The blank characters at the front of a sequence are within it, the
/// character behind them is not blank, and they are all blank.
pub proof fn lemma_leading_blanks(s: Seq<char>)
    ensures
        leading_blanks(s) <= s.len(),
        forall|i: int| 0 <= i < leading_blanks(s) ==> is_blank(#[trigger] s[i]),
        leading_blanks(s) < s.len() ==> !is_blank(s[leading_blanks(s) as int]),
    decreases s.len(),
{
    if s.len() > 0 && is_blank(s[0]) {
        let rest = s.drop_first();
        lemma_leading_blanks(rest);
        assert forall|i: int| 0 <= i < leading_blanks(s) implies is_blank(#[trigger] s[i]) by {
            if i > 0 {
                assert(s[i] == rest[i - 1]);
            }
        }
        if leading_blanks(s) < s.len() {
            assert(s[leading_blanks(s) as int] == rest[leading_blanks(rest) as int]);
        }
    }
}

/// The blank characters at the back of a sequence are within it, the
/// character before them is not blank, and they are all blank.
pub proof fn lemma_trailing_blanks(s: Seq<char>)
    ensures
        trailing_blanks(s) <= s.len(),
        forall|i: int| s.len() - trailing_blanks(s) <= i < s.len() ==> is_blank(#[trigger] s[i]),
        trailing_blanks(s) < s.len() ==> !is_blank(s[s.len() - trailing_blanks(s) - 1]),
    decreases s.len(),
{
    if s.len() > 0 && is_blank(s.last()) {
        let rest = s.drop_last();
        lemma_trailing_blanks(rest);
        assert forall|i: int| s.len() - trailing_blanks(s) <= i < s.len() implies is_blank(
            #[trigger] s[i],
        ) by {
            if i < s.len() - 1 {
                assert(s[i] == rest[i]);
            }
        }
        if trailing_blanks(s) < s.len() {
            assert(s[s.len() - trailing_blanks(s) - 1] == rest[rest.len() - trailing_blanks(rest)
                - 1]);
        }
    }
}

/// A trimmed text begins and ends with a character that is not blank.
pub proof fn lemma_trim_has_no_blank_ends(s: Seq<char>)
    ensures
        trim(s).len() > 0 ==> !is_blank(trim(s)[0]) && !is_blank(trim(s).last()),
        trim(s).len() <= s.len(),
{
    lemma_leading_blanks(s);
    let front = trim_start(s);
    lemma_trailing_blanks(front);
    if trim(s).len() > 0 {
        assert(trim(s).last() == front[front.len() - trailing_blanks(front) - 1]);
        assert(trim(s)[0] == front[0]);
        assert(front[0] == s[leading_blanks(s) as int]);
    }
}

/// A run of blank characters at the front that stops at a character which is
/// not blank, or at the end, is the whole run.
pub proof fn lemma_leading_blanks_is(s: Seq<char>, n: nat)
    requires
        n <= s.len(),
        forall|i: int| 0 <= i < n ==> is_blank(#[trigger] s[i]),
        n < s.len() ==> !is_blank(s[n as int]),
    ensures
        leading_blanks(s) == n,
    decreases s.len(),
{
    if n > 0 {
        let rest = s.drop_first();
        assert(is_blank(s[0]));
        assert forall|i: int| 0 <= i < n - 1 implies is_blank(#[trigger] rest[i]) by {
            assert(rest[i] == s[i + 1]);
        }
        lemma_leading_blanks_is(rest, (n - 1) as nat);
    }
}

/// A run of blank characters at the back that stops at a character which is
/// not blank, or at the front, is the whole run.
pub proof fn lemma_trailing_blanks_is(s: Seq<char>, n: nat)
    requires
        n <= s.len(),
        forall|i: int| s.len() - n <= i < s.len() ==> is_blank(#[trigger] s[i]),
        n < s.len() ==> !is_blank(s[s.len() - n - 1]),
    ensures
        trailing_blanks(s) == n,
    decreases s.len(),
{
    if n > 0 {
        let rest = s.drop_last();
        assert(is_blank(s[s.len() - 1]));
        assert forall|i: int| rest.len() - (n - 1) <= i < rest.len() implies is_blank(
            #[trigger] rest[i],
        ) by {
            assert(rest[i] == s[i]);
        }
        lemma_trailing_blanks_is(rest, (n - 1) as nat);
    }
}

/// Whether `c` is white space within a line.
pub fn blank(c: char) -> (b: bool)
    ensures
        b == is_blank(c),
{
    c == ' ' || c == '\t' || c == '\r' || c == '\u{3000}'
}

/// The characters of `s`.
pub fn str_to_chars(s: &str) -> (v: Vec<char>)
    ensures
        v@ == s@,
{
    let mut v: Vec<char> = Vec::new();
    for c in it: s.chars()
        invariant
            v@ == it.seq().take(it.index()),
    {
        v.push(c);
    }
    v
}

/// The string made of the characters of `v` from `from` up to `to`.
pub fn chars_to_string(v: &Vec<char>, from: usize, to: usize) -> (s: String)
    requires
        from <= to <= v@.len(),
    ensures
        s@ == v@.subrange(from as int, to as int),
{
    let mut s = String::new();
    let mut i: usize = from;
    while i < to
        invariant
            from <= i <= to <= v@.len(),
            s@ == v@.subrange(from as int, i as int),
        decreases to - i,
    {
        s.push(v[i]);
        assert(v@.subrange(from as int, i as int).push(v@[i as int]) =~= v@.subrange(
            from as int,
            i + 1,
        ));
        i += 1;
    }
    s
}

/// Whether the two character vectors hold the same text.
pub fn chars_eq(a: &Vec<char>, b: &Vec<char>) -> (r: bool)
    ensures
        r == (a@ == b@),
{
    if a.len() != b.len() {
        return false;
    }
    let mut i: usize = 0;
    while i < a.len()
        invariant
            i <= a.len(),
            a.len() == b.len(),
            forall|j: int| 0 <= j < i ==> a@[j] == b@[j],
        decreases a.len() - i,
    {
        if a[i] != b[i] {
            return false;
        }
        i += 1;
    }
    assert(a@ =~= b@);
    true
}

/// Whether the two strings hold the same text.
pub fn str_eq(a: &str, b: &str) -> (r: bool)
    ensures
        r == (a@ == b@),
{
    let x = str_to_chars(a);
    let y = str_to_chars(b);
    chars_eq(&x, &y)
}

/// Whether `s` begins with the characters of `p`.
pub fn chars_start_with(s: &Vec<char>, p: &Vec<char>) -> (r: bool)
    ensures
        r == is_prefix(p@, s@),
{
    if p.len() > s.len() {
        return false;
    }
    let mut i: usize = 0;
    while i < p.len()
        invariant
            i <= p.len() <= s.len(),
            forall|j: int| 0 <= j < i ==> s@[j] == p@[j],
        decreases p.len() - i,
    {
        if s[i] != p[i] {
            assert(s@.subrange(0, p@.len() as int)[i as int] != p@[i as int]);
            return false;
        }
        i += 1;
    }
    assert(s@.subrange(0, p@.len() as int) =~= p@);
    true
}

/// Whether the string `s` begins with the characters of `p`.
pub fn str_starts_with(s: &str, p: &Vec<char>) -> (r: bool)
    ensures
        r == is_prefix(p@, s@),
{
    let chars = str_to_chars(s);
    chars_start_with(&chars, p)
}

/// The bounds of `v[from..to]` without the blank characters at either end.
pub fn trim_bounds(v: &Vec<char>, from: usize, to: usize) -> (r: (usize, usize))
    requires
        from <= to <= v@.len(),
    ensures
        from <= r.0 <= r.1 <= to,
        v@.subrange(r.0 as int, r.1 as int) == trim(v@.subrange(from as int, to as int)),
{
    let ghost s = v@.subrange(from as int, to as int);
    let mut a: usize = from;
    while a < to && blank(v[a])
        invariant
            from <= a <= to <= v@.len(),
            forall|i: int| from <= i < a ==> is_blank(#[trigger] v@[i]),
        decreases to - a,
    {
        a += 1;
    }
    proof {
        assert forall|i: int| 0 <= i < a - from implies is_blank(#[trigger] s[i]) by {
            assert(s[i] == v@[from + i]);
        }
        lemma_leading_blanks_is(s, (a - from) as nat);
    }
    let ghost t = v@.subrange(a as int, to as int);
    assert(t =~= trim_start(s));
    let mut b: usize = to;
    while b > a && blank(v[b - 1])
        invariant
            a <= b <= to <= v@.len(),
            forall|i: int| b <= i < to ==> is_blank(#[trigger] v@[i]),
        decreases b,
    {
        b -= 1;
    }
    proof {
        assert forall|i: int| t.len() - (to - b) <= i < t.len() implies is_blank(
            #[trigger] t[i],
        ) by {
            assert(t[i] == v@[a + i]);
        }
        lemma_trailing_blanks_is(t, (to - b) as nat);
        assert(v@.subrange(a as int, b as int) =~= trim_end(t));
    }
    (a, b)
}

} // verus!
