//! The lexer: one token for each line of a score.
//!
//! A line is read without the blank characters at its ends. An empty line
//! and a line that begins with `#` are comments. A line that begins with `*`
//! is a time mark, written as minutes, a colon and seconds, with up to three
//! digits of a fraction behind a point. A line in square brackets is a
//! command. A line that begins with `>>` is a caption. A line that begins
//! with `:` is a property where it holds `=`, key before and value behind,
//! and a reading where it does not. A line that begins with `@` is a section
//! break. Every other line is a piece of the lyrics.

use crate::error::{Reason, ScoremapLexError};
use crate::text::{chars_to_string, str_to_chars, trim, trim_bounds};
use crate::time::Timestamp;
use crate::token::{token_views, Token, TokenContent, TokenContentView, TokenView};
use vstd::prelude::*;

verus! {

/// The index of the first `c` in `s` from `from` on, or the length of `s`
/// if there is none.
pub open spec fn first_index(s: Seq<char>, c: char, from: int) -> int
    decreases s.len() - from,
{
    if from < 0 || from >= s.len() {
        s.len() as int
    } else if s[from] == c {
        from
    } else {
        first_index(s, c, from + 1)
    }
}

/// An index at which `c` stands, or the end, with no `c` before it, is where
/// the search for `c` ends.
pub proof fn lemma_first_index_is(s: Seq<char>, c: char, from: int, at: int)
    requires
        0 <= from <= at <= s.len(),
        forall|i: int| from <= i < at ==> s[i] != c,
        at < s.len() ==> s[at] == c,
    ensures
        first_index(s, c, from) == at,
    decreases at - from,
{
    if from < at {
        lemma_first_index_is(s, c, from + 1, at);
    }
}

/// The value of the decimal digit `c`, if it is one.
pub open spec fn spec_digit(c: char) -> Option<nat> {
    match c {
        '0' => Some(0),
        '1' => Some(1),
        '2' => Some(2),
        '3' => Some(3),
        '4' => Some(4),
        '5' => Some(5),
        '6' => Some(6),
        '7' => Some(7),
        '8' => Some(8),
        '9' => Some(9),
        _ => None,
    }
}

/// Whether `s` is made of decimal digits only.
pub open spec fn all_digits(s: Seq<char>) -> bool {
    forall|i: int| 0 <= i < s.len() ==> spec_digit(#[trigger] s[i]) is Some
}

/// The number that the decimal digits `s` write.
pub open spec fn decimal(s: Seq<char>) -> nat
    decreases s.len(),
{
    if s.len() == 0 {
        0
    } else {
        decimal(s.drop_last()) * 10 + match spec_digit(s.last()) {
            Some(d) => d,
            None => 0,
        }
    }
}

/// The number that `s` writes, if `s` is one to `max_len` decimal digits.
pub open spec fn spec_number(s: Seq<char>, max_len: nat) -> Option<nat> {
    if 1 <= s.len() <= max_len && all_digits(s) {
        Some(decimal(s))
    } else {
        None
    }
}

/// The milliseconds that the fraction `s` of a second writes: one digit
/// counts tenths, two count hundredths, three count thousandths.
pub open spec fn spec_fraction(s: Seq<char>) -> Option<nat> {
    match spec_number(s, 3) {
        Some(n) => Some(
            if s.len() == 1 {
                n * 100
            } else if s.len() == 2 {
                n * 10
            } else {
                n
            },
        ),
        None => None,
    }
}

/// The timestamp that `s` writes: up to nine digits of minutes, a colon, one
/// or two digits of seconds below sixty, and at will a point and a fraction.
pub open spec fn spec_timestamp(s: Seq<char>) -> Option<Timestamp> {
    let colon = first_index(s, ':', 0);
    if colon >= s.len() {
        None
    } else {
        let rest = s.skip(colon + 1);
        let point = first_index(rest, '.', 0);
        let fraction = if point < rest.len() {
            spec_fraction(rest.skip(point + 1))
        } else {
            Some(0nat)
        };
        match (spec_number(s.take(colon), 9), spec_number(rest.take(point), 2), fraction) {
            (Some(minutes), Some(seconds), Some(millis)) => if seconds < 60 {
                Some(Timestamp { millis: (minutes * 60000 + seconds * 1000 + millis) as u64 })
            } else {
                None
            },
            _ => None,
        }
    }
}

/// The token of the line `line`, which stands on line `line_num`.
pub open spec fn spec_lex_line(line: Seq<char>, line_num: usize) -> Result<
    TokenView,
    ScoremapLexError,
> {
    let text = trim(line);
    if text.len() == 0 || text[0] == '#' {
        Ok(TokenView { line_num, content: TokenContentView::Comment })
    } else if text[0] == '*' {
        match spec_timestamp(trim(text.skip(1))) {
            Some(time) => Ok(TokenView { line_num, content: TokenContentView::Time(time) }),
            None => Err(
                ScoremapLexError::MalformedTimestamp {
                    line_num,
                    reason: Reason::MalformedTimestamp,
                },
            ),
        }
    } else if text[0] == '[' && text.len() >= 2 && text.last() == ']' {
        Ok(
            TokenView {
                line_num,
                content: TokenContentView::Command(trim(text.subrange(1, text.len() - 1))),
            },
        )
    } else if text.len() >= 2 && text[0] == '>' && text[1] == '>' {
        Ok(TokenView { line_num, content: TokenContentView::Caption(trim(text.skip(2))) })
    } else if text[0] == ':' {
        let body = text.skip(1);
        let equals = first_index(body, '=', 0);
        if equals < body.len() {
            Ok(
                TokenView {
                    line_num,
                    content: TokenContentView::Property {
                        key: trim(body.take(equals)),
                        value: trim(body.skip(equals + 1)),
                    },
                },
            )
        } else {
            Ok(TokenView { line_num, content: TokenContentView::Yomigana(trim(body)) })
        }
    } else if text[0] == '@' {
        Ok(TokenView { line_num, content: TokenContentView::Section })
    } else {
        Ok(TokenView { line_num, content: TokenContentView::Lyrics(text) })
    }
}

/// The tokens `front` followed by what `back` holds, or the error of `back`.
pub open spec fn spec_join(front: Seq<TokenView>, back: Result<Seq<TokenView>, ScoremapLexError>)
    -> Result<Seq<TokenView>, ScoremapLexError> {
    match back {
        Ok(tokens) => Ok(front + tokens),
        Err(err) => Err(err),
    }
}

/// The tokens of the lines of `text` from the index `from` on, the first of
/// which stands on line `line_num`, or the error of the first line that has
/// one. A line ends at a line feed or at the end of the text.
pub open spec fn spec_lex_from(text: Seq<char>, from: int, line_num: int) -> Result<
    Seq<TokenView>,
    ScoremapLexError,
>
    decreases text.len() + 1 - from,
{
    if from < 0 || from >= text.len() {
        Ok(Seq::empty())
    } else {
        let end = first_index(text, '\n', from);
        if from <= end <= text.len() {
            match spec_lex_line(text.subrange(from, end), line_num as usize) {
                Ok(token) => spec_join(seq![token], spec_lex_from(text, end + 1, line_num + 1)),
                Err(err) => Err(err),
            }
        } else {
            Ok(Seq::empty())
        }
    }
}

/// The tokens of the score `text`: one for each line, numbered from one.
pub open spec fn spec_lex(text: Seq<char>) -> Result<Seq<TokenView>, ScoremapLexError> {
    spec_lex_from(text, 0, 1)
}

/// The search for a character ends at or behind where it began, within the
/// text.
pub proof fn lemma_first_index_bounds(s: Seq<char>, c: char, from: int)
    requires
        0 <= from <= s.len(),
    ensures
        from <= first_index(s, c, from) <= s.len(),
    decreases s.len() - from,
{
    if from < s.len() && s[from] != c {
        lemma_first_index_bounds(s, c, from + 1);
    }
}

/// A score has as many tokens as lines, and each token names its line.
pub proof fn lemma_lex_numbers_lines(text: Seq<char>, from: int, line_num: int)
    requires
        0 <= from,
        0 <= line_num,
        line_num + text.len() - from <= usize::MAX + 1,
        spec_lex_from(text, from, line_num) is Ok,
    ensures
        spec_lex_from(text, from, line_num)->Ok_0.len() <= text.len() - from
            || spec_lex_from(text, from, line_num)->Ok_0.len() == 0,
        forall|i: int|
            0 <= i < spec_lex_from(text, from, line_num)->Ok_0.len() ==> (#[trigger] spec_lex_from(
                text,
                from,
                line_num,
            )->Ok_0[i]).line_num == line_num + i,
    decreases text.len() + 1 - from,
{
    if from < text.len() {
        let end = first_index(text, '\n', from);
        lemma_first_index_bounds(text, '\n', from);
        let rest = spec_lex_from(text, end + 1, line_num + 1);
        lemma_lex_numbers_lines(text, end + 1, line_num + 1);
        let all = spec_lex_from(text, from, line_num)->Ok_0;
        assert forall|i: int| 0 <= i < all.len() implies (#[trigger] all[i]).line_num == line_num
            + i by {
            if i > 0 {
                assert(all[i] == rest->Ok_0[i - 1]);
            }
        }
    }
}

/// The value of the decimal digit `c`, if it is one.
fn digit(c: char) -> (d: Option<u64>)
    ensures
        match spec_digit(c) {
            Some(v) => d == Some(v as u64) && v < 10,
            None => d is None,
        },
{
    match c {
        '0' => Some(0),
        '1' => Some(1),
        '2' => Some(2),
        '3' => Some(3),
        '4' => Some(4),
        '5' => Some(5),
        '6' => Some(6),
        '7' => Some(7),
        '8' => Some(8),
        '9' => Some(9),
        _ => None,
    }
}

/// The index of the first `c` in `v[from..to]`, or `to` if there is none.
fn find_char(v: &Vec<char>, from: usize, to: usize, c: char) -> (at: usize)
    requires
        from <= to <= v@.len(),
    ensures
        from <= at <= to,
        at - from == first_index(v@.subrange(from as int, to as int), c, 0),
        at < to ==> v@[at as int] == c,
{
    let ghost s = v@.subrange(from as int, to as int);
    let mut at: usize = from;
    while at < to && v[at] != c
        invariant
            from <= at <= to <= v@.len(),
            s == v@.subrange(from as int, to as int),
            forall|i: int| 0 <= i < at - from ==> s[i] != c,
        decreases to - at,
    {
        assert(s[at - from] == v@[at as int]);
        at += 1;
    }
    proof {
        if at < to {
            assert(s[at - from] == v@[at as int]);
        }
        lemma_first_index_is(s, c, 0, at - from);
    }
    at
}

/// The index of the first `c` in `v` from `from` on, or the length of `v`.
fn find_from(v: &Vec<char>, from: usize, c: char) -> (at: usize)
    requires
        from <= v@.len(),
    ensures
        from <= at <= v@.len(),
        at == first_index(v@, c, from as int),
{
    let mut at: usize = from;
    while at < v.len() && v[at] != c
        invariant
            from <= at <= v@.len(),
            forall|i: int| from <= i < at ==> v@[i] != c,
        decreases v@.len() - at,
    {
        at += 1;
    }
    proof {
        lemma_first_index_is(v@, c, from as int, at as int);
    }
    at
}

/// The numbers of up to nine digits are below a thousand millions.
proof fn lemma_decimal_bound(s: Seq<char>)
    requires
        s.len() <= 9,
    ensures
        decimal(s) < 1_000_000_000,
        s.len() <= 3 ==> decimal(s) < 1000,
        s.len() <= 2 ==> decimal(s) < 100,
        s.len() <= 1 ==> decimal(s) < 10,
    decreases s.len(),
{
    reveal_with_fuel(decimal, 10);
    if s.len() > 0 {
        lemma_decimal_bound(s.drop_last());
    }
    assert(decimal(s) < 1_000_000_000) by {
        lemma_decimal_steps(s);
    }
}

/// Each further digit makes a number at most ten times as large and nine.
proof fn lemma_decimal_steps(s: Seq<char>)
    requires
        s.len() <= 9,
    ensures
        s.len() == 0 ==> decimal(s) == 0,
        s.len() <= 1 ==> decimal(s) <= 9,
        s.len() <= 2 ==> decimal(s) <= 99,
        s.len() <= 3 ==> decimal(s) <= 999,
        s.len() <= 4 ==> decimal(s) <= 9999,
        s.len() <= 5 ==> decimal(s) <= 99999,
        s.len() <= 6 ==> decimal(s) <= 999999,
        s.len() <= 7 ==> decimal(s) <= 9999999,
        s.len() <= 8 ==> decimal(s) <= 99999999,
        s.len() <= 9 ==> decimal(s) <= 999999999,
    decreases s.len(),
{
    if s.len() > 0 {
        lemma_decimal_steps(s.drop_last());
    }
}

/// The number that the digits `v[from..to]` write, if they are one to
/// `max_len` decimal digits.
fn parse_number(v: &Vec<char>, from: usize, to: usize, max_len: usize) -> (n: Option<u64>)
    requires
        from <= to <= v@.len(),
        max_len <= 9,
    ensures
        match spec_number(v@.subrange(from as int, to as int), max_len as nat) {
            Some(value) => n == Some(value as u64) && value < 1_000_000_000,
            None => n is None,
        },
{
    let ghost s = v@.subrange(from as int, to as int);
    if to - from < 1 || to - from > max_len {
        return None;
    }
    let mut value: u64 = 0;
    let mut i: usize = from;
    while i < to
        invariant
            from <= i <= to <= v@.len(),
            to - from <= 9,
            s == v@.subrange(from as int, to as int),
            value == decimal(s.take(i - from)),
            value < 1_000_000_000,
            forall|j: int| 0 <= j < i - from ==> spec_digit(#[trigger] s[j]) is Some,
        decreases to - i,
    {
        assert(s[i - from] == v@[i as int]);
        match digit(v[i]) {
            Some(d) => {
                proof {
                    assert(s.take(i - from + 1).drop_last() =~= s.take(i - from));
                    assert(s.take(i - from + 1).last() == s[i - from]);
                    lemma_decimal_bound(s.take(i - from + 1));
                }
                value = value * 10 + d;
            },
            None => {
                return None;
            },
        }
        i += 1;
    }
    assert(s.take(to - from) =~= s);
    Some(value)
}

/// The timestamp that `v[from..to]` writes.
fn parse_timestamp(v: &Vec<char>, from: usize, to: usize) -> (time: Option<Timestamp>)
    requires
        from <= to <= v@.len(),
    ensures
        time == spec_timestamp(v@.subrange(from as int, to as int)),
{
    let ghost s = v@.subrange(from as int, to as int);
    let colon = find_char(v, from, to, ':');
    if colon >= to {
        return None;
    }
    let ghost rest = s.skip(colon - from + 1);
    assert(rest =~= v@.subrange(colon + 1, to as int));
    assert(s.take(colon - from) =~= v@.subrange(from as int, colon as int));
    let point = find_char(v, colon + 1, to, '.');
    assert(rest.take(point - colon - 1) =~= v@.subrange(colon + 1, point as int));
    let millis: Option<u64> = if point < to {
        assert(rest.skip(point - colon) =~= v@.subrange(point + 1, to as int));
        proof {
            if to - point - 1 <= 3 {
                lemma_decimal_bound(v@.subrange(point + 1, to as int));
            }
        }
        match parse_number(v, point + 1, to, 3) {
            Some(n) => {
                if to - point - 1 == 1 {
                    Some(n * 100)
                } else if to - point - 1 == 2 {
                    Some(n * 10)
                } else {
                    Some(n)
                }
            },
            None => None,
        }
    } else {
        Some(0)
    };
    assert(match (if point < to {
        spec_fraction(rest.skip(point - colon))
    } else {
        Some(0nat)
    }) {
        Some(m) => millis == Some(m as u64) && m < 1000,
        None => millis is None,
    }) by {
        if point < to && to - point - 1 <= 3 {
            lemma_decimal_bound(v@.subrange(point + 1, to as int));
        }
    }
    let minutes = parse_number(v, from, colon, 9);
    let seconds = parse_number(v, colon + 1, point, 2);
    proof {
        if point - colon - 1 <= 2 {
            lemma_decimal_bound(v@.subrange(colon + 1, point as int));
        }
    }
    match (minutes, seconds, millis) {
        (Some(m), Some(s), Some(ms)) => {
            if s < 60 {
                Some(Timestamp { millis: m * 60000 + s * 1000 + ms })
            } else {
                None
            }
        },
        _ => None,
    }
}

/// The token of the line `v[from..to]`, which stands on line `line_num`.
pub fn lex_line(v: &Vec<char>, from: usize, to: usize, line_num: usize) -> (r: Result<
    Token,
    ScoremapLexError,
>)
    requires
        from <= to <= v@.len(),
    ensures
        match spec_lex_line(v@.subrange(from as int, to as int), line_num) {
            Ok(token) => r is Ok && r->Ok_0@ == token,
            Err(err) => r == Err::<Token, ScoremapLexError>(err),
        },
{
    let (a, b) = trim_bounds(v, from, to);
    let ghost text = v@.subrange(a as int, b as int);
    if a == b {
        return Ok(Token { line_num, content: TokenContent::Comment });
    }
    assert(text[0] == v@[a as int]);
    assert(text.last() == v@[b - 1]);
    let head = v[a];
    if head == '#' {
        Ok(Token { line_num, content: TokenContent::Comment })
    } else if head == '*' {
        assert(text.skip(1) =~= v@.subrange(a + 1, b as int));
        let (c, d) = trim_bounds(v, a + 1, b);
        match parse_timestamp(v, c, d) {
            Some(time) => Ok(Token { line_num, content: TokenContent::Time(time) }),
            None => Err(
                ScoremapLexError::MalformedTimestamp {
                    line_num,
                    reason: Reason::MalformedTimestamp,
                },
            ),
        }
    } else if head == '[' && b - a >= 2 && v[b - 1] == ']' {
        assert(text.subrange(1, text.len() - 1) =~= v@.subrange(a + 1, b - 1));
        let (c, d) = trim_bounds(v, a + 1, b - 1);
        Ok(Token { line_num, content: TokenContent::Command(chars_to_string(v, c, d)) })
    } else if b - a >= 2 && head == '>' && v[a + 1] == '>' {
        assert(text[1] == v@[a + 1]);
        assert(text.skip(2) =~= v@.subrange(a + 2, b as int));
        let (c, d) = trim_bounds(v, a + 2, b);
        Ok(Token { line_num, content: TokenContent::Caption(chars_to_string(v, c, d)) })
    } else if head == ':' {
        if b - a >= 2 {
            assert(text[1] == v@[a + 1]);
        }
        let ghost body = text.skip(1);
        assert(body =~= v@.subrange(a + 1, b as int));
        let equals = find_char(v, a + 1, b, '=');
        if equals < b {
            assert(body.take(equals - a - 1) =~= v@.subrange(a + 1, equals as int));
            assert(body.skip(equals - a) =~= v@.subrange(equals + 1, b as int));
            let (c, d) = trim_bounds(v, a + 1, equals);
            let (e, f) = trim_bounds(v, equals + 1, b);
            Ok(
                Token {
                    line_num,
                    content: TokenContent::Property {
                        key: chars_to_string(v, c, d),
                        value: chars_to_string(v, e, f),
                    },
                },
            )
        } else {
            let (c, d) = trim_bounds(v, a + 1, b);
            Ok(Token { line_num, content: TokenContent::Yomigana(chars_to_string(v, c, d)) })
        }
    } else if head == '@' {
        if b - a >= 2 {
            assert(text[1] == v@[a + 1]);
        }
        Ok(Token { line_num, content: TokenContent::Section })
    } else {
        if b - a >= 2 {
            assert(text[1] == v@[a + 1]);
        }
        Ok(Token { line_num, content: TokenContent::Lyrics(chars_to_string(v, a, b)) })
    }
}

/// The tokens of the score `text`: one for each line, numbered from one.
/// The first line that cannot be read ends the work with its error.
pub fn lex(text: &str) -> (r: Result<Vec<Token>, ScoremapLexError>)
    ensures
        match spec_lex(text@) {
            Ok(tokens) => r is Ok && token_views(r->Ok_0@) == tokens,
            Err(err) => r == Err::<Vec<Token>, ScoremapLexError>(err),
        },
{
    let v = str_to_chars(text);
    let mut tokens: Vec<Token> = Vec::new();
    let mut from: usize = 0;
    assert(token_views(tokens@) =~= Seq::<TokenView>::empty());
    assert(spec_join(Seq::empty(), spec_lex_from(v@, 0, 1)) == spec_lex(v@)) by {
        match spec_lex_from(v@, 0, 1) {
            Ok(all) => {
                assert(Seq::<TokenView>::empty() + all =~= all);
            },
            Err(_) => {},
        }
    }
    while from < v.len()
        invariant
            v@ == text@,
            tokens@.len() <= from,
            from <= v@.len(),
            spec_lex(v@) == spec_join(
                token_views(tokens@),
                spec_lex_from(v@, from as int, (tokens@.len() + 1) as int),
            ),
        decreases v@.len() - from,
    {
        let end = find_from(&v, from, '\n');
        let line_num = tokens.len() + 1;
        let ghost built = token_views(tokens@);
        let ghost rest = spec_lex_from(v@, end + 1, line_num + 1);
        match lex_line(&v, from, end, line_num) {
            Ok(token) => {
                tokens.push(token);
                proof {
                    assert(token_views(tokens@) =~= built.push(token@));
                    match rest {
                        Ok(more) => {
                            assert(built + (seq![token@] + more) =~= built.push(token@) + more);
                        },
                        Err(_) => {},
                    }
                }
            },
            Err(err) => {
                return Err(err);
            },
        }
        from = if end < v.len() {
            end + 1
        } else {
            end
        };
    }
    proof {
        match spec_lex_from(v@, from as int, (tokens@.len() + 1) as int) {
            Ok(more) => {
                assert(token_views(tokens@) + more =~= token_views(tokens@));
            },
            Err(_) => {},
        }
    }
    Ok(tokens)
}

} // verus!
