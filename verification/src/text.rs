//! Character and string utilities shared by the codec.

use vstd::prelude::*;
use vstd::string::StrSliceExecFns;

verus! {

/// A character with the Unicode `White_Space` property.
pub open spec fn spec_is_whitespace(c: char) -> bool {
    let u = c as int;
    ||| 9 <= u <= 13
    ||| u == 32
    ||| u == 0x85
    ||| u == 0xa0
    ||| u == 0x1680
    ||| 0x2000 <= u <= 0x200a
    ||| u == 0x2028
    ||| u == 0x2029
    ||| u == 0x202f
    ||| u == 0x205f
    ||| u == 0x3000
}

/// A character with the Unicode `White_Space` property.
pub fn is_whitespace_char(c: char) -> (r: bool)
    ensures
        r == spec_is_whitespace(c),
{
    let u = c as u32;
    (9 <= u && u <= 13) || u == 32 || u == 0x85 || u == 0xa0 || u == 0x1680 || (0x2000 <= u && u
        <= 0x200a) || u == 0x2028 || u == 0x2029 || u == 0x202f || u == 0x205f || u == 0x3000
}

/// Every character of `t` is whitespace.
pub open spec fn spec_all_whitespace(t: Seq<char>) -> bool {
    forall|i: int| 0 <= i < t.len() ==> spec_is_whitespace(#[trigger] t[i])
}

/// Some character of `t` is whitespace.
pub open spec fn spec_has_whitespace(t: Seq<char>) -> bool {
    exists|i: int| 0 <= i < t.len() && spec_is_whitespace(#[trigger] t[i])
}

/// Every character of `t` is whitespace.
pub fn all_whitespace(t: &str) -> (r: bool)
    ensures
        r == spec_all_whitespace(t@),
{
    let n = t.unicode_len();
    let mut i: usize = 0;
    while i < n
        invariant
            i <= n,
            n == t@.len(),
            forall|j: int| 0 <= j < i ==> spec_is_whitespace(#[trigger] t@[j]),
        decreases n - i,
    {
        if !is_whitespace_char(t.get_char(i)) {
            return false;
        }
        i = i + 1;
    }
    true
}

/// Some character of `t` is whitespace.
pub fn has_whitespace(t: &str) -> (r: bool)
    ensures
        r == spec_has_whitespace(t@),
{
    let n = t.unicode_len();
    let mut i: usize = 0;
    while i < n
        invariant
            i <= n,
            n == t@.len(),
            forall|j: int| 0 <= j < i ==> !spec_is_whitespace(#[trigger] t@[j]),
        decreases n - i,
    {
        if is_whitespace_char(t.get_char(i)) {
            return true;
        }
        i = i + 1;
    }
    false
}

/// An ASCII decimal digit.
pub open spec fn spec_is_digit(c: char) -> bool {
    48 <= c as int <= 57
}

/// The numeric value of an ASCII decimal digit.
pub open spec fn spec_digit_val(c: char) -> int {
    c as int - 48
}

/// The ASCII digit character for `n`, for `0 <= n <= 9`.
pub open spec fn spec_digit_char(n: int) -> char {
    if n == 0 {
        '0'
    } else if n == 1 {
        '1'
    } else if n == 2 {
        '2'
    } else if n == 3 {
        '3'
    } else if n == 4 {
        '4'
    } else if n == 5 {
        '5'
    } else if n == 6 {
        '6'
    } else if n == 7 {
        '7'
    } else if n == 8 {
        '8'
    } else {
        '9'
    }
}

/// An ASCII decimal digit.
pub fn is_digit(c: char) -> (r: bool)
    ensures
        r == spec_is_digit(c),
{
    let u = c as u32;
    48 <= u && u <= 57
}

/// The numeric value of an ASCII decimal digit.
pub fn digit_val(c: char) -> (r: u8)
    requires
        spec_is_digit(c),
    ensures
        r == spec_digit_val(c),
{
    (c as u32 - 48) as u8
}

/// The ASCII digit character for `n`.
pub fn digit_char(n: u8) -> (r: char)
    requires
        n <= 9,
    ensures
        r == spec_digit_char(n as int),
{
    match n {
        0 => '0',
        1 => '1',
        2 => '2',
        3 => '3',
        4 => '4',
        5 => '5',
        6 => '6',
        7 => '7',
        8 => '8',
        _ => '9',
    }
}

/// Round-trip of a digit through its character.
pub proof fn lemma_digit_char_val(n: int)
    requires
        0 <= n <= 9,
    ensures
        spec_is_digit(spec_digit_char(n)),
        spec_digit_val(spec_digit_char(n)) == n,
{
}

/// The tokens of `ts` joined by single spaces.
pub open spec fn spec_join_tokens(ts: Seq<Seq<char>>) -> Seq<char>
    decreases ts.len(),
{
    if ts.len() == 0 {
        Seq::empty()
    } else if ts.len() == 1 {
        ts[0]
    } else {
        ts[0] + seq![' '] + spec_join_tokens(ts.drop_first())
    }
}

/// Joining one more token appends a separating space (unless the join was
/// empty so far) and then the token.
pub proof fn lemma_join_tokens_push(ts: Seq<Seq<char>>, t: Seq<char>)
    ensures
        ts.len() == 0 ==> spec_join_tokens(ts.push(t)) == t,
        ts.len() > 0 ==> spec_join_tokens(ts.push(t)) == spec_join_tokens(ts) + seq![' '] + t,
    decreases ts.len(),
{
    if ts.len() == 0 {
        assert(ts.push(t)[0] =~= t);
    } else if ts.len() == 1 {
        assert(ts.push(t).drop_first() =~= seq![t]);
        assert(spec_join_tokens(seq![t]) == t);
        assert(spec_join_tokens(ts.push(t)) == ts.push(t)[0] + seq![' '] + spec_join_tokens(
            ts.push(t).drop_first(),
        ));
        assert(ts.push(t)[0] == ts[0]);
        assert(spec_join_tokens(ts.push(t)) == ts[0] + seq![' '] + t);
    } else {
        lemma_join_tokens_push(ts.drop_first(), t);
        assert(ts.push(t).drop_first() =~= ts.drop_first().push(t));
        assert(spec_join_tokens(ts.push(t)) == ts[0] + seq![' ']
            + spec_join_tokens(ts.drop_first().push(t)));
        assert(spec_join_tokens(ts) + seq![' '] + t =~= ts[0] + seq![' '] + (spec_join_tokens(
            ts.drop_first(),
        ) + seq![' '] + t));
    }
}

/// Relies on `String::push`: appends exactly the given character.
#[verifier::external_body]
pub(crate) fn push_char(s: &mut String, c: char)
    ensures
        final(s)@ == old(s)@.push(c),
{
    s.push(c);
}

/// The decimal rendering of `n` as exactly two digits, for `0 <= n <= 99`.
pub open spec fn spec_two_digits(n: int) -> Seq<char> {
    seq![spec_digit_char(n / 10), spec_digit_char(n % 10)]
}

/// The decimal rendering of `n` as exactly four digits, for `0 <= n <= 9999`.
pub open spec fn spec_four_digits(n: int) -> Seq<char> {
    seq![
        spec_digit_char(n / 1000),
        spec_digit_char((n / 100) % 10),
        spec_digit_char((n / 10) % 10),
        spec_digit_char(n % 10),
    ]
}

/// Appends the two-digit decimal rendering of `n` to `s`.
pub(crate) fn push_two_digits(s: &mut String, n: u8)
    requires
        n <= 99,
    ensures
        final(s)@ == old(s)@ + spec_two_digits(n as int),
{
    push_char(s, digit_char(n / 10));
    push_char(s, digit_char(n % 10));
    proof {
        assert(s@ =~= old(s)@ + spec_two_digits(n as int));
    }
}

/// Appends the four-digit decimal rendering of `n` to `s`.
pub(crate) fn push_four_digits(s: &mut String, n: u16)
    requires
        n <= 9999,
    ensures
        final(s)@ == old(s)@ + spec_four_digits(n as int),
{
    push_char(s, digit_char((n / 1000) as u8));
    push_char(s, digit_char(((n / 100) % 10) as u8));
    push_char(s, digit_char(((n / 10) % 10) as u8));
    push_char(s, digit_char((n % 10) as u8));
    proof {
        assert(s@ =~= old(s)@ + spec_four_digits(n as int));
    }
}

} // verus!
