//! The text codec: parsing a todo from one line of text and formatting it
//! back.

use vstd::prelude::*;
use vstd::string::StrSliceExecFns;

use crate::colors::{spec_defaded, spec_faded_only, spec_reset, StyleScheme, StyleSchemeView};
use crate::date::{push_date, spec_date_chars, Date};
use crate::due::{spec_due_prefix, TodoDate};
use crate::error::{InvalidPriorityError, TodoParseError};
use crate::helper::{spec_meta_encode, spec_meta_get, spec_meta_insert, spec_meta_remove, MetaMap};
use crate::priority::{spec_decode_priority, spec_letter_to_priority, TodoPriority};
use crate::text::{
    all_whitespace, is_digit, digit_val, push_char, spec_all_whitespace, spec_digit_char,
    spec_is_digit, spec_digit_val, spec_join_tokens, lemma_join_tokens_push,
};
use crate::{
    spec_desc_tokens, spec_seg_token, spec_styled_seg, spec_wrap, Todo, TodoDescription,
    TodoSegment, TodoSegmentView, TodoTag, TodoTagView, TodoView,
};

verus! {

/// The token holds no space, so splitting on spaces keeps it whole.
pub open spec fn spec_token_space_free(t: Seq<char>) -> bool {
    forall|j: int| 0 <= j < t.len() ==> (#[trigger] t[j]) != ' '
}

/// The space-separated tokens of `s`, exactly as `split(' ')` yields
/// them: between two adjacent spaces, and at either end of the text,
/// stands an empty token. The token list is never empty.
pub open spec fn spec_tokens(s: Seq<char>) -> Seq<Seq<char>>
    decreases s.len(),
{
    if s.len() == 0 {
        seq![Seq::<char>::empty()]
    } else if s[0] == ' ' {
        seq![Seq::<char>::empty()] + spec_tokens(s.drop_first())
    } else {
        let rest = spec_tokens(s.drop_first());
        seq![seq![s[0]] + rest[0]] + rest.drop_first()
    }
}

/// There is always at least one token.
pub proof fn lemma_tokens_len(s: Seq<char>)
    ensures
        spec_tokens(s).len() >= 1,
    decreases s.len(),
{
    if s.len() > 0 {
        lemma_tokens_len(s.drop_first());
    }
}

/// A space-free text is one single token.
pub proof fn lemma_tokens_single(a: Seq<char>)
    requires
        spec_token_space_free(a),
    ensures
        spec_tokens(a) == seq![a],
    decreases a.len(),
{
    if a.len() == 0 {
        assert(spec_tokens(a) =~~= seq![a]);
    } else {
        assert(a[0] != ' ');
        assert(spec_token_space_free(a.drop_first()));
        lemma_tokens_single(a.drop_first());
        let rest = spec_tokens(a.drop_first());
        assert(rest == seq![a.drop_first()]);
        assert(rest.drop_first() =~~= Seq::<Seq<char>>::empty());
        assert(seq![a[0]] + rest[0] =~= a);
        assert(spec_tokens(a) =~~= seq![a]);
    }
}

/// Splitting at the first space: a space-free prefix becomes the first
/// token and the rest is split on its own.
pub proof fn lemma_tokens_split_at_space(a: Seq<char>, b: Seq<char>)
    requires
        spec_token_space_free(a),
    ensures
        spec_tokens(a + seq![' '] + b) == seq![a] + spec_tokens(b),
    decreases a.len(),
{
    let s = a + seq![' '] + b;
    if a.len() == 0 {
        assert(s[0] == ' ');
        assert(s.drop_first() =~= b);
        assert(spec_tokens(s) == seq![Seq::<char>::empty()] + spec_tokens(b));
        assert(a =~= Seq::<char>::empty());
        assert(spec_tokens(s) =~~= seq![a] + spec_tokens(b));
    } else {
        assert(s[0] == a[0]);
        assert(a[0] != ' ');
        assert(spec_token_space_free(a.drop_first()));
        lemma_tokens_split_at_space(a.drop_first(), b);
        assert(s.drop_first() =~= a.drop_first() + seq![' '] + b);
        let rest = spec_tokens(s.drop_first());
        assert(rest == seq![a.drop_first()] + spec_tokens(b));
        assert(rest[0] == a.drop_first());
        assert(seq![s[0]] + rest[0] =~= a);
        assert(rest.drop_first() =~~= spec_tokens(b));
        assert(spec_tokens(s) =~~= seq![a] + spec_tokens(b));
    }
}

/// Splitting undoes joining: the tokens of a space-joined list of
/// space-free tokens are that list.
pub proof fn lemma_tokens_of_join(ts: Seq<Seq<char>>)
    requires
        ts.len() >= 1,
        forall|i: int| 0 <= i < ts.len() ==> spec_token_space_free(#[trigger] ts[i]),
    ensures
        spec_tokens(spec_join_tokens(ts)) == ts,
    decreases ts.len(),
{
    if ts.len() == 1 {
        assert(spec_join_tokens(ts) == ts[0]);
        lemma_tokens_single(ts[0]);
        assert(spec_tokens(spec_join_tokens(ts)) =~~= ts);
    } else {
        assert(forall|i: int|
            0 <= i < ts.drop_first().len() ==> spec_token_space_free(
                #[trigger] ts.drop_first()[i],
            ));
        lemma_tokens_of_join(ts.drop_first());
        lemma_tokens_split_at_space(ts[0], spec_join_tokens(ts.drop_first()));
        assert(spec_join_tokens(ts) == ts[0] + seq![' '] + spec_join_tokens(ts.drop_first()));
        assert(spec_tokens(spec_join_tokens(ts)) == seq![ts[0]] + ts.drop_first());
        assert(seq![ts[0]] + ts.drop_first() =~~= ts);
    }
}

/// The views of a vector of strings.
pub open spec fn spec_str_views(v: Seq<String>) -> Seq<Seq<char>> {
    v.map_values(|t: String| t@)
}

/// Splits a line into its space-separated tokens.
pub(crate) fn split_line(s: &str) -> (r: Vec<String>)
    ensures
        spec_str_views(r@) == spec_tokens(s@),
        r@.len() >= 1,
{
    let n = s.unicode_len();
    let mut toks: Vec<String> = Vec::new();
    let mut start: usize = 0;
    let mut i: usize = 0;
    proof {
        assert(s@.skip(0) =~= s@);
        assert(spec_str_views(toks@) + spec_tokens(s@.skip(0)) =~~= spec_tokens(s@));
    }
    while i < n
        invariant
            start <= i <= n,
            n == s@.len(),
            forall|j: int| start <= j < i ==> s@[j] != ' ',
            spec_tokens(s@) == spec_str_views(toks@) + spec_tokens(s@.skip(start as int)),
        decreases n - i,
    {
        if s.get_char(i) == ' ' {
            let tok = s.substring_char(start, i).to_owned();
            proof {
                let a = s@.subrange(start as int, i as int);
                let b = s@.skip(i as int + 1);
                assert(spec_token_space_free(a));
                assert(s@.skip(start as int) =~= a + seq![' '] + b);
                lemma_tokens_split_at_space(a, b);
                assert(spec_str_views(toks@.push(tok)) =~= spec_str_views(toks@) + seq![a]);
                assert(spec_str_views(toks@) + (seq![a] + spec_tokens(b)) =~= (spec_str_views(
                    toks@,
                ) + seq![a]) + spec_tokens(b));
            }
            toks.push(tok);
            start = i + 1;
        }
        i = i + 1;
    }
    let tok = s.substring_char(start, n).to_owned();
    proof {
        let a = s@.skip(start as int);
        assert(s@.subrange(start as int, n as int) =~= a);
        assert(spec_token_space_free(a));
        lemma_tokens_single(a);
        assert(spec_str_views(toks@.push(tok)) =~= spec_str_views(toks@) + seq![a]);
    }
    toks.push(tok);
    proof {
        lemma_tokens_len(s@);
    }
    toks
}

/// The token has the shape of an ISO calendar date: ten characters,
/// `DDDD-DD-DD` with `D` a decimal digit.
pub open spec fn spec_date_shaped(t: Seq<char>) -> bool {
    &&& t.len() == 10
    &&& spec_is_digit(t[0])
    &&& spec_is_digit(t[1])
    &&& spec_is_digit(t[2])
    &&& spec_is_digit(t[3])
    &&& t[4] == '-'
    &&& spec_is_digit(t[5])
    &&& spec_is_digit(t[6])
    &&& t[7] == '-'
    &&& spec_is_digit(t[8])
    &&& spec_is_digit(t[9])
}

/// The year a date-shaped token names.
pub open spec fn spec_token_year(t: Seq<char>) -> int {
    spec_digit_val(t[0]) * 1000 + spec_digit_val(t[1]) * 100 + spec_digit_val(t[2]) * 10
        + spec_digit_val(t[3])
}

/// The month a date-shaped token names.
pub open spec fn spec_token_month(t: Seq<char>) -> int {
    spec_digit_val(t[5]) * 10 + spec_digit_val(t[6])
}

/// The day a date-shaped token names.
pub open spec fn spec_token_day(t: Seq<char>) -> int {
    spec_digit_val(t[8]) * 10 + spec_digit_val(t[9])
}

/// The calendar date a token names: a date-shaped token whose fields form
/// a valid calendar day, and nothing else.
pub open spec fn spec_token_to_date(t: Seq<char>) -> Option<Date> {
    if spec_date_shaped(t) {
        let d = Date {
            year: spec_token_year(t) as u16,
            month: spec_token_month(t) as u8,
            day: spec_token_day(t) as u8,
        };
        if d.wf() {
            Some(d)
        } else {
            None
        }
    } else {
        None
    }
}

/// Whether the token has the shape of an ISO calendar date.
pub(crate) fn date_shaped(t: &str) -> (r: bool)
    ensures
        r == spec_date_shaped(t@),
{
    if t.unicode_len() != 10 {
        return false;
    }
    is_digit(t.get_char(0)) && is_digit(t.get_char(1)) && is_digit(t.get_char(2)) && is_digit(
        t.get_char(3),
    ) && t.get_char(4) == '-' && is_digit(t.get_char(5)) && is_digit(t.get_char(6)) && t.get_char(7)
        == '-' && is_digit(t.get_char(8)) && is_digit(t.get_char(9))
}

/// The calendar date a token names, if it names one.
pub(crate) fn token_to_date(t: &str) -> (r: Option<Date>)
    ensures
        r == spec_token_to_date(t@),
{
    if !date_shaped(t) {
        return None;
    }
    let y: u16 = digit_val(t.get_char(0)) as u16 * 1000 + digit_val(t.get_char(1)) as u16 * 100
        + digit_val(t.get_char(2)) as u16 * 10 + digit_val(t.get_char(3)) as u16;
    let m: u8 = digit_val(t.get_char(5)) * 10 + digit_val(t.get_char(6));
    let d: u8 = digit_val(t.get_char(8)) * 10 + digit_val(t.get_char(9));
    Date::new(y, m, d)
}

/// How many characters of `t` are colons.
pub open spec fn spec_colon_count(t: Seq<char>) -> int
    decreases t.len(),
{
    if t.len() == 0 {
        0
    } else {
        spec_colon_count(t.drop_last()) + if t.last() == ':' {
            1int
        } else {
            0int
        }
    }
}

/// The index of the first colon of `t` (its length when it has none).
pub open spec fn spec_first_colon(t: Seq<char>) -> int
    decreases t.len(),
{
    if t.len() == 0 {
        0
    } else if t[0] == ':' {
        0
    } else {
        1 + spec_first_colon(t.drop_first())
    }
}

/// A metadata token: exactly one colon, with text on both sides.
pub open spec fn spec_is_meta_token(t: Seq<char>) -> bool {
    &&& spec_colon_count(t) == 1
    &&& 0 < spec_first_colon(t)
    &&& spec_first_colon(t) < t.len() - 1
}

/// The key of a metadata token: what stands before its colon.
pub open spec fn spec_meta_key(t: Seq<char>) -> Seq<char> {
    t.take(spec_first_colon(t))
}

/// The value of a metadata token: what stands after its colon.
pub open spec fn spec_meta_val(t: Seq<char>) -> Seq<char> {
    t.skip(spec_first_colon(t) + 1)
}

/// A colon at `i` with none before it is the first colon.
pub proof fn lemma_first_colon_at(t: Seq<char>, i: int)
    requires
        0 <= i < t.len(),
        t[i] == ':',
        forall|j: int| 0 <= j < i ==> t[j] != ':',
    ensures
        spec_first_colon(t) == i,
    decreases t.len(),
{
    if i > 0 {
        lemma_first_colon_at(t.drop_first(), i - 1);
    }
}

/// A text without colons has its first colon at its length.
pub proof fn lemma_first_colon_none(t: Seq<char>)
    requires
        forall|j: int| 0 <= j < t.len() ==> t[j] != ':',
    ensures
        spec_first_colon(t) == t.len(),
    decreases t.len(),
{
    if t.len() > 0 {
        lemma_first_colon_none(t.drop_first());
    }
}

/// Splits a metadata token into its key and its value; any other token is
/// refused.
pub(crate) fn classify_meta(t: &str) -> (r: Option<(String, String)>)
    ensures
        match r {
            Some(kv) => spec_is_meta_token(t@) && kv.0@ == spec_meta_key(t@) && kv.1@
                == spec_meta_val(t@),
            None => !spec_is_meta_token(t@),
        },
{
    let n = t.unicode_len();
    let mut count: usize = 0;
    let mut first: usize = n;
    let mut i: usize = 0;
    proof {
        assert(t@.take(0) =~= Seq::<char>::empty());
    }
    while i < n
        invariant
            i <= n,
            n == t@.len(),
            count <= i,
            count == spec_colon_count(t@.take(i as int)),
            count == 0 ==> first == n && (forall|j: int| 0 <= j < i ==> t@[j] != ':'),
            count > 0 ==> first < i && t@[first as int] == ':' && (forall|j: int|
                0 <= j < first ==> t@[j] != ':'),
        decreases n - i,
    {
        proof {
            assert(t@.take(i as int + 1).drop_last() =~= t@.take(i as int));
            assert(t@.take(i as int + 1).last() == t@[i as int]);
        }
        if t.get_char(i) == ':' {
            if count == 0 {
                first = i;
            }
            count = count + 1;
        }
        i = i + 1;
    }
    proof {
        assert(t@.take(n as int) =~= t@);
    }
    if count == 1 && first > 0 && first + 1 < n {
        proof {
            lemma_first_colon_at(t@, first as int);
        }
        let key = t.substring_char(0, first).to_owned();
        let val = t.substring_char(first + 1, n).to_owned();
        proof {
            assert(t@.subrange(0, first as int) =~= spec_meta_key(t@));
            assert(t@.subrange(first as int + 1, n as int) =~= spec_meta_val(t@));
        }
        Some((key, val))
    } else {
        proof {
            if count == 0 {
                lemma_first_colon_none(t@);
            } else if count == 1 {
                lemma_first_colon_at(t@, first as int);
            }
        }
        None
    }
}

/// Every character of `t` is a decimal digit.
pub open spec fn spec_all_digits(t: Seq<char>) -> bool {
    forall|i: int| 0 <= i < t.len() ==> spec_is_digit(#[trigger] t[i])
}

/// The number a string of digits names.
pub open spec fn spec_digits_val(t: Seq<char>) -> int
    decreases t.len(),
{
    if t.len() == 0 {
        0
    } else {
        spec_digits_val(t.drop_last()) * 10 + spec_digit_val(t.last())
    }
}

/// A string of digits names a nonnegative number.
pub proof fn lemma_digits_val_nonneg(t: Seq<char>)
    requires
        spec_all_digits(t),
    ensures
        spec_digits_val(t) >= 0,
    decreases t.len(),
{
    if t.len() > 0 {
        assert(spec_all_digits(t.drop_last()));
        lemma_digits_val_nonneg(t.drop_last());
    }
}

/// A prefix of a digit string names at most the whole string's number.
pub proof fn lemma_digits_val_prefix(t: Seq<char>, k: int)
    requires
        spec_all_digits(t),
        0 <= k <= t.len(),
    ensures
        spec_digits_val(t.take(k)) <= spec_digits_val(t),
    decreases t.len(),
{
    if k == t.len() {
        assert(t.take(k) =~= t);
    } else {
        assert(t.drop_last().take(k) =~= t.take(k));
        assert(spec_all_digits(t.drop_last()));
        lemma_digits_val_prefix(t.drop_last(), k);
        lemma_digits_val_nonneg(t.drop_last());
    }
}

/// Reads a nonempty all-digit token as a number, refusing anything else
/// and any number too large for 32 bits.
pub(crate) fn parse_u32_digits(t: &str) -> (r: Option<u32>)
    ensures
        match r {
            Some(v) => t@.len() > 0 && spec_all_digits(t@) && v == spec_digits_val(t@),
            None => !(t@.len() > 0 && spec_all_digits(t@) && spec_digits_val(t@) <= u32::MAX),
        },
{
    let n = t.unicode_len();
    if n == 0 {
        return None;
    }
    let mut acc: u64 = 0;
    let mut i: usize = 0;
    proof {
        assert(t@.take(0) =~= Seq::<char>::empty());
    }
    while i < n
        invariant
            i <= n,
            n == t@.len(),
            spec_all_digits(t@.take(i as int)),
            acc == spec_digits_val(t@.take(i as int)),
            acc <= u32::MAX,
        decreases n - i,
    {
        let c = t.get_char(i);
        proof {
            assert(t@.take(i as int + 1).drop_last() =~= t@.take(i as int));
            assert(t@.take(i as int + 1).last() == t@[i as int]);
        }
        if !is_digit(c) {
            return None;
        }
        let d = digit_val(c);
        acc = acc * 10 + d as u64;
        if acc > 0xffff_ffff {
            proof {
                assert(spec_digits_val(t@.take(i as int + 1)) == acc);
                if spec_all_digits(t@) {
                    lemma_digits_val_prefix(t@, i as int + 1);
                }
            }
            return None;
        }
        i = i + 1;
    }
    proof {
        assert(t@.take(n as int) =~= t@);
    }
    Some(acc as u32)
}

/// The characters of the reserved metadata key `due`.
pub open spec fn spec_due_key() -> Seq<char> {
    seq!['d', 'u', 'e']
}

/// The characters of the due value `today`.
pub open spec fn spec_today_word() -> Seq<char> {
    seq!['t', 'o', 'd', 'a', 'y']
}

/// The segment a scanned description token stands for: a context tag for
/// a leading `@`, a project tag for a leading `+`, literal text otherwise.
pub open spec fn spec_scan_seg(t: Seq<char>) -> TodoSegmentView {
    if t.len() > 0 && t[0] == '@' {
        TodoSegmentView::Tag(TodoTagView::Context(t.drop_first()))
    } else if t.len() > 0 && t[0] == '+' {
        TodoSegmentView::Tag(TodoTagView::Project(t.drop_first()))
    } else {
        TodoSegmentView::Text(t)
    }
}

/// Scans the remaining tokens into the metadata mapping and the
/// description: a token with exactly one inner colon is a metadata pair
/// (the last occurrence of a key wins), an all-whitespace token is
/// dropped, and every other token becomes a description segment.
pub open spec fn spec_scan(
    rem: Seq<Seq<char>>,
    meta: Seq<(Seq<char>, Seq<char>)>,
    desc: Seq<TodoSegmentView>,
) -> (Seq<(Seq<char>, Seq<char>)>, Seq<TodoSegmentView>)
    decreases rem.len(),
{
    if rem.len() == 0 {
        (meta, desc)
    } else {
        let t = rem[0];
        if spec_is_meta_token(t) {
            spec_scan(rem.drop_first(), spec_meta_insert(meta, spec_meta_key(t), spec_meta_val(t)), desc)
        } else if !spec_all_whitespace(t) {
            spec_scan(rem.drop_first(), meta, desc.push(spec_scan_seg(t)))
        } else {
            spec_scan(rem.drop_first(), meta, desc)
        }
    }
}

/// How the value of a `due:` metadata entry resolves, with `base` the
/// todo's creation day (or the current day when it has none):
/// `Ok(Some(d))` resolves the deadline to day `d`; `Ok(None)` leaves the
/// entry as ordinary metadata; an unparsable or out-of-range day offset
/// is a `BadDate` error.
pub open spec fn spec_resolve_due(v: Seq<char>, base: Date) -> Result<
    Option<Date>,
    TodoParseError,
> {
    if v == spec_today_word() {
        Ok(Some(base))
    } else if v.len() > 0 && v.last() == 'd' {
        let digits = v.drop_last();
        if digits.len() > 0 && spec_all_digits(digits) && spec_digits_val(digits) <= u32::MAX {
            match base.spec_add_days(spec_digits_val(digits) as nat) {
                Some(d) => Ok(Some(d)),
                None => Err(TodoParseError::BadDate),
            }
        } else {
            Err(TodoParseError::BadDate)
        }
    } else {
        Ok(spec_token_to_date(v))
    }
}

/// Parses the token list of a line (after the completion mark has been
/// taken off), with `today` the current calendar day.
pub open spec fn spec_parse_tokens(completed: bool, toks: Seq<Seq<char>>, today: Date) -> Result<
    TodoView,
    TodoParseError,
> {
    let pr = if toks.len() > 0 {
        spec_decode_priority(toks[0])
    } else {
        Err(InvalidPriorityError::MissingParens)
    };
    if pr == Err::<TodoPriority, InvalidPriorityError>(InvalidPriorityError::InvalidPriority) {
        Err(TodoParseError::BadPriority)
    } else {
        let priority = match pr {
            Ok(p) => p,
            Err(_) => TodoPriority::NoPriority,
        };
        let i1: int = if pr is Ok {
            1
        } else {
            0
        };
        if i1 < toks.len() && spec_date_shaped(toks[i1]) && spec_token_to_date(toks[i1]) is None {
            Err(TodoParseError::BadDate)
        } else {
            let first_date = i1 < toks.len() && spec_date_shaped(toks[i1]);
            let creation1 = if first_date {
                spec_token_to_date(toks[i1])
            } else {
                None
            };
            let i2: int = if first_date {
                i1 + 1
            } else {
                i1
            };
            if creation1 is Some && i2 < toks.len() && spec_date_shaped(toks[i2])
                && spec_token_to_date(toks[i2]) is None {
                Err(TodoParseError::BadDate)
            } else {
                let second_date = creation1 is Some && i2 < toks.len() && spec_date_shaped(
                    toks[i2],
                );
                let creation = if second_date {
                    spec_token_to_date(toks[i2])
                } else {
                    creation1
                };
                let completion = if second_date {
                    creation1
                } else {
                    None
                };
                let i3: int = if second_date {
                    i2 + 1
                } else {
                    i2
                };
                let scanned = spec_scan(
                    toks.skip(i3),
                    Seq::<(Seq<char>, Seq<char>)>::empty(),
                    Seq::<TodoSegmentView>::empty(),
                );
                let meta = scanned.0;
                let desc = scanned.1;
                match spec_meta_get(meta, spec_due_key()) {
                    None => Ok(
                        TodoView {
                            description: desc,
                            completed,
                            priority,
                            metadata: meta,
                            deadline: TodoDate::Never,
                            creation,
                            completion_date: completion,
                        },
                    ),
                    Some(v) => {
                        let base = match creation {
                            Some(c) => c,
                            None => today,
                        };
                        match spec_resolve_due(v, base) {
                            Err(e) => Err(e),
                            Ok(Some(d)) => Ok(
                                TodoView {
                                    description: desc,
                                    completed,
                                    priority,
                                    metadata: spec_meta_remove(meta, spec_due_key()),
                                    deadline: TodoDate::Day(d),
                                    creation,
                                    completion_date: completion,
                                },
                            ),
                            Ok(None) => Ok(
                                TodoView {
                                    description: desc,
                                    completed,
                                    priority,
                                    metadata: meta,
                                    deadline: TodoDate::Never,
                                    creation,
                                    completion_date: completion,
                                },
                            ),
                        }
                    },
                }
            }
        }
    }
}

/// Parses one line of text, with `today` the current calendar day: an
/// optional leading `x ` marks completion, and the rest of the line is
/// split on spaces and parsed token by token.
pub open spec fn spec_parse(s: Seq<char>, today: Date) -> Result<TodoView, TodoParseError> {
    if s.len() >= 2 && s[0] == 'x' && s[1] == ' ' {
        spec_parse_tokens(true, spec_tokens(s.skip(2)), today)
    } else {
        spec_parse_tokens(false, spec_tokens(s), today)
    }
}

/// Parses one line of text into a todo, resolving relative due dates
/// against `today`.
pub(crate) fn parse_line(s: &str, today: &Date) -> (r: Result<Todo, TodoParseError>)
    requires
        today.wf(),
    ensures
        match r {
            Ok(t) => spec_parse(s@, *today) == Ok::<TodoView, TodoParseError>(t@) && t@.dates_wf(),
            Err(e) => spec_parse(s@, *today) == Err::<TodoView, TodoParseError>(e),
        },
{
    let sn = s.unicode_len();
    let completed: bool = sn >= 2 && s.get_char(0) == 'x' && s.get_char(1) == ' ';
    let rest: &str = if completed {
        s.substring_char(2, sn)
    } else {
        s
    };
    proof {
        if completed {
            assert(s@.subrange(2, sn as int) =~= s@.skip(2));
        }
    }
    let ghost tv = spec_tokens(rest@);
    let toks = split_line(rest);
    proof {
        assert(tv[0] == toks@.map_values(|t: String| t@)[0]);
    }

    // Priority: the first token, when it is parenthesized.
    let mut priority: TodoPriority = TodoPriority::NoPriority;
    let mut idx: usize = 0;
    match crate::priority::TodoPriority::decode(toks[0].as_str()) {
        Ok(p) => {
            priority = p;
            idx = 1;
        },
        Err(InvalidPriorityError::InvalidPriority) => {
            return Err(TodoParseError::BadPriority);
        },
        Err(InvalidPriorityError::MissingParens) => {},
    }

    // Dates: one sets the creation date; a second demotes the first into
    // the completion date.
    let mut creation: Option<Date> = None;
    let mut completion: Option<Date> = None;
    proof {
        if idx < toks@.len() {
            assert(tv[idx as int] == toks@.map_values(|t: String| t@)[idx as int]);
        }
    }
    if idx < toks.len() && date_shaped(toks[idx].as_str()) {
        match token_to_date(toks[idx].as_str()) {
            Some(d) => {
                creation = Some(d);
                idx = idx + 1;
            },
            None => {
                return Err(TodoParseError::BadDate);
            },
        }
    }
    proof {
        if idx < toks@.len() {
            assert(tv[idx as int] == toks@.map_values(|t: String| t@)[idx as int]);
        }
    }
    if creation.is_some() && idx < toks.len() && date_shaped(toks[idx].as_str()) {
        match token_to_date(toks[idx].as_str()) {
            Some(d) => {
                completion = creation;
                creation = Some(d);
                idx = idx + 1;
            },
            None => {
                return Err(TodoParseError::BadDate);
            },
        }
    }

    // Scan: metadata pairs and description segments.
    let ghost i3 = idx as int;
    let mut meta = MetaMap::new();
    let mut desc: Vec<TodoSegment> = Vec::new();
    let n = toks.len();
    proof {
        assert(meta@ =~= Seq::<(Seq<char>, Seq<char>)>::empty());
        assert(desc.deep_view() =~= Seq::<TodoSegmentView>::empty());
    }
    while idx < n
        invariant
            i3 <= idx <= n,
            n == toks@.len(),
            tv == spec_str_views(toks@),
            spec_scan(tv.skip(i3), Seq::<(Seq<char>, Seq<char>)>::empty(), Seq::<TodoSegmentView>::empty())
                == spec_scan(tv.skip(idx as int), meta@, desc.deep_view()),
        decreases n - idx,
    {
        let ghost t = tv[idx as int];
        let ghost pre_meta = meta@;
        let ghost pre_desc = desc.deep_view();
        proof {
            assert(t == toks@.map_values(|x: String| x@)[idx as int]);
            assert(tv.skip(idx as int)[0] == t);
            assert(tv.skip(idx as int).drop_first() =~= tv.skip(idx as int + 1));
        }
        match classify_meta(toks[idx].as_str()) {
            Some((k, v)) => {
                meta.insert(k, v);
            },
            None => {
                if !all_whitespace(toks[idx].as_str()) {
                    proof {
                        assert(!spec_all_whitespace(t));
                        assert(t.len() > 0);
                    }
                    let nt = toks[idx].as_str().unicode_len();
                    let c0 = toks[idx].as_str().get_char(0);
                    if c0 == '@' {
                        let name = toks[idx].as_str().substring_char(1, nt).to_owned();
                        proof {
                            assert(t.subrange(1, t.len() as int) =~= t.drop_first());
                        }
                        desc.push(TodoSegment::Tag(TodoTag::Context(name)));
                    } else if c0 == '+' {
                        let name = toks[idx].as_str().substring_char(1, nt).to_owned();
                        proof {
                            assert(t.subrange(1, t.len() as int) =~= t.drop_first());
                        }
                        desc.push(TodoSegment::Tag(TodoTag::Project(name)));
                    } else {
                        desc.push(TodoSegment::Text(toks[idx].clone()));
                    }
                    proof {
                        assert(desc.deep_view() =~= pre_desc.push(spec_scan_seg(t)));
                    }
                }
            },
        }
        idx = idx + 1;
    }
    proof {
        assert(tv.skip(n as int) =~= Seq::<Seq<char>>::empty());
    }

    // The reserved `due` key is resolved out of the metadata.
    let due_key: String = "due".to_owned();
    proof {
        reveal_strlit("due");
        assert("due"@ =~= spec_due_key());
    }
    let mut due_val: Option<String> = None;
    match meta.get(&due_key) {
        Some(vr) => {
            due_val = Some(vr.clone());
        },
        None => {},
    }
    let mut deadline: TodoDate = TodoDate::Never;
    match due_val {
        None => {},
        Some(v) => {
            let base: Date = match &creation {
                Some(c) => *c,
                None => *today,
            };
            let today_word: String = "today".to_owned();
            proof {
                reveal_strlit("today");
                assert("today"@ =~= spec_today_word());
            }
            if v == today_word {
                deadline = TodoDate::Day(base);
                meta.remove(&due_key);
            } else {
                let vn = v.as_str().unicode_len();
                if vn > 0 && v.as_str().get_char(vn - 1) == 'd' {
                    let digits = v.as_str().substring_char(0, vn - 1);
                    proof {
                        assert(v@.subrange(0, vn as int - 1) =~= v@.drop_last());
                    }
                    match parse_u32_digits(digits) {
                        Some(offset) => {
                            match base.add_days(offset) {
                                Some(d) => {
                                    deadline = TodoDate::Day(d);
                                    meta.remove(&due_key);
                                },
                                None => {
                                    return Err(TodoParseError::BadDate);
                                },
                            }
                        },
                        None => {
                            return Err(TodoParseError::BadDate);
                        },
                    }
                } else {
                    match token_to_date(v.as_str()) {
                        Some(d) => {
                            deadline = TodoDate::Day(d);
                            meta.remove(&due_key);
                        },
                        None => {},
                    }
                }
            }
        },
    }

    Ok(
        Todo {
            description: TodoDescription(desc),
            completed,
            priority,
            metadata: meta,
            deadline,
            creation,
            completion_date: completion,
        },
    )
}

/// The metadata tokens of a map: one `key:value` token per entry, in
/// entry order.
pub open spec fn spec_meta_tokens(m: Seq<(Seq<char>, Seq<char>)>) -> Seq<Seq<char>> {
    m.map_values(|p: (Seq<char>, Seq<char>)| p.0 + seq![':'] + p.1)
}

/// The tokens of the text form of a todo, in order: the priority, the
/// completion date (written only beside a creation date), the creation
/// date, the description segments, the deadline, and the metadata pairs.
pub open spec fn spec_format_tokens(m: TodoView) -> Seq<Seq<char>> {
    (if m.priority != TodoPriority::NoPriority {
        seq![m.priority.spec_encode()]
    } else {
        Seq::<Seq<char>>::empty()
    }) + (match (m.creation, m.completion_date) {
        (Some(_), Some(c)) => seq![spec_date_chars(c)],
        _ => Seq::<Seq<char>>::empty(),
    }) + (match m.creation {
        Some(c) => seq![spec_date_chars(c)],
        None => Seq::<Seq<char>>::empty(),
    }) + spec_desc_tokens(m.description) + (if m.deadline != TodoDate::Never {
        seq![m.deadline.spec_encode()]
    } else {
        Seq::<Seq<char>>::empty()
    }) + spec_meta_tokens(m.metadata)
}

/// The text form of a todo: `x ` when it is completed, then its tokens
/// joined by single spaces.
pub open spec fn spec_format(m: TodoView) -> Seq<char> {
    (if m.completed {
        seq!['x', ' ']
    } else {
        Seq::<char>::empty()
    }) + spec_join_tokens(spec_format_tokens(m))
}

/// The token a description segment contributes to the text form.
fn seg_token_string(seg: &TodoSegment) -> (r: String)
    ensures
        r@ == spec_seg_token(seg@),
{
    let mut s = String::new();
    match seg {
        TodoSegment::Text(t) => {
            s.append(t.as_str());
        },
        TodoSegment::Tag(TodoTag::Project(n)) => {
            push_char(&mut s, '+');
            s.append(n.as_str());
        },
        TodoSegment::Tag(TodoTag::Context(n)) => {
            push_char(&mut s, '@');
            s.append(n.as_str());
        },
    }
    proof {
        assert(s@ =~= spec_seg_token(seg@));
    }
    s
}

/// The `key:value` token of one metadata entry.
fn meta_pair_token(k: &String, v: &String) -> (r: String)
    ensures
        r@ == k@ + seq![':'] + v@,
{
    let mut s = String::new();
    s.append(k.as_str());
    push_char(&mut s, ':');
    s.append(v.as_str());
    proof {
        assert(s@ =~= k@ + seq![':'] + v@);
    }
    s
}

/// The `YYYY-MM-DD` token of a date.
fn date_token(d: &Date) -> (r: String)
    requires
        d.year <= 9999,
        d.month <= 99,
        d.day <= 99,
    ensures
        r@ == spec_date_chars(*d),
{
    let mut s = String::new();
    push_date(&mut s, d);
    s
}

/// Joins tokens with single spaces.
fn join_tokens(v: &Vec<String>) -> (r: String)
    ensures
        r@ == spec_join_tokens(spec_str_views(v@)),
{
    let ghost toks = spec_str_views(v@);
    let mut s = String::new();
    let n = v.len();
    let mut i: usize = 0;
    while i < n
        invariant
            i <= n,
            n == v@.len(),
            toks == spec_str_views(v@),
            s@ == spec_join_tokens(toks.take(i as int)),
        decreases n - i,
    {
        proof {
            assert(toks[i as int] == v@.map_values(|t: String| t@)[i as int]);
            lemma_join_tokens_push(toks.take(i as int), toks[i as int]);
            assert(toks.take(i as int).push(toks[i as int]) =~~= toks.take(i as int + 1));
        }
        if i > 0 {
            push_char(&mut s, ' ');
        }
        s.append(v[i].as_str());
        proof {
            assert(s@ =~= spec_join_tokens(toks.take(i as int + 1)));
        }
        i = i + 1;
    }
    proof {
        assert(toks.take(n as int) =~~= toks);
    }
    s
}

/// The token list of the text form of a todo.
fn format_tokens(t: &Todo) -> (r: Vec<String>)
    requires
        t@.dates_wf(),
    ensures
        spec_str_views(r@) == spec_format_tokens(t@),
{
    let ghost c1: Seq<Seq<char>> = if t@.priority != TodoPriority::NoPriority {
        seq![t@.priority.spec_encode()]
    } else {
        Seq::<Seq<char>>::empty()
    };
    let ghost c2: Seq<Seq<char>> = match (t@.creation, t@.completion_date) {
        (Some(_), Some(c)) => seq![spec_date_chars(c)],
        _ => Seq::<Seq<char>>::empty(),
    };
    let ghost c3: Seq<Seq<char>> = match t@.creation {
        Some(c) => seq![spec_date_chars(c)],
        None => Seq::<Seq<char>>::empty(),
    };
    let ghost c4: Seq<Seq<char>> = spec_desc_tokens(t@.description);
    let ghost c5: Seq<Seq<char>> = if t@.deadline != TodoDate::Never {
        seq![t@.deadline.spec_encode()]
    } else {
        Seq::<Seq<char>>::empty()
    };
    let ghost c6: Seq<Seq<char>> = spec_meta_tokens(t@.metadata);

    let mut out: Vec<String> = Vec::new();
    if t.priority.is_some() {
        out.push(t.priority.encode());
    }
    proof {
        assert(spec_str_views(out@) =~~= c1);
    }
    if t.creation.is_some() {
        if let Some(c) = &t.completion_date {
            out.push(date_token(c));
        }
    }
    proof {
        assert(spec_str_views(out@) =~~= c1 + c2);
    }
    if let Some(c) = &t.creation {
        out.push(date_token(c));
    }
    proof {
        assert(spec_str_views(out@) =~~= c1 + c2 + c3);
    }
    let dn = t.description.0.len();
    let mut i: usize = 0;
    while i < dn
        invariant
            i <= dn,
            dn == t.description.0@.len(),
            c4 == spec_desc_tokens(t@.description),
            t@.description == t.description.0.deep_view(),
            spec_str_views(out@) == c1 + c2 + c3 + c4.take(i as int),
        decreases dn - i,
    {
        proof {
            assert(t@.description[i as int] == t.description.0@[i as int]@);
            assert(c4[i as int] == t@.description.map_values(
                |sv: TodoSegmentView| spec_seg_token(sv),
            )[i as int]);
        }
        let tok = seg_token_string(&t.description.0[i]);
        let ghost pre = out@;
        let ghost target = c1 + c2 + c3 + c4.take(i as int + 1);
        out.push(tok);
        proof {
            assert(out@ == pre.push(tok));
            assert(spec_str_views(pre).len() == target.len() - 1);
            assert forall|k: int| 0 <= k < out@.len() implies spec_str_views(out@)[k] == target[k] by {
                if k < pre.len() {
                    assert(out@[k] == pre[k]);
                    assert(spec_str_views(out@)[k] == pre[k]@);
                    assert(spec_str_views(pre)[k] == pre[k]@);
                    assert(spec_str_views(pre)[k] == (c1 + c2 + c3 + c4.take(i as int))[k]);
                    if k >= c1.len() + c2.len() + c3.len() {
                        assert(c4.take(i as int + 1)[k - c1.len() - c2.len() - c3.len()]
                            == c4.take(i as int)[k - c1.len() - c2.len() - c3.len()]);
                    }
                } else {
                    assert(out@[k] == tok);
                    assert(target[k] == c4[i as int]);
                }
            }
            assert(spec_str_views(out@) =~~= target);
        }
        i = i + 1;
    }
    proof {
        assert(c4.take(dn as int) =~~= c4);
    }
    if t.deadline.is_some() {
        out.push(t.deadline.encode());
    }
    proof {
        assert(spec_str_views(out@) =~~= c1 + c2 + c3 + c4 + c5);
    }
    let mn = t.metadata.data.len();
    let mut j: usize = 0;
    while j < mn
        invariant
            j <= mn,
            mn == t.metadata.data@.len(),
            c6 == spec_meta_tokens(t@.metadata),
            t@.metadata == t.metadata.data.deep_view(),
            spec_str_views(out@) == c1 + c2 + c3 + c4 + c5 + c6.take(j as int),
        decreases mn - j,
    {
        proof {
            assert(t@.metadata[j as int] == (t.metadata.data@[j as int].0@, t.metadata.data@[
                j as int].1@));
            assert(c6[j as int] == t@.metadata.map_values(
                |p: (Seq<char>, Seq<char>)| p.0 + seq![':'] + p.1,
            )[j as int]);
        }
        let tok = meta_pair_token(&t.metadata.data[j].0, &t.metadata.data[j].1);
        let ghost pre = out@;
        let ghost done = c1 + c2 + c3 + c4 + c5;
        let ghost target = done + c6.take(j as int + 1);
        out.push(tok);
        proof {
            assert(out@ == pre.push(tok));
            assert(spec_str_views(pre).len() == target.len() - 1);
            assert forall|k: int| 0 <= k < out@.len() implies spec_str_views(out@)[k] == target[k] by {
                if k < pre.len() {
                    assert(out@[k] == pre[k]);
                    assert(spec_str_views(out@)[k] == pre[k]@);
                    assert(spec_str_views(pre)[k] == pre[k]@);
                    assert(spec_str_views(pre)[k] == (done + c6.take(j as int))[k]);
                    if k >= done.len() {
                        assert(c6.take(j as int + 1)[k - done.len()] == c6.take(j as int)[k
                            - done.len()]);
                    }
                } else {
                    assert(out@[k] == tok);
                    assert(target[k] == c6[j as int]);
                }
            }
            assert(spec_str_views(out@) =~~= target);
        }
        j = j + 1;
    }
    proof {
        assert(c6.take(mn as int) =~~= c6);
        assert(spec_str_views(out@) =~~= spec_format_tokens(t@));
    }
    out
}

/// The segments of a new todo's title: every space-separated token, tags
/// by their sigil, all else literal text.
pub open spec fn spec_new_segments(title: Seq<char>) -> Seq<TodoSegmentView> {
    spec_tokens(title).map_values(|t: Seq<char>| spec_scan_seg(t))
}

/// Splits a title into description segments.
pub(crate) fn new_segments(title: &str) -> (r: Vec<TodoSegment>)
    ensures
        r.deep_view() == spec_new_segments(title@),
{
    let ghost target = spec_new_segments(title@);
    let toks = split_line(title);
    let ghost tv = spec_tokens(title@);
    let mut segs: Vec<TodoSegment> = Vec::new();
    let n = toks.len();
    let mut i: usize = 0;
    proof {
        assert(segs.deep_view() =~= target.take(0));
    }
    while i < n
        invariant
            i <= n,
            n == toks@.len(),
            tv == spec_str_views(toks@),
            target == spec_new_segments(title@),
            tv == spec_tokens(title@),
            segs.deep_view() == target.take(i as int),
        decreases n - i,
    {
        let ghost t = tv[i as int];
        let ghost pre = segs.deep_view();
        proof {
            assert(t == toks@.map_values(|x: String| x@)[i as int]);
            assert(target[i as int] == tv.map_values(|x: Seq<char>| spec_scan_seg(x))[i as int]);
        }
        let nt = toks[i].as_str().unicode_len();
        if nt > 0 && toks[i].as_str().get_char(0) == '@' {
            let name = toks[i].as_str().substring_char(1, nt).to_owned();
            proof {
                assert(t.subrange(1, t.len() as int) =~= t.drop_first());
            }
            segs.push(TodoSegment::Tag(TodoTag::Context(name)));
        } else if nt > 0 && toks[i].as_str().get_char(0) == '+' {
            let name = toks[i].as_str().substring_char(1, nt).to_owned();
            proof {
                assert(t.subrange(1, t.len() as int) =~= t.drop_first());
            }
            segs.push(TodoSegment::Tag(TodoTag::Project(name)));
        } else {
            segs.push(TodoSegment::Text(toks[i].clone()));
        }
        proof {
            assert(segs.deep_view() =~= pre.push(spec_scan_seg(t)));
            assert(pre.push(spec_scan_seg(t)) =~= target.take(i as int + 1));
        }
        i = i + 1;
    }
    proof {
        assert(target.take(n as int) =~= target);
    }
    segs
}

/// A styled element as one token: the content wrapped in its style and
/// the reset sequence, or bare when the style is empty.
fn wrap_token(style: &str, content: String, reset: &str) -> (r: String)
    ensures
        r@ == spec_wrap(style@, content@, reset@),
{
    if style.is_empty() {
        content
    } else {
        let mut s = String::new();
        s.append(style);
        s.append(content.as_str());
        s.append(reset);
        proof {
            assert(s@ =~= style@ + content@ + reset@);
        }
        s
    }
}

/// The styled tokens of a todo, in the same order as the plain tokens;
/// the metadata pairs stand styled as one group.
pub open spec fn spec_colored_tokens(m: TodoView, sch: StyleSchemeView, reset: Seq<char>) -> Seq<
    Seq<char>,
> {
    (if m.priority != TodoPriority::NoPriority {
        seq![spec_wrap(sch.priority, m.priority.spec_encode(), reset)]
    } else {
        Seq::<Seq<char>>::empty()
    }) + (match (m.creation, m.completion_date) {
        (Some(_), Some(c)) => seq![spec_wrap(sch.completion, spec_date_chars(c), reset)],
        _ => Seq::<Seq<char>>::empty(),
    }) + (match m.creation {
        Some(c) => seq![spec_wrap(sch.creation, spec_date_chars(c), reset)],
        None => Seq::<Seq<char>>::empty(),
    }) + m.description.map_values(|s: TodoSegmentView| spec_styled_seg(s, sch, reset)) + (
    if m.deadline != TodoDate::Never {
        seq![spec_wrap(sch.deadline, m.deadline.spec_encode(), reset)]
    } else {
        Seq::<Seq<char>>::empty()
    }) + (if m.metadata.len() > 0 {
        seq![spec_wrap(sch.metadata, spec_meta_encode(m.metadata), reset)]
    } else {
        Seq::<Seq<char>>::empty()
    })
}

/// A todo rendered with a style scheme: a completed todo is faded as a
/// whole and loses its resets; an open todo has each element wrapped in
/// its own style. The all-empty scheme renders the plain text form.
pub open spec fn spec_colored(m: TodoView, sv: StyleSchemeView) -> Seq<char> {
    let reset = if m.completed {
        Seq::<char>::empty()
    } else {
        spec_reset()
    };
    let sch = if m.completed {
        spec_faded_only(sv)
    } else {
        spec_defaded(sv)
    };
    (if m.completed {
        sch.faded + seq!['x', ' ']
    } else {
        Seq::<char>::empty()
    }) + spec_join_tokens(spec_colored_tokens(m, sch, reset))
}

/// The styled token list of a todo.
fn colored_tokens(t: &Todo, sch: StyleScheme<'_>, reset: &str) -> (r: Vec<String>)
    requires
        t@.dates_wf(),
    ensures
        spec_str_views(r@) == spec_colored_tokens(t@, sch@, reset@),
{
    let ghost c1: Seq<Seq<char>> = if t@.priority != TodoPriority::NoPriority {
        seq![spec_wrap(sch@.priority, t@.priority.spec_encode(), reset@)]
    } else {
        Seq::<Seq<char>>::empty()
    };
    let ghost c2: Seq<Seq<char>> = match (t@.creation, t@.completion_date) {
        (Some(_), Some(c)) => seq![spec_wrap(sch@.completion, spec_date_chars(c), reset@)],
        _ => Seq::<Seq<char>>::empty(),
    };
    let ghost c3: Seq<Seq<char>> = match t@.creation {
        Some(c) => seq![spec_wrap(sch@.creation, spec_date_chars(c), reset@)],
        None => Seq::<Seq<char>>::empty(),
    };
    let ghost c4: Seq<Seq<char>> = t@.description.map_values(
        |s: TodoSegmentView| spec_styled_seg(s, sch@, reset@),
    );
    let ghost c5: Seq<Seq<char>> = if t@.deadline != TodoDate::Never {
        seq![spec_wrap(sch@.deadline, t@.deadline.spec_encode(), reset@)]
    } else {
        Seq::<Seq<char>>::empty()
    };
    let ghost c6: Seq<Seq<char>> = if t@.metadata.len() > 0 {
        seq![spec_wrap(sch@.metadata, spec_meta_encode(t@.metadata), reset@)]
    } else {
        Seq::<Seq<char>>::empty()
    };

    let mut out: Vec<String> = Vec::new();
    if t.priority.is_some() {
        out.push(wrap_token(sch.priority, t.priority.encode(), reset));
    }
    proof {
        assert(spec_str_views(out@) =~~= c1);
    }
    if t.creation.is_some() {
        if let Some(c) = &t.completion_date {
            out.push(wrap_token(sch.completion, date_token(c), reset));
        }
    }
    proof {
        assert(spec_str_views(out@) =~~= c1 + c2);
    }
    if let Some(c) = &t.creation {
        out.push(wrap_token(sch.creation, date_token(c), reset));
    }
    proof {
        assert(spec_str_views(out@) =~~= c1 + c2 + c3);
    }
    let dn = t.description.0.len();
    let mut i: usize = 0;
    while i < dn
        invariant
            i <= dn,
            dn == t.description.0@.len(),
            c4 == t@.description.map_values(|s: TodoSegmentView| spec_styled_seg(s, sch@, reset@)),
            t@.description == t.description.0.deep_view(),
            spec_str_views(out@) == c1 + c2 + c3 + c4.take(i as int),
        decreases dn - i,
    {
        proof {
            assert(t@.description[i as int] == t.description.0@[i as int]@);
            assert(c4[i as int] == t@.description.map_values(
                |s: TodoSegmentView| spec_styled_seg(s, sch@, reset@),
            )[i as int]);
        }
        let tok = t.description.0[i].to_string(sch, reset);
        let ghost pre = out@;
        let ghost target = c1 + c2 + c3 + c4.take(i as int + 1);
        out.push(tok);
        proof {
            assert(out@ == pre.push(tok));
            assert(spec_str_views(pre).len() == target.len() - 1);
            assert forall|k: int| 0 <= k < out@.len() implies spec_str_views(out@)[k] == target[k] by {
                if k < pre.len() {
                    assert(out@[k] == pre[k]);
                    assert(spec_str_views(out@)[k] == pre[k]@);
                    assert(spec_str_views(pre)[k] == pre[k]@);
                    assert(spec_str_views(pre)[k] == (c1 + c2 + c3 + c4.take(i as int))[k]);
                    if k >= c1.len() + c2.len() + c3.len() {
                        assert(c4.take(i as int + 1)[k - c1.len() - c2.len() - c3.len()]
                            == c4.take(i as int)[k - c1.len() - c2.len() - c3.len()]);
                    }
                } else {
                    assert(out@[k] == tok);
                    assert(target[k] == c4[i as int]);
                }
            }
            assert(spec_str_views(out@) =~~= target);
        }
        i = i + 1;
    }
    proof {
        assert(c4.take(dn as int) =~~= c4);
    }
    if t.deadline.is_some() {
        out.push(wrap_token(sch.deadline, t.deadline.encode(), reset));
    }
    proof {
        assert(spec_str_views(out@) =~~= c1 + c2 + c3 + c4 + c5);
    }
    if !t.metadata.is_empty() {
        out.push(wrap_token(sch.metadata, t.metadata.encode(), reset));
    }
    proof {
        assert(spec_str_views(out@) =~~= c1 + c2 + c3 + c4 + c5 + c6);
        assert(spec_str_views(out@) =~~= spec_colored_tokens(t@, sch@, reset@));
    }
    out
}

/// The styled text form of a todo.
pub(crate) fn format_colored(t: &Todo, style: StyleScheme<'_>) -> (r: String)
    requires
        t@.dates_wf(),
    ensures
        r@ == spec_colored(t@, style@),
{
    let (reset, sch) = style.get_colors(t.completed);
    let toks = colored_tokens(t, sch, reset);
    let joined = join_tokens(&toks);
    let mut s = String::new();
    if t.completed {
        s.append(sch.faded);
        push_char(&mut s, 'x');
        push_char(&mut s, ' ');
    }
    s.append(joined.as_str());
    proof {
        assert(s@ =~= spec_colored(t@, style@));
    }
    s
}

/// No character of a date rendering is a space, a colon, or anything but
/// a digit or a hyphen; the rendering is date-shaped.
pub proof fn lemma_date_chars_props(d: Date)
    requires
        d.year <= 9999,
        d.month <= 99,
        d.day <= 99,
    ensures
        spec_date_chars(d).len() == 10,
        spec_date_shaped(spec_date_chars(d)),
        spec_token_space_free(spec_date_chars(d)),
        forall|i: int|
            0 <= i < spec_date_chars(d).len() ==> (#[trigger] spec_date_chars(d)[i]) != ':',
        spec_is_digit(spec_date_chars(d)[9]),
{
    let t = spec_date_chars(d);
    assert forall|n: int| 0 <= n <= 9 implies spec_is_digit(#[trigger] spec_digit_char(n))
        && spec_digit_char(n) != ' ' && spec_digit_char(n) != ':' by {
        crate::text::lemma_digit_char_val(n);
    }
    assert(t[0] == spec_digit_char(d.year as int / 1000));
    assert(t[1] == spec_digit_char((d.year as int / 100) % 10));
    assert(t[2] == spec_digit_char((d.year as int / 10) % 10));
    assert(t[3] == spec_digit_char(d.year as int % 10));
    assert(t[4] == '-');
    assert(t[5] == spec_digit_char(d.month as int / 10));
    assert(t[6] == spec_digit_char(d.month as int % 10));
    assert(t[7] == '-');
    assert(t[8] == spec_digit_char(d.day as int / 10));
    assert(t[9] == spec_digit_char(d.day as int % 10));
}

/// Reading the four year digits back yields the year.
proof fn lemma_four_digit_value(y: int)
    requires
        0 <= y <= 9999,
    ensures
        (y / 1000) * 1000 + ((y / 100) % 10) * 100 + ((y / 10) % 10) * 10 + y % 10 == y,
{
    assert((y / 1000) * 1000 + ((y / 100) % 10) * 100 + ((y / 10) % 10) * 10 + y % 10 == y)
        by (nonlinear_arith)
        requires
            0 <= y <= 9999,
    ;
}

/// A date rendering names the date it was rendered from.
pub proof fn lemma_date_round_trip(d: Date)
    requires
        d.wf(),
    ensures
        spec_token_to_date(spec_date_chars(d)) == Some(d),
{
    let t = spec_date_chars(d);
    lemma_date_chars_props(d);
    assert forall|n: int| 0 <= n <= 9 implies spec_digit_val(#[trigger] spec_digit_char(n))
        == n by {
        crate::text::lemma_digit_char_val(n);
    }
    lemma_four_digit_value(d.year as int);
    assert(spec_token_year(t) == d.year as int);
    assert(spec_token_month(t) == (d.month as int / 10) * 10 + d.month as int % 10);
    assert(spec_token_month(t) == d.month as int);
    assert(spec_token_day(t) == d.day as int);
    assert(spec_token_to_date(t) == Some(d));
}

/// A token holding a colon anywhere is not date-shaped.
pub proof fn lemma_colon_not_date_shaped(t: Seq<char>, p: int)
    requires
        0 <= p < t.len(),
        t[p] == ':',
    ensures
        !spec_date_shaped(t),
{
    if spec_date_shaped(t) {
        if p == 4 || p == 7 {
            assert(t[p] == '-');
            assert(false);
        } else {
            assert(spec_is_digit(t[p]));
            assert(false);
        }
    }
}

/// Colons in a concatenation are counted part by part.
pub proof fn lemma_colon_count_concat(a: Seq<char>, b: Seq<char>)
    ensures
        spec_colon_count(a + b) == spec_colon_count(a) + spec_colon_count(b),
    decreases b.len(),
{
    if b.len() == 0 {
        assert(a + b =~= a);
    } else {
        lemma_colon_count_concat(a, b.drop_last());
        assert((a + b).drop_last() =~= a + b.drop_last());
        assert((a + b).last() == b.last());
    }
}

/// A text without colons counts zero of them.
pub proof fn lemma_colon_count_zero(t: Seq<char>)
    requires
        forall|i: int| 0 <= i < t.len() ==> (#[trigger] t[i]) != ':',
    ensures
        spec_colon_count(t) == 0,
    decreases t.len(),
{
    if t.len() > 0 {
        lemma_colon_count_zero(t.drop_last());
    }
}

/// A metadata entry that can stand in a record: a nonempty key and a
/// nonempty value, free of spaces and colons, the key not the reserved
/// `due`.
pub open spec fn spec_meta_entry_wf(p: (Seq<char>, Seq<char>)) -> bool {
    &&& p.0.len() > 0
    &&& p.1.len() > 0
    &&& (forall|i: int| 0 <= i < p.0.len() ==> (#[trigger] p.0[i]) != ':' && p.0[i] != ' ')
    &&& (forall|i: int| 0 <= i < p.1.len() ==> (#[trigger] p.1[i]) != ':' && p.1[i] != ' ')
    &&& p.0 != spec_due_key()
}

/// The `key:value` token of a colon-free key and value scans back to
/// exactly that pair.
pub proof fn lemma_meta_token_props(k: Seq<char>, v: Seq<char>)
    requires
        k.len() > 0,
        v.len() > 0,
        forall|i: int| 0 <= i < k.len() ==> (#[trigger] k[i]) != ':' && k[i] != ' ',
        forall|i: int| 0 <= i < v.len() ==> (#[trigger] v[i]) != ':' && v[i] != ' ',
    ensures
        spec_is_meta_token(k + seq![':'] + v),
        spec_meta_key(k + seq![':'] + v) == k,
        spec_meta_val(k + seq![':'] + v) == v,
        spec_token_space_free(k + seq![':'] + v),
        !spec_date_shaped(k + seq![':'] + v),
{
    let t = k + seq![':'] + v;
    lemma_colon_count_zero(k);
    lemma_colon_count_zero(v);
    lemma_colon_count_concat(k, seq![':']);
    assert(spec_colon_count(seq![':']) == 1) by {
        let s = seq![':'];
        assert(s.drop_last() =~= Seq::<char>::empty());
        assert(spec_colon_count(Seq::<char>::empty()) == 0);
        assert(s.last() == ':');
        assert(spec_colon_count(s) == spec_colon_count(s.drop_last()) + 1);
    }
    lemma_colon_count_concat(k + seq![':'], v);
    assert(spec_colon_count(t) == 1);
    assert(t[k.len() as int] == ':');
    assert(forall|j: int| 0 <= j < k.len() ==> #[trigger] t[j] == k[j] && t[j] != ':');
    lemma_first_colon_at(t, k.len() as int);
    assert(spec_first_colon(t) == k.len());
    assert(0 < spec_first_colon(t) < t.len() - 1);
    assert(spec_meta_key(t) =~= k);
    assert(spec_meta_val(t) =~= v);
    assert(spec_token_space_free(t));
    lemma_colon_not_date_shaped(t, k.len() as int);
}

/// A priority rendering is wrapped in parentheses around an uppercase
/// letter, holds no space or colon, and decodes back to the priority.
pub proof fn lemma_priority_round_trip(p: TodoPriority)
    requires
        p != TodoPriority::NoPriority,
    ensures
        spec_decode_priority(p.spec_encode()) == Ok::<TodoPriority, InvalidPriorityError>(p),
        spec_token_space_free(p.spec_encode()),
        forall|i: int|
            0 <= i < p.spec_encode().len() ==> (#[trigger] p.spec_encode()[i]) != ':',
        p.spec_encode().len() == 3,
{
    let t = p.spec_encode();
    crate::priority::lemma_rank_of_letter(p);
    assert(t == seq!['(', p.spec_letter(), ')']);
    assert(t[0] == '(' && t[1] == p.spec_letter() && t[2] == ')');
    assert(crate::priority::spec_is_upper(t[1]));
    assert(spec_letter_to_priority(p.spec_letter()) == p);
}

/// A description segment that survives the scan: its token holds no
/// space, is not all whitespace, is not a metadata token, and — for
/// literal text — does not open with a tag sigil.
pub open spec fn spec_seg_round_trips(s: TodoSegmentView) -> bool {
    let t = spec_seg_token(s);
    &&& spec_token_space_free(t)
    &&& !spec_all_whitespace(t)
    &&& !spec_is_meta_token(t)
    &&& (s matches TodoSegmentView::Text(x) ==> t.len() > 0 && t[0] != '@' && t[0] != '+')
}

/// Scanning the token of such a segment yields the segment back.
pub proof fn lemma_seg_round_trip(s: TodoSegmentView)
    requires
        spec_seg_round_trips(s),
    ensures
        spec_scan_seg(spec_seg_token(s)) == s,
{
    let t = spec_seg_token(s);
    match s {
        TodoSegmentView::Text(_) => {},
        TodoSegmentView::Tag(TodoTagView::Project(n)) => {
            assert(t == seq!['+'] + n);
            assert(t[0] == '+');
            assert(t.drop_first() =~= n);
        },
        TodoSegmentView::Tag(TodoTagView::Context(n)) => {
            assert(t == seq!['@'] + n);
            assert(t[0] == '@');
            assert(t.drop_first() =~= n);
        },
    }
}

/// Scanning token lists one after the other scans their concatenation.
pub proof fn lemma_scan_split(
    rem1: Seq<Seq<char>>,
    rem2: Seq<Seq<char>>,
    meta: Seq<(Seq<char>, Seq<char>)>,
    desc: Seq<TodoSegmentView>,
)
    ensures
        spec_scan(rem1 + rem2, meta, desc) == ({
            let mid = spec_scan(rem1, meta, desc);
            spec_scan(rem2, mid.0, mid.1)
        }),
    decreases rem1.len(),
{
    if rem1.len() == 0 {
        assert(rem1 + rem2 =~= rem2);
    } else {
        assert((rem1 + rem2)[0] == rem1[0]);
        assert((rem1 + rem2).drop_first() =~= rem1.drop_first() + rem2);
        let t = rem1[0];
        if spec_is_meta_token(t) {
            lemma_scan_split(
                rem1.drop_first(),
                rem2,
                spec_meta_insert(meta, spec_meta_key(t), spec_meta_val(t)),
                desc,
            );
        } else if !spec_all_whitespace(t) {
            lemma_scan_split(rem1.drop_first(), rem2, meta, desc.push(spec_scan_seg(t)));
        } else {
            lemma_scan_split(rem1.drop_first(), rem2, meta, desc);
        }
    }
}

/// Scanning the tokens of round-tripping segments appends exactly those
/// segments and touches no metadata.
pub proof fn lemma_scan_desc(
    segs: Seq<TodoSegmentView>,
    meta: Seq<(Seq<char>, Seq<char>)>,
    desc: Seq<TodoSegmentView>,
)
    requires
        forall|i: int| 0 <= i < segs.len() ==> spec_seg_round_trips(#[trigger] segs[i]),
    ensures
        spec_scan(spec_desc_tokens(segs), meta, desc) == (meta, desc + segs),
    decreases segs.len(),
{
    let toks = spec_desc_tokens(segs);
    if segs.len() == 0 {
        assert(toks =~~= Seq::<Seq<char>>::empty());
        assert(desc + segs =~= desc);
    } else {
        let s0 = segs[0];
        assert(toks[0] == spec_seg_token(s0));
        lemma_seg_round_trip(s0);
        assert(toks.drop_first() =~~= spec_desc_tokens(segs.drop_first()));
        lemma_scan_desc(segs.drop_first(), meta, desc.push(s0));
        assert(desc.push(s0) + segs.drop_first() =~= desc + segs);
    }
}

/// Scanning `key:value` tokens of fresh, distinct keys appends the pairs
/// in order and adds no description segment.
pub proof fn lemma_scan_meta(
    pairs: Seq<(Seq<char>, Seq<char>)>,
    meta: Seq<(Seq<char>, Seq<char>)>,
    desc: Seq<TodoSegmentView>,
)
    requires
        forall|i: int| 0 <= i < pairs.len() ==> spec_meta_entry_wf(#[trigger] pairs[i]),
        forall|i: int, j: int| 0 <= i < j < pairs.len() ==> pairs[i].0 != pairs[j].0,
        forall|i: int, j: int|
            0 <= i < pairs.len() && 0 <= j < meta.len() ==> (#[trigger] meta[j]).0 != (
            #[trigger] pairs[i]).0,
    ensures
        spec_scan(spec_meta_tokens(pairs), meta, desc) == (meta + pairs, desc),
    decreases pairs.len(),
{
    let toks = spec_meta_tokens(pairs);
    if pairs.len() == 0 {
        assert(toks =~~= Seq::<Seq<char>>::empty());
        assert(meta + pairs =~= meta);
    } else {
        let p0 = pairs[0];
        assert(spec_meta_entry_wf(p0));
        lemma_meta_token_props(p0.0, p0.1);
        assert(toks[0] == p0.0 + seq![':'] + p0.1);
        assert(spec_is_meta_token(toks[0]));
        assert(forall|j: int| 0 <= j < meta.len() ==> (#[trigger] meta[j]).0 != p0.0);
        crate::helper::lemma_meta_insert_absent(meta, p0.0, p0.1);
        assert(toks.drop_first() =~~= spec_meta_tokens(pairs.drop_first()));
        lemma_scan_meta(pairs.drop_first(), meta.push(p0), desc);
        assert(meta.push(p0) + pairs.drop_first() =~= meta + pairs);
    }
}

/// The deadline token `due:YYYY-MM-DD` is a metadata token under the
/// reserved key, free of spaces, and not date-shaped.
pub proof fn lemma_deadline_token_props(d: Date)
    requires
        d.year <= 9999,
        d.month <= 99,
        d.day <= 99,
    ensures
        spec_is_meta_token(spec_due_prefix() + spec_date_chars(d)),
        spec_meta_key(spec_due_prefix() + spec_date_chars(d)) == spec_due_key(),
        spec_meta_val(spec_due_prefix() + spec_date_chars(d)) == spec_date_chars(d),
        spec_token_space_free(spec_due_prefix() + spec_date_chars(d)),
        !spec_date_shaped(spec_due_prefix() + spec_date_chars(d)),
{
    lemma_date_chars_props(d);
    let k = spec_due_key();
    let v = spec_date_chars(d);
    assert(k.len() == 3 && k[0] == 'd' && k[1] == 'u' && k[2] == 'e');
    assert(forall|i: int| 0 <= i < k.len() ==> (#[trigger] k[i]) != ':' && k[i] != ' ');
    lemma_meta_token_props(k, v);
    assert(spec_due_prefix() + spec_date_chars(d) =~= k + seq![':'] + v);
}

/// The canonical family of todos: those whose text form parses back to
/// the very same todo. It asks that dates be valid; that a completion
/// date only stand beside a creation date; that the deadline be a day or
/// absent; that description segments and metadata entries survive the
/// scan; that metadata keys be distinct; and that the leading tokens not
/// masquerade as a completion mark, a priority or a date they are not.
pub open spec fn spec_canonical(m: TodoView) -> bool {
    let fts = spec_format_tokens(m);
    let j: int = if m.priority != TodoPriority::NoPriority {
        1
    } else {
        0
    };
    &&& m.dates_wf()
    &&& (m.completion_date is Some ==> m.creation is Some)
    &&& !(m.deadline is Always)
    &&& (forall|i: int|
        0 <= i < m.description.len() ==> spec_seg_round_trips(#[trigger] m.description[i]))
    &&& (forall|i: int| 0 <= i < m.metadata.len() ==> spec_meta_entry_wf(#[trigger] m.metadata[i]))
    &&& (forall|i: int, k: int|
        0 <= i < k < m.metadata.len() ==> (#[trigger] m.metadata[i]).0 != (
        #[trigger] m.metadata[k]).0)
    &&& (m.priority == TodoPriority::NoPriority && fts.len() > 0 ==> spec_decode_priority(fts[0])
        == Err::<TodoPriority, InvalidPriorityError>(InvalidPriorityError::MissingParens))
    &&& (m.creation is None && j < fts.len() ==> !spec_date_shaped(fts[j]))
    &&& (m.creation is Some && m.completion_date is None && j + 1 < fts.len()
        ==> !spec_date_shaped(fts[j + 1]))
    &&& (!m.completed ==> !(spec_format(m).len() >= 2 && spec_format(m)[0] == 'x'
        && spec_format(m)[1] == ' '))
}

/// The metadata mapping as it stands right after the scan: the deadline
/// token's entry, if any, followed by the todo's own entries.
pub open spec fn spec_meta0(m: TodoView) -> Seq<(Seq<char>, Seq<char>)> {
    match m.deadline {
        TodoDate::Day(d) => seq![(spec_due_key(), spec_date_chars(d))],
        _ => Seq::<(Seq<char>, Seq<char>)>::empty(),
    }
}

/// How many tokens stand before the description: the priority and the
/// dates.
pub open spec fn spec_head_len(m: TodoView) -> int {
    (if m.priority != TodoPriority::NoPriority {
        1int
    } else {
        0int
    }) + (match (m.creation, m.completion_date) {
        (Some(_), Some(_)) => 2int,
        (Some(_), None) => 1int,
        _ => 0int,
    })
}

/// Every token of a canonical todo's text form is free of spaces.
#[verifier::rlimit(100)]
pub proof fn lemma_canonical_tokens_space_free(m: TodoView)
    requires
        spec_canonical(m),
    ensures
        forall|i: int|
            0 <= i < spec_format_tokens(m).len() ==> spec_token_space_free(
                #[trigger] spec_format_tokens(m)[i],
            ),
{
    let fts = spec_format_tokens(m);
    let c1: Seq<Seq<char>> = if m.priority != TodoPriority::NoPriority {
        seq![m.priority.spec_encode()]
    } else {
        Seq::<Seq<char>>::empty()
    };
    let c2: Seq<Seq<char>> = match (m.creation, m.completion_date) {
        (Some(_), Some(c)) => seq![spec_date_chars(c)],
        _ => Seq::<Seq<char>>::empty(),
    };
    let c3: Seq<Seq<char>> = match m.creation {
        Some(c) => seq![spec_date_chars(c)],
        None => Seq::<Seq<char>>::empty(),
    };
    let c4: Seq<Seq<char>> = spec_desc_tokens(m.description);
    let c5: Seq<Seq<char>> = if m.deadline != TodoDate::Never {
        seq![m.deadline.spec_encode()]
    } else {
        Seq::<Seq<char>>::empty()
    };
    let c6: Seq<Seq<char>> = spec_meta_tokens(m.metadata);
    assert(fts == c1 + c2 + c3 + c4 + c5 + c6);
    let n1 = c1.len() as int;
    let n2 = c2.len() as int;
    let n3 = c3.len() as int;
    let n4 = c4.len() as int;
    let n5 = c5.len() as int;
    if m.priority != TodoPriority::NoPriority {
        lemma_priority_round_trip(m.priority);
    }
    match m.completion_date {
        Some(c) => lemma_date_chars_props(c),
        None => {},
    }
    match m.creation {
        Some(c) => lemma_date_chars_props(c),
        None => {},
    }
    match m.deadline {
        TodoDate::Day(d) => {
            lemma_deadline_token_props(d);
            assert(m.deadline.spec_encode() == spec_due_prefix() + spec_date_chars(d));
        },
        _ => {},
    }
    assert forall|i: int| 0 <= i < m.metadata.len() implies spec_token_space_free(
        #[trigger] c6[i],
    ) by {
        assert(spec_meta_entry_wf(m.metadata[i]));
        lemma_meta_token_props(m.metadata[i].0, m.metadata[i].1);
        assert(c6[i] == m.metadata[i].0 + seq![':'] + m.metadata[i].1);
    }
    assert forall|i: int| 0 <= i < fts.len() implies spec_token_space_free(#[trigger] fts[i]) by {
        if i < n1 {
            assert(fts[i] == c1[0]);
        } else if i < n1 + n2 {
            assert(fts[i] == c2[0]);
        } else if i < n1 + n2 + n3 {
            assert(fts[i] == c3[0]);
        } else if i < n1 + n2 + n3 + n4 {
            assert(fts[i] == c4[i - n1 - n2 - n3]);
            assert(c4[i - n1 - n2 - n3] == spec_seg_token(m.description[i - n1 - n2 - n3]));
            assert(spec_seg_round_trips(m.description[i - n1 - n2 - n3]));
        } else if i < n1 + n2 + n3 + n4 + n5 {
            assert(fts[i] == c5[0]);
        } else {
            assert(fts[i] == c6[i - n1 - n2 - n3 - n4 - n5]);
        }
    }
}

/// Scanning the tokens after the priority and the dates rebuilds the
/// description and the metadata, the deadline token's entry in front.
#[verifier::rlimit(100)]
pub proof fn lemma_canonical_scan(m: TodoView)
    requires
        spec_canonical(m),
    ensures
        spec_scan(
            spec_format_tokens(m).skip(spec_head_len(m)),
            Seq::<(Seq<char>, Seq<char>)>::empty(),
            Seq::<TodoSegmentView>::empty(),
        ) == (spec_meta0(m) + m.metadata, m.description),
{
    let fts = spec_format_tokens(m);
    let c4: Seq<Seq<char>> = spec_desc_tokens(m.description);
    let c5: Seq<Seq<char>> = if m.deadline != TodoDate::Never {
        seq![m.deadline.spec_encode()]
    } else {
        Seq::<Seq<char>>::empty()
    };
    let c6: Seq<Seq<char>> = spec_meta_tokens(m.metadata);
    assert(fts.skip(spec_head_len(m)) =~~= c4 + (c5 + c6));
    let e_m = Seq::<(Seq<char>, Seq<char>)>::empty();
    let e_d = Seq::<TodoSegmentView>::empty();
    lemma_scan_split(c4, c5 + c6, e_m, e_d);
    lemma_scan_desc(m.description, e_m, e_d);
    assert(e_d + m.description =~= m.description);
    assert(spec_scan(c4, e_m, e_d) == (e_m, m.description));
    let meta0 = spec_meta0(m);
    match m.deadline {
        TodoDate::Day(d) => {
            lemma_deadline_token_props(d);
            let duetok = m.deadline.spec_encode();
            assert(duetok == spec_due_prefix() + spec_date_chars(d));
            assert(c5 == seq![duetok]);
            assert((c5 + c6)[0] == duetok);
            assert(spec_is_meta_token(duetok));
            assert(spec_meta_insert(e_m, spec_due_key(), spec_date_chars(d)) =~= meta0);
            assert((c5 + c6).drop_first() =~~= c6);
            assert(spec_scan(c5 + c6, e_m, m.description) == spec_scan(c6, meta0, m.description));
        },
        TodoDate::Never => {
            assert(c5 + c6 =~~= c6);
            assert(meta0 =~= e_m);
        },
        TodoDate::Always => {
            assert(false);
        },
    }
    assert forall|i: int, k: int|
        0 <= i < m.metadata.len() && 0 <= k < meta0.len() implies (#[trigger] meta0[k]).0 != (
        #[trigger] m.metadata[i]).0 by {
        assert(spec_meta_entry_wf(m.metadata[i]));
    }
    lemma_scan_meta(m.metadata, meta0, m.description);
}

/// The reserved `due` entry, when the deadline is a day, stands first in
/// the scanned metadata, resolves to that day, and leaves the todo's own
/// entries when removed; with no deadline there is no such entry.
pub proof fn lemma_canonical_due(m: TodoView, base: Date)
    requires
        spec_canonical(m),
    ensures
        match m.deadline {
            TodoDate::Never => spec_meta_get(spec_meta0(m) + m.metadata, spec_due_key()) is None,
            TodoDate::Day(d) => spec_meta_get(spec_meta0(m) + m.metadata, spec_due_key()) == Some(
                spec_date_chars(d),
            ) && spec_resolve_due(spec_date_chars(d), base) == Ok::<Option<Date>, TodoParseError>(
                Some(d),
            ) && spec_meta_remove(spec_meta0(m) + m.metadata, spec_due_key()) == m.metadata,
            TodoDate::Always => false,
        },
{
    let meta1 = spec_meta0(m) + m.metadata;
    match m.deadline {
        TodoDate::Never => {
            assert(meta1 =~= m.metadata);
            assert forall|k: int| 0 <= k < m.metadata.len() implies (#[trigger] m.metadata[k]).0
                != spec_due_key() by {
                assert(spec_meta_entry_wf(m.metadata[k]));
            }
            crate::helper::lemma_meta_get_absent(m.metadata, spec_due_key());
        },
        TodoDate::Day(d) => {
            assert(meta1[0] == (spec_due_key(), spec_date_chars(d)));
            assert(spec_meta_get(meta1, spec_due_key()) == Some(spec_date_chars(d)));
            let v = spec_date_chars(d);
            lemma_date_chars_props(d);
            assert(v.len() == 10 && spec_today_word().len() == 5);
            assert(v != spec_today_word());
            assert(spec_is_digit(v[9]));
            assert(v.last() != 'd');
            lemma_date_round_trip(d);
            assert(spec_resolve_due(v, base) == Ok::<Option<Date>, TodoParseError>(Some(d)));
            assert forall|k: int| 0 < k < meta1.len() implies (#[trigger] meta1[k]).0
                != spec_due_key() by {
                assert(meta1[k] == m.metadata[k - 1]);
                assert(spec_meta_entry_wf(m.metadata[k - 1]));
            }
            crate::helper::lemma_meta_remove_found(meta1, spec_due_key(), 0);
            assert(meta1.remove(0) =~= m.metadata);
        },
        TodoDate::Always => {
            assert(false);
        },
    }
}

/// Parsing the token list of a canonical todo with at least one token
/// rebuilds that todo.
#[verifier::rlimit(100)]
proof fn lemma_parse_tokens_format(m: TodoView, today: Date)
    requires
        spec_canonical(m),
        spec_format_tokens(m).len() > 0,
    ensures
        spec_parse_tokens(m.completed, spec_format_tokens(m), today) == Ok::<
            TodoView,
            TodoParseError,
        >(m),
{
    let fts = spec_format_tokens(m);
    let c1: Seq<Seq<char>> = if m.priority != TodoPriority::NoPriority {
        seq![m.priority.spec_encode()]
    } else {
        Seq::<Seq<char>>::empty()
    };
    let c2: Seq<Seq<char>> = match (m.creation, m.completion_date) {
        (Some(_), Some(c)) => seq![spec_date_chars(c)],
        _ => Seq::<Seq<char>>::empty(),
    };
    let c3: Seq<Seq<char>> = match m.creation {
        Some(c) => seq![spec_date_chars(c)],
        None => Seq::<Seq<char>>::empty(),
    };
    assert(fts == c1 + c2 + c3 + spec_desc_tokens(m.description) + (
    if m.deadline != TodoDate::Never {
        seq![m.deadline.spec_encode()]
    } else {
        Seq::<Seq<char>>::empty()
    }) + spec_meta_tokens(m.metadata));
    let n1 = c1.len() as int;

    // Priority step.
    let i1: int = if m.priority != TodoPriority::NoPriority {
        1
    } else {
        0
    };
    if m.priority != TodoPriority::NoPriority {
        lemma_priority_round_trip(m.priority);
        assert(fts[0] == c1[0]);
        assert(spec_decode_priority(fts[0]) == Ok::<TodoPriority, InvalidPriorityError>(
            m.priority,
        ));
    }
    assert(i1 == n1);

    // Date steps.
    match (m.creation, m.completion_date) {
        (Some(cr), Some(co)) => {
            assert(fts[i1] == c2[0]);
            assert(fts[i1] == spec_date_chars(co));
            lemma_date_chars_props(co);
            lemma_date_round_trip(co);
            assert(fts[i1 + 1] == c3[0]);
            assert(fts[i1 + 1] == spec_date_chars(cr));
            lemma_date_chars_props(cr);
            lemma_date_round_trip(cr);
        },
        (Some(cr), None) => {
            assert(fts[i1] == c3[0]);
            assert(fts[i1] == spec_date_chars(cr));
            lemma_date_chars_props(cr);
            lemma_date_round_trip(cr);
        },
        (None, Some(_)) => {
            assert(false);
        },
        (None, None) => {},
    }
    assert(spec_head_len(m) == i1 + c2.len() + c3.len());

    // Scan and due resolution.
    lemma_canonical_scan(m);
    let base = match m.creation {
        Some(c) => c,
        None => today,
    };
    lemma_canonical_due(m, base);

    let out = spec_parse_tokens(m.completed, fts, today);
    assert(out matches Ok(t) && t.description == m.description && t.metadata =~= m.metadata
        && t.completed == m.completed && t.priority == m.priority && t.deadline == m.deadline
        && t.creation == m.creation && t.completion_date == m.completion_date);
    assert(out == Ok::<TodoView, TodoParseError>(m));
}

/// A canonical todo whose text form has no tokens is the empty todo, and
/// the empty line parses back to it.
#[verifier::rlimit(100)]
proof fn lemma_parse_tokens_empty(m: TodoView, today: Date)
    requires
        spec_canonical(m),
        spec_format_tokens(m).len() == 0,
    ensures
        spec_parse_tokens(m.completed, seq![Seq::<char>::empty()], today) == Ok::<
            TodoView,
            TodoParseError,
        >(m),
{
    let fts = spec_format_tokens(m);
    let c1: Seq<Seq<char>> = if m.priority != TodoPriority::NoPriority {
        seq![m.priority.spec_encode()]
    } else {
        Seq::<Seq<char>>::empty()
    };
    let c2: Seq<Seq<char>> = match (m.creation, m.completion_date) {
        (Some(_), Some(c)) => seq![spec_date_chars(c)],
        _ => Seq::<Seq<char>>::empty(),
    };
    let c3: Seq<Seq<char>> = match m.creation {
        Some(c) => seq![spec_date_chars(c)],
        None => Seq::<Seq<char>>::empty(),
    };
    let c4: Seq<Seq<char>> = spec_desc_tokens(m.description);
    let c5: Seq<Seq<char>> = if m.deadline != TodoDate::Never {
        seq![m.deadline.spec_encode()]
    } else {
        Seq::<Seq<char>>::empty()
    };
    let c6: Seq<Seq<char>> = spec_meta_tokens(m.metadata);
    assert(fts == c1 + c2 + c3 + c4 + c5 + c6);
    assert(c1.len() == 0 && c2.len() == 0 && c3.len() == 0 && c4.len() == 0 && c5.len() == 0
        && c6.len() == 0);
    assert(m.priority == TodoPriority::NoPriority);
    assert(m.creation is None && m.completion_date is None);
    assert(m.description.len() == 0);
    assert(m.deadline == TodoDate::Never);
    assert(m.metadata.len() == 0);
    let e = Seq::<char>::empty();
    let toks = seq![e];
    assert(toks[0] == e);
    assert(spec_decode_priority(e) == Err::<TodoPriority, InvalidPriorityError>(
        InvalidPriorityError::MissingParens,
    ));
    assert(!spec_date_shaped(e));
    assert(spec_colon_count(e) == 0);
    assert(!spec_is_meta_token(e));
    assert(spec_all_whitespace(e));
    let e_m = Seq::<(Seq<char>, Seq<char>)>::empty();
    let e_d = Seq::<TodoSegmentView>::empty();
    assert(spec_scan(toks.skip(0), e_m, e_d) == (e_m, e_d)) by {
        assert(toks.skip(0) =~~= toks);
        assert(spec_scan(toks, e_m, e_d) == spec_scan(toks.drop_first(), e_m, e_d));
        assert(toks.drop_first() =~~= Seq::<Seq<char>>::empty());
        assert(spec_scan(Seq::<Seq<char>>::empty(), e_m, e_d) == (e_m, e_d));
    }
    assert(spec_meta_get(e_m, spec_due_key()) is None);
    let out = spec_parse_tokens(m.completed, toks, today);
    assert(out matches Ok(t) && t.description =~= m.description && t.metadata =~= m.metadata
        && t.completed == m.completed && t.priority == m.priority && t.deadline == m.deadline
        && t.creation == m.creation && t.completion_date == m.completion_date);
    assert(out == Ok::<TodoView, TodoParseError>(m));
}

/// Round-trip law, parsing direction: the text form of a canonical todo
/// parses back to exactly that todo, whatever day it is parsed on.
#[verifier::rlimit(100)]
pub proof fn lemma_parse_format(m: TodoView, today: Date)
    requires
        spec_canonical(m),
    ensures
        spec_parse(spec_format(m), today) == Ok::<TodoView, TodoParseError>(m),
{
    let fts = spec_format_tokens(m);
    let s = spec_format(m);
    let join = spec_join_tokens(fts);
    lemma_canonical_tokens_space_free(m);
    let toks = if fts.len() == 0 {
        seq![Seq::<char>::empty()]
    } else {
        fts
    };
    if fts.len() == 0 {
        assert(join =~= Seq::<char>::empty());
        assert(spec_tokens(join) =~~= toks);
    } else {
        lemma_tokens_of_join(fts);
        assert(spec_tokens(join) == toks);
    }
    if m.completed {
        assert(s == seq!['x', ' '] + join);
        assert(s.len() >= 2 && s[0] == 'x' && s[1] == ' ');
        assert(s.skip(2) =~= join);
        assert(spec_parse(s, today) == spec_parse_tokens(true, spec_tokens(join), today));
    } else {
        assert(s == Seq::<char>::empty() + join);
        assert(s =~= join);
        assert(spec_parse(s, today) == spec_parse_tokens(false, spec_tokens(join), today));
    }
    if fts.len() == 0 {
        lemma_parse_tokens_empty(m, today);
    } else {
        lemma_parse_tokens_format(m, today);
    }
}

/// Relative due-date resolution: a `due:` value of decimal digits
/// followed by `d` resolves to the base day — the record's creation day,
/// or the current day when it has none — advanced by that many days,
/// carrying month and year rollover (each step is `spec_next`, which
/// turns the last day of a month into the first of the next and December
/// 31st into January 1st); an offset that would pass the last
/// representable day is a `BadDate` error. The parser feeds exactly this
/// resolver from the scanned `due` entry.
pub proof fn lemma_resolve_relative_due(digits: Seq<char>, base: Date)
    requires
        digits.len() > 0,
        spec_all_digits(digits),
        spec_digits_val(digits) <= u32::MAX,
    ensures
        spec_resolve_due(digits.push('d'), base) == (match base.spec_add_days(
            spec_digits_val(digits) as nat,
        ) {
            Some(d) => Ok::<Option<Date>, TodoParseError>(Some(d)),
            None => Err::<Option<Date>, TodoParseError>(TodoParseError::BadDate),
        }),
{
    let v = digits.push('d');
    assert(v.last() == 'd');
    assert(v != spec_today_word()) by {
        assert(spec_today_word().last() == 'y');
    }
    assert(v.drop_last() =~= digits);
}

/// Metadata round-trip law: setting a key a todo never had and then
/// deleting it leaves the encoded record byte-identical to that of a
/// todo that never saw the key.
pub proof fn lemma_set_then_delete_meta_format(m: TodoView, k: Seq<char>, v: Seq<char>)
    requires
        spec_meta_get(m.metadata, k) is None,
    ensures
        spec_format(
            TodoView { metadata: spec_meta_remove(spec_meta_insert(m.metadata, k, v), k), ..m },
        ) == spec_format(m),
{
    crate::helper::lemma_meta_set_then_delete(m.metadata, k, v);
    assert((TodoView {
        metadata: spec_meta_remove(spec_meta_insert(m.metadata, k, v), k),
        ..m
    }) == m);
}

/// Joined token lists concatenate with a single space between them.
pub proof fn lemma_join_concat(a: Seq<Seq<char>>, b: Seq<Seq<char>>)
    requires
        a.len() >= 1,
        b.len() >= 1,
    ensures
        spec_join_tokens(a + b) == spec_join_tokens(a) + seq![' '] + spec_join_tokens(b),
    decreases a.len(),
{
    if a.len() == 1 {
        assert((a + b)[0] == a[0]);
        assert((a + b).drop_first() =~~= b);
        assert(spec_join_tokens(a) == a[0]);
        assert(spec_join_tokens(a + b) == (a + b)[0] + seq![' '] + spec_join_tokens(
            (a + b).drop_first(),
        ));
    } else {
        lemma_join_concat(a.drop_first(), b);
        assert((a + b)[0] == a[0]);
        assert((a + b).drop_first() =~~= a.drop_first() + b);
        assert(spec_join_tokens(a + b) == a[0] + seq![' '] + spec_join_tokens(a.drop_first() + b));
        assert(spec_join_tokens(a) == a[0] + seq![' '] + spec_join_tokens(a.drop_first()));
        assert(a[0] + seq![' '] + (spec_join_tokens(a.drop_first()) + seq![' ']
            + spec_join_tokens(b)) =~= (a[0] + seq![' '] + spec_join_tokens(a.drop_first()))
            + seq![' '] + spec_join_tokens(b));
    }
}

/// No-styling fallback law: rendered with the all-empty style scheme, a
/// todo reads byte-identically to its plain text form.
#[verifier::rlimit(100)]
pub proof fn lemma_unstyled_colored(m: TodoView, sv: StyleSchemeView)
    requires
        sv.all_empty(),
    ensures
        spec_colored(m, sv) == spec_format(m),
{
    let reset = if m.completed {
        Seq::<char>::empty()
    } else {
        spec_reset()
    };
    let sch = if m.completed {
        spec_faded_only(sv)
    } else {
        spec_defaded(sv)
    };
    assert(sch.all_empty());
    let ct = spec_colored_tokens(m, sch, reset);
    let fts = spec_format_tokens(m);
    let c1: Seq<Seq<char>> = if m.priority != TodoPriority::NoPriority {
        seq![m.priority.spec_encode()]
    } else {
        Seq::<Seq<char>>::empty()
    };
    let c2: Seq<Seq<char>> = match (m.creation, m.completion_date) {
        (Some(_), Some(c)) => seq![spec_date_chars(c)],
        _ => Seq::<Seq<char>>::empty(),
    };
    let c3: Seq<Seq<char>> = match m.creation {
        Some(c) => seq![spec_date_chars(c)],
        None => Seq::<Seq<char>>::empty(),
    };
    let c4: Seq<Seq<char>> = spec_desc_tokens(m.description);
    let c5: Seq<Seq<char>> = if m.deadline != TodoDate::Never {
        seq![m.deadline.spec_encode()]
    } else {
        Seq::<Seq<char>>::empty()
    };
    let c6: Seq<Seq<char>> = spec_meta_tokens(m.metadata);
    let head = c1 + c2 + c3 + c4 + c5;
    assert(fts == head + c6);
    assert(m.description.map_values(|s: TodoSegmentView| spec_styled_seg(s, sch, reset)) =~~= c4);
    if m.metadata.len() == 0 {
        assert(c6 =~~= Seq::<Seq<char>>::empty());
        assert(ct =~~= head);
        assert(fts =~~= head);
    } else {
        assert(spec_meta_encode(m.metadata) == spec_join_tokens(c6));
        assert(ct =~~= head + seq![spec_join_tokens(c6)]);
        if head.len() == 0 {
            assert(ct =~~= seq![spec_join_tokens(c6)]);
            assert(spec_join_tokens(seq![spec_join_tokens(c6)]) == spec_join_tokens(c6));
            assert(fts =~~= c6);
        } else {
            lemma_join_tokens_push(head, spec_join_tokens(c6));
            assert(head.push(spec_join_tokens(c6)) =~~= head + seq![spec_join_tokens(c6)]);
            lemma_join_concat(head, c6);
            assert(spec_join_tokens(ct) == spec_join_tokens(head) + seq![' ']
                + spec_join_tokens(c6));
            assert(spec_join_tokens(fts) == spec_join_tokens(head) + seq![' ']
                + spec_join_tokens(c6));
        }
    }
    assert(spec_join_tokens(ct) == spec_join_tokens(fts));
    if m.completed {
        assert(sch.faded + seq!['x', ' '] =~= seq!['x', ' ']);
    }
    assert(spec_colored(m, sv) =~= spec_format(m));
}

/// Round-trip law, formatting direction: a line that is the text form of
/// a canonical todo parses without error, and formatting the parse
/// reproduces the line byte for byte.
pub proof fn lemma_round_trip(s: Seq<char>, today: Date)
    requires
        exists|m: TodoView| spec_canonical(m) && s == #[trigger] spec_format(m),
    ensures
        spec_parse(s, today) matches Ok(t) && spec_format(t) == s,
{
    let m = choose|m: TodoView| spec_canonical(m) && s == #[trigger] spec_format(m);
    lemma_parse_format(m, today);
}

/// The text form of a todo.
pub(crate) fn format_todo(t: &Todo) -> (r: String)
    requires
        t@.dates_wf(),
    ensures
        r@ == spec_format(t@),
{
    let toks = format_tokens(t);
    let joined = join_tokens(&toks);
    let mut s = String::new();
    if t.completed {
        push_char(&mut s, 'x');
        push_char(&mut s, ' ');
    }
    s.append(joined.as_str());
    proof {
        assert(s@ =~= spec_format(t@));
    }
    s
}

} // verus!

