//! Spans of time as a configuration writes them.

use std::str::FromStr;
use vstd::prelude::*;
use vstd::string::*;

verus! {

/// A span of time: seconds, and nanoseconds below one second.
#[derive(Debug, Clone, Copy, PartialEq, Eq, Structural)]
pub struct Timeout {
    pub secs: u64,
    pub nanos: u32,
}

impl Timeout {
    /// The whole span in nanoseconds.
    pub open spec fn total(self) -> nat {
        (self.secs * 1_000_000_000 + self.nanos) as nat
    }
}

/// The first number of nanoseconds that is past every span: 2^64 seconds.
pub const SPAN_LIMIT: u128 = 18_446_744_073_709_551_616_000_000_000;

/// Whether `c` is a decimal digit.
pub open spec fn is_digit(c: char) -> bool {
    '0' <= c <= '9'
}

/// Whether `c` can stand in the unit of a span.
pub open spec fn is_letter(c: char) -> bool {
    'a' <= c <= 'z' || 'A' <= c <= 'Z' || c == '\u{b5}'
}

/// Whether a letter stands in `text` before `n`, and no digit between the two.
pub open spec fn after_unit(text: Seq<char>, n: int) -> bool
    decreases n,
{
    if n <= 0 || is_digit(text[n - 1]) {
        false
    } else {
        is_letter(text[n - 1]) || after_unit(text, n - 1)
    }
}

/// Whether the character at `n` is the first digit of a number that follows the unit of
/// another.
pub open spec fn starts_number(text: Seq<char>, n: int) -> bool {
    is_digit(text[n]) && after_unit(text, n)
}

/// Whether `text` has no more than one number, with its fraction and its unit.
pub open spec fn single(text: Seq<char>) -> bool {
    forall|n: int| 0 <= n < text.len() ==> !#[trigger] starts_number(text, n)
}

/// Where the number begins that the characters of `text` before `n` end in.
pub open spec fn number_start(text: Seq<char>, n: int) -> int
    decreases n,
{
    if n <= 0 {
        0
    } else if starts_number(text, n - 1) {
        n - 1
    } else {
        number_start(text, n - 1)
    }
}

/// The span of time that a text such as `2min 30s` stands for, if it stands for one.
pub uninterp spec fn duration_of(text: Seq<char>) -> Option<Timeout>;

/// `sum` and the span that `text` stands for, in nanoseconds.
pub open spec fn plus(sum: Option<nat>, text: Seq<char>) -> Option<nat> {
    match (sum, duration_of(text)) {
        (Some(sum), Some(span)) => Some(sum + span.total()),
        _ => None,
    }
}

/// What the numbers of `text` add up to that end where another begins, before `n`; `None`
/// where one of them cannot be read.
pub open spec fn sum_before(text: Seq<char>, n: int) -> Option<nat>
    decreases n,
{
    if n <= 0 {
        Some(0)
    } else if starts_number(text, n - 1) {
        plus(sum_before(text, n - 1), text.subrange(number_start(text, n - 1), n - 1))
    } else {
        sum_before(text, n - 1)
    }
}

/// What all numbers of `text` add up to; `None` where one of them cannot be read.
pub open spec fn sum_of(text: Seq<char>) -> Option<nat> {
    let n = text.len() as int;
    plus(sum_before(text, n), text.subrange(number_start(text, n), n))
}

/// Whether the numbers of `text` can be read, one by one, and add up to a span.
pub open spec fn adds_up(text: Seq<char>) -> bool {
    sum_of(text) matches Some(sum) && sum < SPAN_LIMIT
}

/// The span that `text` stands for: none where one of its numbers cannot be read, or where
/// they add up to more than a span can be.
pub open spec fn span_of(text: Seq<char>) -> Option<Timeout> {
    if single(text) || adds_up(text) {
        duration_of(text)
    } else {
        None
    }
}

/// `humantime::Duration::from_str`: reads a span of time. What it reads is a function
/// of the text and is left to `duration_of`.
///
/// It adds the numbers of the text up, each of them first its whole part and then its
/// fraction, and panics where that comes to 2^64 seconds by way of the nanoseconds. Numbers
/// that add up to less keep it from that. So does a single one: nanoseconds are added to its
/// whole part only where that is far from the limit, or where they never come to just one
/// second.
#[verifier::external_body]
fn parse_duration(text: &str) -> (r: Option<Timeout>)
    requires
        single(text@) || adds_up(text@),
    ensures
        r == duration_of(text@),
        r matches Some(span) ==> span.nanos < 1_000_000_000,
{
    humantime::Duration::from_str(text).ok().map(
        |span| Timeout { secs: span.as_secs(), nanos: span.subsec_nanos() },
    )
}

proof fn lemma_number_start(text: Seq<char>, n: int)
    requires
        0 <= n <= text.len(),
    ensures
        0 <= number_start(text, n) <= n,
        forall|k: int| number_start(text, n) < k < n ==> !#[trigger] starts_number(text, k),
    decreases n,
{
    if n > 0 {
        lemma_number_start(text, n - 1);
    }
}

proof fn lemma_after_unit_within(text: Seq<char>, start: int, end: int, n: int)
    requires
        0 <= start <= end <= text.len(),
        0 <= n <= end - start,
        after_unit(text.subrange(start, end), n),
    ensures
        after_unit(text, start + n),
    decreases n,
{
    if n > 0 {
        let part = text.subrange(start, end);
        assert(part[n - 1] == text[start + n - 1]);
        if !is_letter(part[n - 1]) {
            lemma_after_unit_within(text, start, end, n - 1);
        }
    }
}

/// A number by itself is single.
proof fn lemma_number_is_single(text: Seq<char>, n: int)
    requires
        0 <= n <= text.len(),
    ensures
        0 <= number_start(text, n) <= n,
        single(text.subrange(number_start(text, n), n)),
{
    lemma_number_start(text, n);
    let start = number_start(text, n);
    let part = text.subrange(start, n);
    assert forall|k: int| 0 <= k < part.len() implies !#[trigger] starts_number(part, k) by {
        if starts_number(part, k) {
            lemma_after_unit_within(text, start, n, k);
            assert(part[k] == text[start + k]);
            assert(starts_number(text, start + k));
            assert(k > 0);
        }
    }
}

/// Further numbers leave a sum that cannot be read as it is, and never lessen another.
proof fn lemma_sum_grows(text: Seq<char>, n: int, m: int)
    requires
        0 <= n <= m <= text.len(),
    ensures
        sum_before(text, m) matches Some(more) ==> sum_before(text, n) matches Some(sum) && sum
            <= more,
    decreases m - n,
{
    if n < m {
        lemma_sum_grows(text, n, m - 1);
    }
}

fn digit(c: char) -> (r: bool)
    ensures
        r == is_digit(c),
{
    '0' <= c && c <= '9'
}

fn letter(c: char) -> (r: bool)
    ensures
        r == is_letter(c),
{
    ('a' <= c && c <= 'z') || ('A' <= c && c <= 'Z') || c == '\u{b5}'
}

/// Whether `text` has no more than one number.
fn is_single(text: &str) -> (r: bool)
    ensures
        r == single(text@),
{
    let mut unit = false;
    for c in it: text.chars()
        invariant
            it.seq() == text@,
            unit == after_unit(text@, it.index()),
            forall|n: int| 0 <= n < it.index() ==> !#[trigger] starts_number(text@, n),
    {
        if digit(c) {
            if unit {
                assert(starts_number(text@, it.index()));
                return false;
            }
            unit = false;
        } else if letter(c) {
            unit = true;
        }
    }
    true
}

/// `sum` and the span that the single number `text` stands for, unless that cannot be read
/// or is past the limit.
fn add_number(sum: u128, text: &str) -> (r: Option<u128>)
    requires
        single(text@),
        sum < SPAN_LIMIT,
    ensures
        r is Some <==> (plus(Some(sum as nat), text@) matches Some(more) && more < SPAN_LIMIT),
        r matches Some(more) ==> plus(Some(sum as nat), text@) == Some(more as nat) && more
            < SPAN_LIMIT,
{
    match parse_duration(text) {
        Some(span) => {
            let more: u128 = sum + (span.secs as u128) * 1_000_000_000 + span.nanos as u128;
            if more < SPAN_LIMIT {
                Some(more)
            } else {
                None
            }
        },
        None => None,
    }
}

/// Whether the numbers of `text` add up to a span.
fn numbers_add_up(text: &str) -> (r: bool)
    ensures
        r == adds_up(text@),
{
    let len: usize = text.unicode_len();
    let mut unit = false;
    let mut start: usize = 0;
    let mut sum: u128 = 0;
    let mut i: usize = 0;
    for c in it: text.chars()
        invariant
            it.seq() == text@,
            len == text@.len(),
            i == it.index(),
            unit == after_unit(text@, i as int),
            start == number_start(text@, i as int) <= i,
            sum_before(text@, i as int) == Some(sum as nat),
            sum < SPAN_LIMIT,
    {
        if digit(c) {
            if unit {
                proof {
                    lemma_number_is_single(text@, i as int);
                    lemma_sum_grows(text@, i + 1, text@.len() as int);
                }
                match add_number(sum, text.substring_char(start, i)) {
                    Some(more) => {
                        sum = more;
                    },
                    None => {
                        return false;
                    },
                }
                start = i;
            }
            unit = false;
        } else if letter(c) {
            unit = true;
        }
        i = i + 1;
    }
    proof {
        lemma_number_is_single(text@, len as int);
    }
    add_number(sum, text.substring_char(start, len)).is_some()
}

/// Reads a span of time.
pub fn read_span(text: &str) -> (r: Option<Timeout>)
    ensures
        r == span_of(text@),
        r matches Some(span) ==> span.nanos < 1_000_000_000,
{
    if is_single(text) || numbers_add_up(text) {
        parse_duration(text)
    } else {
        None
    }
}

} // verus!
