//! UUID strings.

use vstd::arithmetic::power::{lemma_pow0, lemma_pow1, lemma_pow_adds, lemma_pow_increases, pow};
use vstd::prelude::*;
use vstd::string::*;

verus! {

/// Whether `c` is a hexadecimal digit, in either case.
pub open spec fn is_hex(c: char) -> bool {
    '0' <= c <= '9' || 'a' <= c <= 'f' || 'A' <= c <= 'F'
}

/// What the hexadecimal digit `c` stands for.
pub open spec fn hex_value(c: char) -> nat
    recommends
        is_hex(c),
{
    if '0' <= c <= '9' {
        (c as int - '0' as int) as nat
    } else if 'a' <= c <= 'f' {
        (c as int - 'a' as int + 10) as nat
    } else {
        (c as int - 'A' as int + 10) as nat
    }
}

/// The number that `digits` writes in hexadecimal, most significant digit first.
pub open spec fn hex_number(digits: Seq<char>) -> nat
    decreases digits.len(),
{
    if digits.len() == 0 {
        0
    } else {
        hex_number(digits.drop_last()) * 16 + hex_value(digits.last())
    }
}

/// The characters of `text` that are no dash.
pub open spec fn undashed(text: Seq<char>) -> Seq<char> {
    text.filter(|c: char| c != '-')
}

/// Whether `text`, its dashes left out, is 32 hexadecimal digits.
pub open spec fn is_uuid(text: Seq<char>) -> bool {
    &&& undashed(text).len() == 32
    &&& forall|i: int| 0 <= i < 32 ==> is_hex(#[trigger] undashed(text)[i])
}

/// The less and the more significant half of the UUID that `text` writes.
pub open spec fn uuid_halves(text: Seq<char>) -> (nat, nat) {
    (hex_number(undashed(text).skip(16)), hex_number(undashed(text).take(16)))
}

/// A number of `digits.len()` hexadecimal digits is below that power of 16.
pub proof fn lemma_hex_number_bound(digits: Seq<char>)
    requires
        forall|i: int| 0 <= i < digits.len() ==> is_hex(#[trigger] digits[i]),
    ensures
        hex_number(digits) < pow(16, digits.len()),
    decreases digits.len(),
{
    lemma_pow0(16);
    if digits.len() > 0 {
        let init = digits.drop_last();
        lemma_hex_number_bound(init);
        assert(is_hex(digits.last()));
        lemma_pow_adds(16, init.len(), 1);
        lemma_pow1(16);
        assert(digits.len() == init.len() + 1);
    }
}

/// Up to sixteen hexadecimal digits make a number of 64 bits.
pub proof fn lemma_hex_number_fits(digits: Seq<char>)
    requires
        digits.len() <= 16,
        forall|i: int| 0 <= i < digits.len() ==> is_hex(#[trigger] digits[i]),
    ensures
        hex_number(digits) <= u64::MAX,
{
    lemma_hex_number_bound(digits);
    lemma_pow_increases(16, digits.len(), 16);
    lemma_pow_16_16();
}

/// Sixteen hexadecimal digits count as far as 64 bits.
pub proof fn lemma_pow_16_16()
    ensures
        pow(16, 16) == 0x1_0000_0000_0000_0000,
{
    lemma_pow1(16);
    lemma_pow_adds(16, 1, 1);
    assert(pow(16, 2) == 0x100);
    lemma_pow_adds(16, 2, 2);
    assert(pow(16, 4) == 0x1_0000);
    lemma_pow_adds(16, 4, 4);
    assert(pow(16, 8) == 0x1_0000_0000);
    lemma_pow_adds(16, 8, 8);
    assert(pow(16, 16) == 0x1_0000_0000_0000_0000);
}

/// What the digit `c` stands for, or `None` where `c` is no hexadecimal digit.
pub fn hex_digit(c: char) -> (r: Option<u64>)
    ensures
        r is Some <==> is_hex(c),
        r matches Some(d) ==> d == hex_value(c) && d < 16,
{
    if '0' <= c && c <= '9' {
        Some((c as u64) - ('0' as u64))
    } else if 'a' <= c && c <= 'f' {
        Some((c as u64) - ('a' as u64) + 10)
    } else if 'A' <= c && c <= 'F' {
        Some((c as u64) - ('A' as u64) + 10)
    } else {
        None
    }
}

/// Splits an RFC-4122 UUID, with or without its dashes, into the pair `(lo, hi)`
/// of the `java.util.UUID` convention: `hi` is the more significant half, most
/// significant byte first, and `lo` the less significant one.
pub fn parse_uuid(text: &str) -> (r: Option<(u64, u64)>)
    ensures
        r is Some <==> is_uuid(text@),
        r matches Some((lo, hi)) ==> (lo as nat, hi as nat) == uuid_halves(text@),
{
    let mut hi: u64 = 0;
    let mut lo: u64 = 0;
    let mut count: usize = 0;
    let ghost mut digits: Seq<char> = Seq::empty();
    for c in it: text.chars()
        invariant
            it.seq() == text@,
            digits == undashed(text@.take(it.index())),
            digits.len() == count <= 32,
            forall|i: int| 0 <= i < count ==> is_hex(#[trigger] digits[i]),
            count <= 16 ==> hi == hex_number(digits) && lo == 0,
            count > 16 ==> hi == hex_number(digits.take(16)) && lo == hex_number(digits.skip(16)),
    {
        let ghost at = it.index();
        proof {
            lemma_undashed_step(text@, at);
        }
        if c != '-' {
            let ghost next = digits.push(c);
            proof {
                assert(next.drop_last() =~= digits);
                lemma_undashed_grows(text@, at + 1);
            }
            match hex_digit(c) {
                None => {
                    assert(undashed(text@)[count as int] == next[count as int]);
                    return None;
                },
                Some(d) => {
                    proof {
                        assert forall|i: int| 0 <= i < next.len() implies is_hex(
                            #[trigger] next[i],
                        ) by {
                            if i < digits.len() {
                                assert(next[i] == digits[i]);
                            }
                        }
                    }
                    if count < 16 {
                        proof {
                            lemma_hex_number_fits(next);
                        }
                        hi = hi * 16 + d;
                    } else if count < 32 {
                        proof {
                            assert(next.skip(16).drop_last() =~= digits.skip(16));
                            assert(next.skip(16).last() == c);
                            assert(lo == hex_number(digits.skip(16)));
                            assert(next.take(16) =~= digits.take(16));
                            assert(digits.len() == 16 ==> digits.take(16) =~= digits);
                            assert forall|i: int| 0 <= i < next.skip(16).len() implies is_hex(
                                #[trigger] next.skip(16)[i],
                            ) by {
                                assert(next.skip(16)[i] == next[i + 16]);
                            }
                            lemma_hex_number_fits(next.skip(16));
                        }
                        lo = lo * 16 + d;
                    } else {
                        return None;
                    }
                    count = count + 1;
                    proof {
                        digits = next;
                    }
                },
            }
        }
    }
    assert(text@.take(text@.len() as int) =~= text@);
    if count == 32 {
        Some((lo, hi))
    } else {
        None
    }
}

/// One more character read adds that character to the digits, or is a dash.
proof fn lemma_undashed_step(text: Seq<char>, at: int)
    requires
        0 <= at < text.len(),
    ensures
        undashed(text.take(at + 1)) == if text[at] == '-' {
            undashed(text.take(at))
        } else {
            undashed(text.take(at)).push(text[at])
        },
{
    reveal(Seq::filter);
    assert(text.take(at + 1).drop_last() =~= text.take(at));
}

/// What stands in the digits of a beginning of `text` stands in those of `text`.
proof fn lemma_undashed_grows(text: Seq<char>, at: int)
    requires
        0 <= at <= text.len(),
    ensures
        undashed(text.take(at)).is_prefix_of(undashed(text)),
    decreases text.len() - at,
{
    if at == text.len() {
        assert(text.take(at) =~= text);
    } else {
        lemma_undashed_step(text, at);
        lemma_undashed_grows(text, at + 1);
    }
}

} // verus!
