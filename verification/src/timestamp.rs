//! Where a row's designated timestamp comes from, and in which unit.

use crate::text::{lowered, reads_as};
use vstd::prelude::*;
use vstd::string::*;

verus! {

/// Where the designated timestamp comes from.
#[derive(Debug, Clone, Copy, PartialEq, Eq, Structural)]
pub enum TimestampSource {
    /// The Apache Iggy message timestamp (microseconds).
    Message,
    /// The producer-supplied origin timestamp (microseconds).
    Origin,
    /// A field inside the payload, named by `timestamp_field`.
    Payload,
    /// Let QuestDB stamp the row on arrival.
    Server,
}

impl Default for TimestampSource {
    fn default() -> (r: Self)
        ensures
            r == TimestampSource::Message,
    {
        TimestampSource::Message
    }
}

impl TimestampSource {
    /// The source that a configured name stands for, whatever the case of its ASCII
    /// letters. No name stands for the message timestamp.
    pub open spec fn named(raw: Option<Seq<char>>) -> Option<TimestampSource> {
        match raw {
            None => Some(TimestampSource::Message),
            Some(name) => if lowered(name) == "message"@ {
                Some(TimestampSource::Message)
            } else if lowered(name) == "origin"@ {
                Some(TimestampSource::Origin)
            } else if lowered(name) == "payload"@ {
                Some(TimestampSource::Payload)
            } else if lowered(name) == "server"@ {
                Some(TimestampSource::Server)
            } else {
                None
            },
        }
    }

    /// Reads a configured source; `None` where the name is unknown.
    pub fn parse(raw: Option<&str>) -> (r: Option<Self>)
        ensures
            r == Self::named(
                match raw {
                    Some(name) => Some(name@),
                    None => None,
                },
            ),
    {
        match raw {
            None => Some(TimestampSource::Message),
            Some(name) => if reads_as(name, "message") {
                Some(TimestampSource::Message)
            } else if reads_as(name, "origin") {
                Some(TimestampSource::Origin)
            } else if reads_as(name, "payload") {
                Some(TimestampSource::Payload)
            } else if reads_as(name, "server") {
                Some(TimestampSource::Server)
            } else {
                None
            },
        }
    }
}

/// Unit of a payload-sourced timestamp. `Auto` guesses from magnitude, which
/// covers the common case of a producer that switched units between releases.
#[derive(Debug, Clone, Copy, PartialEq, Eq, Structural)]
pub enum TimestampUnit {
    Auto,
    Seconds,
    Millis,
    Micros,
    Nanos,
}

impl Default for TimestampUnit {
    fn default() -> (r: Self)
        ensures
            r == TimestampUnit::Auto,
    {
        TimestampUnit::Auto
    }
}

/// The `i64` nearest to `n`.
pub open spec fn clamped(n: int) -> i64 {
    if n < i64::MIN {
        i64::MIN
    } else if n > i64::MAX {
        i64::MAX
    } else {
        n as i64
    }
}

/// How far `n` is from zero.
pub open spec fn magnitude(n: int) -> nat {
    if n < 0 {
        (-n) as nat
    } else {
        n as nat
    }
}

impl TimestampUnit {
    /// The unit that a configured name stands for, whatever the case of its ASCII
    /// letters. No name stands for `Auto`.
    pub open spec fn named(raw: Option<Seq<char>>) -> Option<TimestampUnit> {
        match raw {
            None => Some(TimestampUnit::Auto),
            Some(name) => if lowered(name) == "auto"@ {
                Some(TimestampUnit::Auto)
            } else if lowered(name) == "seconds"@ || lowered(name) == "s"@ {
                Some(TimestampUnit::Seconds)
            } else if lowered(name) == "millis"@ || lowered(name) == "ms"@ {
                Some(TimestampUnit::Millis)
            } else if lowered(name) == "micros"@ || lowered(name) == "us"@ {
                Some(TimestampUnit::Micros)
            } else if lowered(name) == "nanos"@ || lowered(name) == "ns"@ {
                Some(TimestampUnit::Nanos)
            } else {
                None
            },
        }
    }

    /// Reads a configured unit; `None` where the name is unknown.
    pub fn parse(raw: Option<&str>) -> (r: Option<Self>)
        ensures
            r == Self::named(
                match raw {
                    Some(name) => Some(name@),
                    None => None,
                },
            ),
    {
        match raw {
            None => Some(TimestampUnit::Auto),
            Some(name) => if reads_as(name, "auto") {
                Some(TimestampUnit::Auto)
            } else if reads_as(name, "seconds") || reads_as(name, "s") {
                Some(TimestampUnit::Seconds)
            } else if reads_as(name, "millis") || reads_as(name, "ms") {
                Some(TimestampUnit::Millis)
            } else if reads_as(name, "micros") || reads_as(name, "us") {
                Some(TimestampUnit::Micros)
            } else if reads_as(name, "nanos") || reads_as(name, "ns") {
                Some(TimestampUnit::Nanos)
            } else {
                None
            },
        }
    }

    /// The unit in which `value` is read: this one, or for `Auto` the one that its
    /// magnitude suggests.
    pub open spec fn resolved(self, value: int) -> TimestampUnit {
        if self != TimestampUnit::Auto {
            self
        } else if magnitude(value) < 100_000_000_000 {
            TimestampUnit::Seconds
        } else if magnitude(value) < 100_000_000_000_000 {
            TimestampUnit::Millis
        } else if magnitude(value) < 100_000_000_000_000_000 {
            TimestampUnit::Micros
        } else {
            TimestampUnit::Nanos
        }
    }

    /// Nanoseconds in one tick of a unit other than `Auto`.
    pub open spec fn nanos_per_tick(self) -> int {
        match self {
            TimestampUnit::Seconds => 1_000_000_000,
            TimestampUnit::Millis => 1_000_000,
            TimestampUnit::Micros => 1_000,
            TimestampUnit::Nanos => 1,
            TimestampUnit::Auto => 0,
        }
    }

    /// `value` of this unit in nanoseconds, held to the range of an `i64`.
    pub open spec fn nanos(self, value: int) -> i64 {
        clamped(value * self.resolved(value).nanos_per_tick())
    }

    /// Turns `value` of this unit into nanoseconds, saturating.
    pub fn to_nanos(self, value: i64) -> (r: i64)
        ensures
            r == self.nanos(value as int),
    {
        match self {
            TimestampUnit::Seconds => saturating_times(value, 1_000_000_000),
            TimestampUnit::Millis => saturating_times(value, 1_000_000),
            TimestampUnit::Micros => saturating_times(value, 1_000),
            TimestampUnit::Nanos => value,
            // A present-day timestamp lands in exactly one bucket.
            TimestampUnit::Auto => {
                let size: i128 = if value < 0 {
                    -(value as i128)
                } else {
                    value as i128
                };
                if size < 100_000_000_000 {
                    saturating_times(value, 1_000_000_000)
                } else if size < 100_000_000_000_000 {
                    saturating_times(value, 1_000_000)
                } else if size < 100_000_000_000_000_000 {
                    saturating_times(value, 1_000)
                } else {
                    value
                }
            },
        }
    }
}

/// The product, or the end of the range that it passed.
fn saturating_times(value: i64, factor: i64) -> (r: i64)
    requires
        0 < factor <= 1_000_000_000,
    ensures
        r == clamped(value * factor),
{
    assert(-10_000_000_000_000_000_000_000_000_000 <= value * factor
        <= 10_000_000_000_000_000_000_000_000_000) by (nonlinear_arith)
        requires
            0 < factor <= 1_000_000_000,
            i64::MIN <= value <= i64::MAX,
    ;
    let product: i128 = (value as i128) * (factor as i128);
    if product < i64::MIN as i128 {
        i64::MIN
    } else if product > i64::MAX as i128 {
        i64::MAX
    } else {
        product as i64
    }
}

} // verus!
