//! Rate engine: scaling a raw value into a human-readable size string, and
//! turning a counter delta over an interval into a per-second rate string.
//!
//! A value is promoted to the next unit (base, Kilo, Mega, Giga) while it
//! still exceeds 100, stopping at Giga, and shown with exactly two decimal
//! digits and the unit symbol.

use vstd::prelude::*;
use vstd::string::*;

use crate::digits::{dec_str, two_digits, two_digit_string, u64_to_string};

verus! {

/// The unit symbol for each scaling step.
pub open spec fn unit_suffix(u: int) -> Seq<char> {
    if u == 0 {
        seq!['b']
    } else if u == 1 {
        seq!['K', 'b']
    } else if u == 2 {
        seq!['M', 'b']
    } else {
        seq!['G', 'b']
    }
}

/// How many scaling steps a value takes: one while the scaled value still
/// exceeds 100, at most three (Giga is the largest unit).
pub open spec fn unit_of(v: u64) -> int {
    if v <= 100 {
        0
    } else if v <= 100_000 {
        1
    } else if v <= 100_000_000 {
        2
    } else {
        3
    }
}

/// The divisor belonging to a scaling step.
pub open spec fn unit_divisor(u: int) -> int {
    if u <= 0 {
        1
    } else if u == 1 {
        1000
    } else if u == 2 {
        1_000_000
    } else {
        1_000_000_000
    }
}

/// The displayed number in hundredths: the value divided by its unit's
/// divisor, rounded to the nearest hundredth (half rounds up).
pub open spec fn scaled_hundredths(v: u64) -> int {
    let d = unit_divisor(unit_of(v));
    (v * 100 + d / 2) / d
}

/// What the human-readable form of a value is: the scaled number with two
/// decimal digits, a space, and the unit symbol.
pub open spec fn human_size_spec(v: u64) -> Seq<char> {
    let s = scaled_hundredths(v);
    dec_str((s / 100) as nat) + seq!['.'] + two_digits((s % 100) as nat) + seq![' ']
        + unit_suffix(unit_of(v))
}

/// The per-second value a delta over an interval amounts to: zero for a
/// zero interval, otherwise `delta * 1000 / interval_ms`, saturated to
/// the largest representable value.
pub open spec fn per_second(delta: u64, interval_ms: u64) -> u64 {
    if interval_ms == 0 {
        0u64
    } else {
        let q = (delta * 1000) / (interval_ms as int);
        if q > u64::MAX {
            u64::MAX
        } else {
            q as u64
        }
    }
}

/// What a rate string is: the human-readable per-second value with the
/// per-time suffix.
pub open spec fn rate_spec(delta: u64, interval_ms: u64) -> Seq<char> {
    human_size_spec(per_second(delta, interval_ms)) + seq!['/', 's']
}

/// The unit symbol for a scaling step, as a string slice.
fn unit_str(u: u64) -> (r: &'static str)
    requires
        u < 4,
    ensures
        r@ == unit_suffix(u as int),
{
    proof {
        reveal_strlit("b");
        reveal_strlit("Kb");
        reveal_strlit("Mb");
        reveal_strlit("Gb");
    }
    let r = if u == 0 {
        "b"
    } else if u == 1 {
        "Kb"
    } else if u == 2 {
        "Mb"
    } else {
        "Gb"
    };
    proof {
        assert(r@ =~= unit_suffix(u as int));
    }
    r
}

/// Scales a raw value (bits or bytes) into a human-readable string with two
/// decimal digits and a unit symbol, promoting the unit while the value
/// exceeds 100 and stopping at Giga.
pub fn bytes_to_human_readable(v: u64) -> (r: String)
    ensures
        r@ == human_size_spec(v),
{
    let unit: u64 = if v <= 100 {
        0
    } else if v <= 100_000 {
        1
    } else if v <= 100_000_000 {
        2
    } else {
        3
    };
    let d: u64 = if unit == 0 {
        1
    } else if unit == 1 {
        1000
    } else if unit == 2 {
        1_000_000
    } else {
        1_000_000_000
    };
    let num: u128 = (v as u128) * 100 + ((d / 2) as u128);
    let scaled: u128 = num / (d as u128);
    proof {
        assert(unit as int == unit_of(v));
        assert(d as int == unit_divisor(unit_of(v)));
        assert(scaled as int == scaled_hundredths(v));
        assert(scaled <= (v as int) * 100 + (d as int)) by (nonlinear_arith)
            requires
                num as int == (v as int) * 100 + (d as int) / 2,
                scaled as int == (num as int) / (d as int),
                1 <= d,
        ;
    }
    let ip: u64 = (scaled / 100) as u64;
    let fp: u64 = (scaled % 100) as u64;
    let mut s = u64_to_string(ip);
    proof {
        reveal_strlit(".");
        reveal_strlit(" ");
        assert("."@ =~= seq!['.']);
        assert(" "@ =~= seq![' ']);
    }
    s.append(".");
    let frac = two_digit_string(fp);
    s.append(frac.as_str());
    s.append(" ");
    s.append(unit_str(unit));
    s
}

/// Formats the throughput a delta over an interval amounts to, as a
/// human-readable per-second string. A zero interval yields the zero rate
/// rather than a division by zero.
pub fn get_rate(delta: u64, interval_ms: u64) -> (r: String)
    ensures
        r@ == rate_spec(delta, interval_ms),
{
    let per: u64 = if interval_ms == 0 {
        0
    } else {
        let q: u128 = (delta as u128) * 1000 / (interval_ms as u128);
        if q > u64::MAX as u128 {
            u64::MAX
        } else {
            q as u64
        }
    };
    proof {
        assert(per == per_second(delta, interval_ms));
    }
    let mut s = bytes_to_human_readable(per);
    proof {
        reveal_strlit("/s");
        assert("/s"@ =~= seq!['/', 's']);
    }
    s.append("/s");
    s
}

/// Law: a zero-length interval always yields the zero-rate string, whatever
/// the delta was.
pub proof fn lemma_rate_zero_interval(delta: u64)
    ensures
        rate_spec(delta, 0) =~= seq!['0', '.', '0', '0', ' ', 'b', '/', 's'],
{
    assert(per_second(delta, 0) == 0u64);
    assert(scaled_hundredths(0u64) == 0);
    assert(dec_str(0nat) =~= seq!['0']);
    assert(two_digits(0nat) =~= seq!['0', '0']);
}

} // verus!

