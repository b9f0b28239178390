use crate::binary64::Binary64;
use crate::types::ClockTime;
use vstd::arithmetic::power2::{lemma2_to64, lemma_pow2_pos, lemma_pow2_strictly_increases, pow2};
use vstd::bits::{lemma_u64_shl_is_mul, lemma_u64_shr_is_div};
use vstd::prelude::*;

verus! {

/// The exponent field of a binary64 bit pattern.
pub open spec fn exponent_of(bits: u64) -> nat {
    ((bits / 0x10_0000_0000_0000) % 0x800) as nat
}

/// The fraction field of a binary64 bit pattern.
pub open spec fn fraction_of(bits: u64) -> nat {
    (bits % 0x10_0000_0000_0000) as nat
}

/// The sign bit of a binary64 bit pattern is set.
pub open spec fn is_negative(bits: u64) -> bool {
    bits >= 0x8000_0000_0000_0000
}

/// The whole part of the magnitude of a binary64 value that is a number:
/// its significand, scaled by the power of two that its exponent names,
/// without what comes after the point. A magnitude under one, for which
/// the exponent field is under 1023, has the whole part zero.
pub open spec fn whole_magnitude(bits: u64) -> nat {
    let exponent = exponent_of(bits);
    let significand = fraction_of(bits) + 0x10_0000_0000_0000;
    if exponent < 1023 {
        0
    } else if exponent >= 1075 {
        significand * pow2((exponent - 1075) as nat)
    } else {
        significand / pow2((1075 - exponent) as nat)
    }
}

/// The whole part of a binary64 value, rounded towards zero, as a signed
/// integer of 64 bits: the nearest of those where the value lies beyond
/// them, and zero where it is not a number.
pub open spec fn whole_part(value: Binary64) -> int {
    if value.is_nan() {
        0
    } else if whole_magnitude(value.bits) >= 0x8000_0000_0000_0000 {
        if is_negative(value.bits) {
            i64::MIN as int
        } else {
            i64::MAX as int
        }
    } else if is_negative(value.bits) {
        -(whole_magnitude(value.bits) as int)
    } else {
        whole_magnitude(value.bits) as int
    }
}

/// The time stands within a leap second: its nanoseconds run past the end
/// of an ordinary second.
pub open spec fn in_leap_second(time: ClockTime) -> bool {
    time.frac >= 1_000_000_000
}

/// The time of day that many whole hours after another. The clock goes
/// round at midnight, forwards and backwards. A leap second does not last:
/// moving forwards out of one leaves it at its beginning, moving backwards
/// at its end, which is the beginning of the next second. No hours leave
/// the time as it is.
pub open spec fn hours_later(time: ClockTime, hours: int) -> ClockTime {
    let leaves = in_leap_second(time) && hours != 0;
    let frac = if leaves {
        time.frac - 1_000_000_000
    } else {
        time.frac as int
    };
    let secs = if leaves && hours < 0 {
        time.secs + 1
    } else {
        time.secs as int
    };
    ClockTime { secs: ((secs + (hours % 24) * 3600) % 86400) as u32, frac: frac as u32 }
}

/// Computes [`whole_part`].
pub fn whole_of(value: Binary64) -> (whole: i64)
    ensures
        whole == whole_part(value),
{
    let bits = value.to_bits();
    let exponent: u64 = (bits >> 52) & 0x7ff;
    let fraction: u64 = bits & 0xf_ffff_ffff_ffff;
    let negative = bits >= 0x8000_0000_0000_0000;
    assert(exponent == (bits / 0x10_0000_0000_0000) % 0x800) by (bit_vector)
        requires
            exponent == (bits >> 52) & 0x7ff,
    ;
    assert(fraction == bits % 0x10_0000_0000_0000) by (bit_vector)
        requires
            fraction == bits & 0xf_ffff_ffff_ffff,
    ;
    assert((bits & 0x7fff_ffff_ffff_ffff) > 0x7ff0_0000_0000_0000 <==> (exponent == 0x7ff
        && fraction != 0)) by (bit_vector)
        requires
            exponent == (bits >> 52) & 0x7ff,
            fraction == bits & 0xf_ffff_ffff_ffff,
    ;
    if exponent == 0x7ff && fraction != 0 {
        return 0;
    }
    if exponent < 1023 {
        return 0;
    }
    let significand: u64 = fraction + 0x10_0000_0000_0000;
    proof {
        lemma2_to64();
    }
    if exponent >= 1086 {
        proof {
            let power = pow2((exponent - 1075) as nat);
            if exponent > 1086 {
                lemma_pow2_strictly_increases(11, (exponent - 1075) as nat);
            }
            assert(power >= 2048);
            assert(significand * power >= 0x8000_0000_0000_0000) by (nonlinear_arith)
                requires
                    significand >= 0x10_0000_0000_0000,
                    power >= 2048,
            ;
        }
        return if negative {
            i64::MIN
        } else {
            i64::MAX
        };
    }
    let magnitude: u64 = if exponent >= 1075 {
        let shift: u64 = exponent - 1075;
        proof {
            let power = pow2(shift as nat);
            if shift < 10 {
                lemma_pow2_strictly_increases(shift as nat, 10);
            }
            assert(power <= 1024);
            assert(significand * power < 0x8000_0000_0000_0000) by (nonlinear_arith)
                requires
                    significand < 0x20_0000_0000_0000,
                    0 <= power <= 1024,
            ;
            lemma_u64_shl_is_mul(significand, shift);
        }
        significand << shift
    } else {
        let shift: u64 = 1075 - exponent;
        proof {
            lemma_pow2_pos(shift as nat);
            lemma_u64_shr_is_div(significand, shift);
            assert(significand >> shift <= significand) by (bit_vector);
        }
        significand >> shift
    };
    assert(magnitude == whole_magnitude(bits));
    if negative {
        0 - (magnitude as i64)
    } else {
        magnitude as i64
    }
}

/// Moves a time of day by a number of whole hours. For a time of day as
/// the chrono crate holds one, and a number of hours that it takes, this
/// is the time that chrono's addition of so many hours gives.
pub fn advance(time: ClockTime, hours: i64) -> (moved: ClockTime)
    ensures
        moved == hours_later(time, hours as int),
{
    let turn: u64 = if hours >= 0 {
        (hours as u64) % 24
    } else {
        let back: u64 = ((-(hours + 1)) as u64) % 24 + 1;
        24 - back
    };
    assert(turn == (hours as int) % 24);
    let leaves = time.frac >= 1_000_000_000 && hours != 0;
    let frac: u32 = if leaves {
        time.frac - 1_000_000_000
    } else {
        time.frac
    };
    let from: u64 = if leaves && hours < 0 {
        time.secs as u64 + 1
    } else {
        time.secs as u64
    };
    let secs: u64 = (from + turn * 3600) % 86400;
    ClockTime { secs: secs as u32, frac }
}

} // verus!
