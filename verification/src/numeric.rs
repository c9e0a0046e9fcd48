//! Integer arithmetic on IEEE 754 double-precision bit patterns.
//!
//! The dynamic value model carries 64-bit floats as their bit patterns, so
//! the two numeric coercions the decoder needs are defined here directly on
//! bits: truncation toward zero to a 64-bit integer (with the saturating
//! behavior of Rust's numeric cast, and zero for NaN), and conversion of a
//! 64-bit integer to the nearest double, ties to even.

use vstd::prelude::*;

verus! {

/// The fraction mask: the low 52 bits of a double's bit pattern.
pub open spec fn frac_mask() -> u64 {
    0xF_FFFF_FFFF_FFFF
}

/// The position of the highest set bit of `m`, found by scanning up from
/// `p`; 63 at most.
pub open spec fn msb_from(m: u64, p: nat) -> nat
    decreases 64 - p,
    when p <= 63
{
    if p >= 63 {
        63
    } else if (m >> (p as u64)) > 1 {
        msb_from(m, p + 1)
    } else {
        p
    }
}

pub open spec fn spec_msb(m: u64) -> nat {
    msb_from(m, 0)
}

/// The magnitude of `i` as an unsigned 64-bit value.
pub open spec fn spec_abs_u64(i: i64) -> u64 {
    if i >= 0 {
        i as u64
    } else if i == i64::MIN {
        0x8000_0000_0000_0000
    } else {
        (-i) as u64
    }
}

/// The bit pattern of the double nearest to `i`, ties to even: the
/// behavior of the numeric cast from a 64-bit integer to a double.
pub open spec fn spec_i64_to_f64_bits(i: i64) -> u64 {
    if i == 0 {
        0
    } else {
        let sign: u64 = if i < 0 {
            1
        } else {
            0
        };
        let mag = spec_abs_u64(i);
        let p = spec_msb(mag);
        if p <= 52 {
            let frac = (mag << ((52 - p) as u64)) & frac_mask();
            (sign << 63) | (((p + 1023) as u64) << 52) | frac
        } else {
            let shift = (p - 52) as u64;
            let keep = mag >> shift;
            let rem = mag & (((1u64 << shift) - 1) as u64);
            let half = 1u64 << ((shift - 1) as u64);
            let round_up = rem > half || (rem == half && (keep & 1) == 1);
            let keep2: u64 = if round_up {
                (keep + 1) as u64
            } else {
                keep
            };
            if keep2 == (1u64 << 53) {
                (sign << 63) | (((p + 1024) as u64) << 52)
            } else {
                (sign << 63) | (((p + 1023) as u64) << 52) | (keep2 & frac_mask())
            }
        }
    }
}

/// The truncation toward zero of the double with bit pattern `bits`, with
/// the saturating behavior of Rust's numeric cast to a 64-bit integer:
/// NaN becomes zero, values beyond the range saturate at its ends.
pub open spec fn spec_f64_bits_trunc(bits: u64) -> i64 {
    let sign = bits >> 63;
    let e = (bits >> 52) & 0x7FF;
    let f = bits & frac_mask();
    if e == 0x7FF {
        if f != 0 {
            0
        } else if sign == 1 {
            i64::MIN
        } else {
            i64::MAX
        }
    } else if e < 1023 {
        0
    } else if e >= 1023 + 63 {
        if sign == 1 {
            i64::MIN
        } else {
            i64::MAX
        }
    } else {
        let exp = (e - 1023) as u64;
        let m: u64 = if exp >= 52 {
            (f | (1u64 << 52)) << ((exp - 52) as u64)
        } else {
            (f | (1u64 << 52)) >> ((52 - exp) as u64)
        };
        if sign == 1 {
            (-(m as int)) as i64
        } else {
            m as i64
        }
    }
}

/// The position of the highest set bit of `m`.
pub fn msb_index(m: u64) -> (r: u64)
    requires
        m >= 1,
    ensures
        r == spec_msb(m),
        r <= 63,
{
    let mut p: u64 = 0;
    while p < 63 && (m >> p) > 1
        invariant
            p <= 63,
            msb_from(m, p as nat) == spec_msb(m),
        decreases 63 - p,
    {
        p = p + 1;
    }
    p
}

/// Converts a 64-bit integer to the bit pattern of the nearest double.
pub fn i64_to_f64_bits(i: i64) -> (r: u64)
    ensures
        r == spec_i64_to_f64_bits(i),
{
    if i == 0 {
        return 0;
    }
    let sign: u64 = if i < 0 {
        1
    } else {
        0
    };
    let mag: u64 = if i >= 0 {
        i as u64
    } else if i == i64::MIN {
        0x8000_0000_0000_0000
    } else {
        (-i) as u64
    };
    assert(mag == spec_abs_u64(i));
    let p = msb_index(mag);
    if p <= 52 {
        let frac = (mag << (52 - p)) & 0xF_FFFF_FFFF_FFFF;
        (sign << 63) | ((p + 1023) << 52) | frac
    } else {
        let shift = p - 52;
        let keep = mag >> shift;
        assert((1u64 << shift) >= 2) by (bit_vector)
            requires
                1 <= shift <= 11,
        ;
        let rem = mag & ((1u64 << shift) - 1);
        let half = 1u64 << (shift - 1);
        let round_up = rem > half || (rem == half && (keep & 1) == 1);
        assert(keep < 0xFFFF_FFFF_FFFF_FFFF) by (bit_vector)
            requires
                shift >= 1 && keep == mag >> shift,
        ;
        let keep2: u64 = if round_up {
            keep + 1
        } else {
            keep
        };
        if keep2 == (1u64 << 53) {
            (sign << 63) | ((p + 1024) << 52)
        } else {
            (sign << 63) | ((p + 1023) << 52) | (keep2 & 0xF_FFFF_FFFF_FFFF)
        }
    }
}

/// Truncates the double with bit pattern `bits` toward zero, saturating.
pub fn f64_bits_trunc_to_i64(bits: u64) -> (r: i64)
    ensures
        r == spec_f64_bits_trunc(bits),
{
    let sign = bits >> 63;
    let e = (bits >> 52) & 0x7FF;
    let f = bits & 0xF_FFFF_FFFF_FFFF;
    if e == 0x7FF {
        if f != 0 {
            0
        } else if sign == 1 {
            i64::MIN
        } else {
            i64::MAX
        }
    } else if e < 1023 {
        0
    } else if e >= 1023 + 63 {
        if sign == 1 {
            i64::MIN
        } else {
            i64::MAX
        }
    } else {
        let exp = e - 1023;
        assert(f <= 0xF_FFFF_FFFF_FFFF) by (bit_vector)
            requires
                f == bits & 0xF_FFFF_FFFF_FFFF,
        ;
        let m: u64 = if exp >= 52 {
            assert((f | (1u64 << 52)) << ((exp - 52) as u64) < 0x8000_0000_0000_0000)
                by (bit_vector)
                requires
                    f <= 0xF_FFFF_FFFF_FFFF && 52 <= exp <= 62,
            ;
            (f | (1u64 << 52)) << (exp - 52)
        } else {
            assert((f | (1u64 << 52)) >> ((52 - exp) as u64) < 0x8000_0000_0000_0000)
                by (bit_vector)
                requires
                    f <= 0xF_FFFF_FFFF_FFFF && exp < 52,
            ;
            (f | (1u64 << 52)) >> (52 - exp)
        };
        if sign == 1 {
            -(m as i64)
        } else {
            m as i64
        }
    }
}

} // verus!
