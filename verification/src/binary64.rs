//! Whole numbers among the 64-bit binary encodings of fractional numbers.
//!
//! A JSON number with a fractional representation is carried as the 64 bits of
//! its IEEE 754 encoding: one sign bit, eleven exponent bits, fifty-two
//! fraction bits. Everything here is integer arithmetic on those bits.
use vstd::arithmetic::power2::*;
use vstd::bits::*;
use vstd::prelude::*;

verus! {

/// Two to the power 52: the weight of the exponent field, and the implicit
/// leading bit of a normal number's significand.
pub const FRACTION_RANGE: u64 = 0x10_0000_0000_0000;

/// The exponent at which the significand is scaled by one.
pub const UNIT_EXPONENT: u64 = 1075;

/// The exponent field of an encoding.
pub open spec fn exponent_of(bits: u64) -> int {
    (bits as int / 0x10_0000_0000_0000) % 2048
}

/// The fraction field of an encoding.
pub open spec fn fraction_of(bits: u64) -> int {
    bits as int % 0x10_0000_0000_0000
}

/// Whether the sign bit of an encoding is set.
pub open spec fn is_negative(bits: u64) -> bool {
    bits >= 0x8000_0000_0000_0000
}

/// The magnitude of the number that `bits` encodes, if that number is finite
/// and whole.
///
/// A normal number is `(2^52 + fraction) * 2^(exponent - 1075)`; it is whole
/// if the scale is at least one or divides the significand. Of the numbers
/// with exponent field zero only zero itself is whole, and an exponent field
/// of all ones encodes no finite number.
pub open spec fn whole_magnitude(bits: u64) -> Option<nat> {
    let e = exponent_of(bits);
    let m = 0x10_0000_0000_0000 + fraction_of(bits);
    if e == 2047 {
        None
    } else if e == 0 {
        if fraction_of(bits) == 0 {
            Some(0)
        } else {
            None
        }
    } else if e >= 1075 {
        Some((m * pow2((e - 1075) as nat)) as nat)
    } else if 1075 - e <= 52 && m % (pow2((1075 - e) as nat) as int) == 0 {
        Some((m / (pow2((1075 - e) as nat) as int)) as nat)
    } else {
        None
    }
}

/// The number that `bits` encodes, if it is finite and whole.
pub open spec fn whole_value(bits: u64) -> Option<int> {
    match whole_magnitude(bits) {
        Some(m) => Some(
            if is_negative(bits) {
                -(m as int)
            } else {
                m as int
            },
        ),
        None => None,
    }
}

/// `v` brought into the range from `low` to `high`.
pub open spec fn clamp(v: int, low: int, high: int) -> int {
    if v < low {
        low
    } else if v > high {
        high
    } else {
        v
    }
}

/// The magnitude of a whole number, cut off at the largest `u64`.
fn magnitude(bits: u64) -> (r: Option<u64>)
    ensures
        r == match whole_magnitude(bits) {
            Some(m) => Some(clamp(m as int, 0, u64::MAX as int) as u64),
            None => None::<u64>,
        },
{
    let e = (bits / FRACTION_RANGE) % 2048;
    let f = bits % FRACTION_RANGE;
    if e == 2047 {
        None
    } else if e == 0 {
        if f == 0 {
            Some(0)
        } else {
            None
        }
    } else {
        let m: u64 = FRACTION_RANGE + f;
        if e >= UNIT_EXPONENT {
            let shift: u64 = e - UNIT_EXPONENT;
            if shift >= 12 {
                proof {
                    if shift > 12 {
                        lemma_pow2_strictly_increases(12, shift as nat);
                    }
                    lemma2_to64();
                    assert(m * pow2(shift as nat) >= 0x1_0000_0000_0000_0000) by (nonlinear_arith)
                        requires
                            m >= 0x10_0000_0000_0000,
                            pow2(shift as nat) >= 4096,
                    ;
                }
                Some(u64::MAX)
            } else {
                proof {
                    lemma2_to64();
                    if shift < 11 {
                        lemma_pow2_strictly_increases(shift as nat, 11);
                    }
                    assert(m * pow2(shift as nat) <= u64::MAX) by (nonlinear_arith)
                        requires
                            m < 0x20_0000_0000_0000,
                            pow2(shift as nat) <= 2048,
                    ;
                    lemma_u64_shl_is_mul(m, shift);
                }
                Some(m << shift)
            }
        } else {
            let k: u64 = UNIT_EXPONENT - e;
            if k > 52 {
                None
            } else {
                proof {
                    lemma_u64_pow2_no_overflow(k as nat);
                    lemma_u64_shl_is_mul(1, k);
                    lemma_pow2_pos(k as nat);
                }
                let p: u64 = 1u64 << k;
                if m % p == 0 {
                    Some(m / p)
                } else {
                    None
                }
            }
        }
    }
}

/// The whole number that `bits` encodes, brought into the range of `i64`;
/// `None` if `bits` encodes no finite whole number.
pub fn whole_signed(bits: u64) -> (r: Option<i64>)
    ensures
        r == match whole_value(bits) {
            Some(v) => Some(clamp(v, i64::MIN as int, i64::MAX as int) as i64),
            None => None::<i64>,
        },
{
    match magnitude(bits) {
        None => None,
        Some(m) => {
            if bits >= 0x8000_0000_0000_0000 {
                if m >= 0x8000_0000_0000_0000 {
                    Some(i64::MIN)
                } else {
                    Some(-(m as i64))
                }
            } else if m > 0x7fff_ffff_ffff_ffff {
                Some(i64::MAX)
            } else {
                Some(m as i64)
            }
        },
    }
}

/// The whole number that `bits` encodes, if it is not below zero, brought
/// into the range of `u64`; `None` if `bits` encodes no such number.
pub fn whole_unsigned(bits: u64) -> (r: Option<u64>)
    ensures
        r == match whole_value(bits) {
            Some(v) => if v >= 0 {
                Some(clamp(v, 0, u64::MAX as int) as u64)
            } else {
                None::<u64>
            },
            None => None::<u64>,
        },
{
    match magnitude(bits) {
        None => None,
        Some(m) => {
            if bits >= 0x8000_0000_0000_0000 && m != 0 {
                None
            } else {
                Some(m)
            }
        },
    }
}

} // verus!
