//! Numbers as they arrive: the bit pattern of an IEEE 754 binary64 value,
//! and the integer that such a value is cut down to.
//!
//! A pattern is one sign bit, eleven exponent bits and fifty-two fraction
//! bits. The integer of a number is the number without its fractional part,
//! held to the range of the integer type; what is not a number gives zero.

use vstd::arithmetic::power2::{lemma2_to64, lemma_pow2_adds, lemma_pow2_pos, lemma_pow2_strictly_increases, lemma_pow2_unfold, pow2};
use vstd::prelude::*;

verus! {

/// The exponent field of a pattern.
pub open spec fn exponent(bits: u64) -> nat {
    ((bits as int / 0x10_0000_0000_0000) % 0x800) as nat
}

/// The fraction field of a pattern.
pub open spec fn fraction(bits: u64) -> nat {
    (bits as int % 0x10_0000_0000_0000) as nat
}

/// Whether the sign bit of a pattern is set.
pub open spec fn negative(bits: u64) -> bool {
    bits >= 0x8000_0000_0000_0000
}

/// Whether a pattern stands for no number at all.
pub open spec fn is_nan(bits: u64) -> bool {
    exponent(bits) == 0x7ff && fraction(bits) != 0
}

/// The fraction with the leading one that a pattern implies.
pub open spec fn significand(bits: u64) -> nat {
    0x10_0000_0000_0000 + fraction(bits)
}

/// The whole part of the absolute value that a pattern stands for. An
/// infinite value gives a number beyond every integer type.
pub open spec fn magnitude(bits: u64) -> nat {
    let e = exponent(bits);
    if e < 1023 {
        0
    } else if e <= 1075 {
        significand(bits) / pow2((1075 - e) as nat)
    } else {
        significand(bits) * pow2((e - 1075) as nat)
    }
}

/// The value that a pattern stands for, without its fractional part; zero
/// where it stands for no number.
pub open spec fn truncated(bits: u64) -> int {
    if is_nan(bits) {
        0
    } else if negative(bits) {
        -(magnitude(bits) as int)
    } else {
        magnitude(bits) as int
    }
}

/// A value held to the range from `low` to `high`.
pub open spec fn clamp(value: int, low: int, high: int) -> int {
    if value < low {
        low
    } else if value > high {
        high
    } else {
        value
    }
}

/// Two to the power `k`.
fn power_of_two(k: u64) -> (power: u128)
    requires
        k <= 75,
    ensures
        power == pow2(k as nat),
        power <= 0x800_0000_0000_0000_0000,
{
    let mut power: u128 = 1;
    let mut j: u64 = 0;
    proof {
        lemma2_to64();
        lemma_pow2_adds(64, 11);
    }
    while j < k
        invariant
            j <= k <= 75,
            power == pow2(j as nat),
            pow2(75) == 0x800_0000_0000_0000_0000,
        decreases k - j,
    {
        proof {
            lemma_pow2_unfold((j + 1) as nat);
            lemma_pow2_strictly_increases(j as nat, 75);
        }
        power = power * 2;
        j += 1;
    }
    proof {
        if k < 75 {
            lemma_pow2_strictly_increases(k as nat, 75);
        }
    }
    power
}

/// The magnitude of a pattern, held to what 128 bits can take.
fn capped_magnitude(bits: u64) -> (capped: u128)
    ensures
        capped == clamp(magnitude(bits) as int, 0, u128::MAX as int),
{
    let e: u64 = (bits / 0x10_0000_0000_0000) % 0x800;
    let s: u128 = (0x10_0000_0000_0000 + bits % 0x10_0000_0000_0000) as u128;
    if e < 1023 {
        0
    } else if e <= 1075 {
        let divisor = power_of_two(1075 - e);
        proof {
            lemma_pow2_pos((1075 - e) as nat);
        }
        s / divisor
    } else if e - 1075 >= 76 {
        proof {
            let k = (e - 1075) as nat;
            lemma2_to64();
            lemma_pow2_adds(64, 12);
            if k > 76 {
                lemma_pow2_strictly_increases(76, k);
            }
            assert(s * pow2(k) >= 0x10_0000_0000_0000 * 0x1000_0000_0000_0000_0000) by (nonlinear_arith)
                requires
                    s >= 0x10_0000_0000_0000,
                    pow2(k) >= 0x1000_0000_0000_0000_0000,
            ;
        }
        u128::MAX
    } else {
        let factor = power_of_two(e - 1075);
        assert(s * factor <= 0x1f_ffff_ffff_ffff * 0x800_0000_0000_0000_0000) by (nonlinear_arith)
            requires
                s <= 0x1f_ffff_ffff_ffff,
                factor <= 0x800_0000_0000_0000_0000,
        ;
        s * factor
    }
}

/// Whether the pattern stands for no number.
fn not_a_number(bits: u64) -> (nan: bool)
    ensures
        nan == is_nan(bits),
{
    (bits / 0x10_0000_0000_0000) % 0x800 == 0x7ff && bits % 0x10_0000_0000_0000 != 0
}

/// Cuts the number that `bits` stands for down to a signed integer between
/// `low` and `high`.
pub fn number_to_signed(bits: u64, low: i128, high: i128) -> (value: i128)
    requires
        low <= 0 <= high,
    ensures
        value == clamp(truncated(bits), low as int, high as int),
{
    if not_a_number(bits) {
        return 0;
    }
    let magnitude = capped_magnitude(bits);
    if bits >= 0x8000_0000_0000_0000 {
        if low == i128::MIN && magnitude >= 0x8000_0000_0000_0000_0000_0000_0000_0000 {
            low
        } else if low != i128::MIN && magnitude >= (-low) as u128 {
            low
        } else {
            -(magnitude as i128)
        }
    } else {
        if magnitude >= high as u128 {
            high
        } else {
            magnitude as i128
        }
    }
}

/// Cuts the number that `bits` stands for down to an unsigned integer of at
/// most `high`.
pub fn number_to_unsigned(bits: u64, high: u128) -> (value: u128)
    ensures
        value == clamp(truncated(bits), 0, high as int),
{
    if not_a_number(bits) || bits >= 0x8000_0000_0000_0000 {
        return 0;
    }
    let magnitude = capped_magnitude(bits);
    if magnitude >= high {
        high
    } else {
        magnitude
    }
}

} // verus!
