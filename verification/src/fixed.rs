//! Double-precision numbers as fixed-point numbers.
//!
//! A double arrives as the 64 bits of its representation: one sign bit,
//! eleven exponent bits, fifty-two fraction bits. Its value is turned into a
//! whole number of millionths by integer arithmetic alone.

use vstd::prelude::*;

verus! {

/// Two to the power 52: the weight of the exponent field.
pub const FRACTION_RANGE: u64 = 0x10_0000_0000_0000;

/// The bits of the double 1.0.
pub const ONE_BITS: u64 = 0x3FF0_0000_0000_0000;

/// The bits of the double -0.0.
pub const NEGATIVE_ZERO_BITS: u64 = 0x8000_0000_0000_0000;

/// Two to the power `k`.
pub open spec fn two_pow(k: nat) -> nat
    decreases k,
{
    if k == 0 {
        1
    } else {
        2 * two_pow((k - 1) as nat)
    }
}

/// Whether the sign bit is set.
pub open spec fn double_negative(bits: u64) -> bool {
    bits >= NEGATIVE_ZERO_BITS
}

/// The exponent field.
pub open spec fn double_exponent(bits: u64) -> int {
    (bits as int / FRACTION_RANGE as int) % 2048
}

/// The fraction field.
pub open spec fn double_fraction(bits: u64) -> int {
    bits as int % FRACTION_RANGE as int
}

/// Whether the double is a number and not infinite.
pub open spec fn double_is_finite(bits: u64) -> bool {
    double_exponent(bits) != 2047
}

/// The significand as a whole number: the double's size is this number
/// divided by two to the power [`double_places`].
pub open spec fn double_mantissa(bits: u64) -> int {
    if double_exponent(bits) == 0 {
        double_fraction(bits)
    } else {
        FRACTION_RANGE + double_fraction(bits)
    }
}

/// Number of binary places of the significand; zero or less for a double of
/// two to the power 52 or more.
pub open spec fn double_places(bits: u64) -> int {
    if double_exponent(bits) == 0 {
        1074
    } else {
        1075 - double_exponent(bits)
    }
}

/// The size of a finite double below two to the power 52 in millionths,
/// rounded to the nearest whole number, halves away from zero.
pub open spec fn micro_magnitude(bits: u64) -> int
    recommends
        double_is_finite(bits),
        double_places(bits) > 0,
{
    let places = double_places(bits) as nat;
    (double_mantissa(bits) * 1_000_000 + two_pow((places - 1) as nat)) / (two_pow(places) as int)
}

/// The double with these bits in millionths, rounded to the nearest whole
/// number; nothing for a double that is no number, is infinite or does not
/// fit 64 bits in millionths.
pub open spec fn double_micro(bits: u64) -> Option<i64> {
    if !double_is_finite(bits) || double_places(bits) <= 0 {
        None
    } else if micro_magnitude(bits) > i64::MAX {
        None
    } else if double_negative(bits) {
        Some((-micro_magnitude(bits)) as i64)
    } else {
        Some(micro_magnitude(bits) as i64)
    }
}

/// Whether the double with these bits lies between zero and one, both
/// included.
pub open spec fn double_is_fraction(bits: u64) -> bool {
    bits <= ONE_BITS || bits == NEGATIVE_ZERO_BITS
}

/// Powers of two are positive and grow with the exponent.
pub proof fn lemma_two_pow_grows(a: nat, b: nat)
    requires
        a <= b,
    ensures
        1 <= two_pow(a) <= two_pow(b),
    decreases b,
{
    if a < b {
        lemma_two_pow_grows(a, (b - 1) as nat);
    } else if a > 0 {
        lemma_two_pow_grows((a - 1) as nat, (a - 1) as nat);
    }
}

/// Two to the power 52, 53 and 76.
pub proof fn lemma_two_pow_values()
    ensures
        two_pow(52) == 0x10_0000_0000_0000,
        two_pow(53) == 0x20_0000_0000_0000,
        two_pow(76) == 0x1000_0000_0000_0000_0000,
{
    reveal_with_fuel(two_pow, 20);
    assert(two_pow(16) == 0x1_0000);
    assert(two_pow(32) == 0x1_0000_0000);
    assert(two_pow(48) == 0x1_0000_0000_0000);
    assert(two_pow(52) == 0x10_0000_0000_0000);
    assert(two_pow(53) == 0x20_0000_0000_0000);
    assert(two_pow(64) == 0x1_0000_0000_0000_0000);
    assert(two_pow(76) == 0x1000_0000_0000_0000_0000);
}

/// A double between zero and one is between zero and a million millionths.
pub proof fn lemma_fraction_in_range(bits: u64)
    requires
        double_is_fraction(bits),
    ensures
        double_micro(bits) matches Some(micro) && 0 <= micro <= 1_000_000,
{
    lemma_two_pow_values();
    let places = double_places(bits) as nat;
    let mantissa = double_mantissa(bits);
    if bits == NEGATIVE_ZERO_BITS {
        assert(double_exponent(bits) == 0 && double_fraction(bits) == 0);
        lemma_two_pow_grows(0, 1073);
        lemma_two_pow_grows(1073, 1074);
        assert(two_pow(1074) == 2 * two_pow(1073));
        let half = two_pow(1073) as int;
        assert(mantissa == 0);
        assert((0 * 1_000_000 + half) / (2 * half) == 0) by (nonlinear_arith)
            requires
                half >= 1,
        ;
        assert(micro_magnitude(bits) == 0);
    } else {
        assert(double_exponent(bits) <= 1023);
        assert(places >= 52);
        lemma_two_pow_grows(52, places);
        lemma_two_pow_grows(0, (places - 1) as nat);
        assert(two_pow(places) == 2 * two_pow((places - 1) as nat));
        let unit = two_pow(places) as int;
        assert(mantissa <= unit) by {
            if double_exponent(bits) == 1023 {
                assert(double_fraction(bits) == 0);
            } else if double_exponent(bits) == 0 {
                assert(mantissa < 0x10_0000_0000_0000);
            } else {
                lemma_two_pow_grows(53, places);
            }
        }
        let top = mantissa * 1_000_000 + two_pow((places - 1) as nat);
        assert(0 <= top < unit * 1_000_001) by (nonlinear_arith)
            requires
                0 <= mantissa <= unit,
                top == mantissa * 1_000_000 + two_pow((places - 1) as nat),
                unit == 2 * two_pow((places - 1) as nat),
                two_pow((places - 1) as nat) >= 1,
        ;
        assert(0 <= top / unit <= 1_000_000) by (nonlinear_arith)
            requires
                0 <= top < unit * 1_000_001,
                unit > 0,
        ;
    }
}

/// Two to the power `k`, for an exponent that leaves room in 128 bits.
fn two_pow_of(k: u64) -> (power: u128)
    requires
        k <= 76,
    ensures
        power == two_pow(k as nat),
        power <= 0x1000_0000_0000_0000_0000,
{
    let mut power: u128 = 1;
    let mut i: u64 = 0;
    proof {
        lemma_two_pow_values();
        lemma_two_pow_grows(0, 76);
    }
    while i < k
        invariant
            i <= k <= 76,
            power == two_pow(i as nat),
            power <= two_pow(76),
            two_pow(76) == 0x1000_0000_0000_0000_0000,
        decreases k - i,
    {
        proof {
            lemma_two_pow_grows((i + 1) as nat, 76);
        }
        power = power * 2;
        i = i + 1;
    }
    power
}

/// Turns a double, given by its bits, into millionths, rounded to the
/// nearest whole number. Nothing comes back for a double that is no number,
/// is infinite or does not fit 64 bits in millionths.
pub fn double_to_micro(bits: u64) -> (micro: Option<i64>)
    ensures
        micro == double_micro(bits),
{
    let exponent: u64 = (bits / FRACTION_RANGE) % 2048;
    let fraction: u64 = bits % FRACTION_RANGE;
    if exponent == 2047 || exponent >= 1075 {
        return None;
    }
    let mantissa: u128 = if exponent == 0 {
        fraction as u128
    } else {
        FRACTION_RANGE as u128 + fraction as u128
    };
    let places: u64 = if exponent == 0 {
        1074
    } else {
        1075 - exponent
    };
    let scaled: u128 = mantissa * 1_000_000;
    let magnitude: u128 = if places > 76 {
        proof {
            lemma_two_pow_values();
            lemma_two_pow_grows(76, (places - 1) as nat);
            let half = two_pow((places - 1) as nat) as int;
            assert(two_pow(places as nat) == 2 * half);
            assert((scaled + half) / (2 * half) == 0) by (nonlinear_arith)
                requires
                    0 <= scaled < half,
            ;
        }
        0
    } else {
        let half: u128 = two_pow_of(places - 1);
        proof {
            lemma_two_pow_grows(0, (places - 1) as nat);
            assert(two_pow(places as nat) == 2 * half);
        }
        (scaled + half) / (2 * half)
    };
    if magnitude > i64::MAX as u128 {
        None
    } else if bits >= NEGATIVE_ZERO_BITS {
        Some(-(magnitude as i64))
    } else {
        Some(magnitude as i64)
    }
}

/// Says whether a double, given by its bits, lies between zero and one, both
/// included.
pub fn double_in_unit_range(bits: u64) -> (inside: bool)
    ensures
        inside == double_is_fraction(bits),
{
    bits <= ONE_BITS || bits == NEGATIVE_ZERO_BITS
}

} // verus!
