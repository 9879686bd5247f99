//! Fixed-point quantities with three fractional digits, and the decimal
//! arithmetic that rounds back to that scale.

use rust_decimal::Decimal;
use rust_decimal::RoundingStrategy;
use vstd::prelude::*;

verus! {

/// Number of fractional digits that every quantity carries.
pub const SCALE: u32 = 3;

/// One whole unit, in thousandths.
pub const UNIT: u64 = 1000;

/// Largest absolute mantissa of a 96-bit decimal.
pub const MAX_MANTISSA: i128 = 79228162514264337593543950335;

/// Largest scale of a 96-bit decimal.
pub const MAX_DECIMAL_SCALE: u32 = 28;

/// A non-negative quantity (money, an asset amount, a price or a rate) held
/// as a whole number of thousandths.
#[derive(Clone, Copy, Debug, PartialEq, Eq, Structural)]
pub struct Amount {
    pub millis: u64,
}

/// Ten to the power `n`.
pub open spec fn pow10(n: nat) -> int
    decreases n,
{
    if n == 0 {
        1
    } else {
        10 * pow10((n - 1) as nat)
    }
}

/// A power of ten is positive.
pub proof fn lemma_pow10_positive(n: nat)
    ensures
        pow10(n) >= 1,
    decreases n,
{
    if n > 0 {
        lemma_pow10_positive((n - 1) as nat);
    }
}

/// `m / d` rounded to the nearest integer, a tie going away from zero.
pub open spec fn round_half_away(m: int, d: int) -> int {
    if m >= 0 {
        (m + d / 2) / d
    } else {
        -((-m + d / 2) / d)
    }
}

/// The thousandths of `a * b`, where both are given in thousandths, rounded
/// to the nearest thousandth with a tie going up.
pub open spec fn product_millis(a: int, b: int) -> int {
    (a * b + 500) / 1000
}

/// Multiplies two decimals, each given as mantissa and scale, with
/// `rust_decimal::Decimal::checked_mul`. The contract covers the exact cases
/// only: a zero operand gives the zero of scale 0, and a product whose
/// mantissa fits 96 bits and whose scale is at most 28 is returned as it is.
/// Of a product that the outside code has to shorten nothing is claimed.
#[verifier::external_body]
fn decimal_mul(m1: i128, s1: u32, m2: i128, s2: u32) -> (r: Option<(i128, u32)>)
    requires
        s1 <= MAX_DECIMAL_SCALE,
        s2 <= MAX_DECIMAL_SCALE,
        -MAX_MANTISSA <= m1 <= MAX_MANTISSA,
        -MAX_MANTISSA <= m2 <= MAX_MANTISSA,
    ensures
        (m1 == 0 || m2 == 0) ==> r == Some((0i128, 0u32)),
        (m1 != 0 && m2 != 0 && s1 + s2 <= MAX_DECIMAL_SCALE && -MAX_MANTISSA <= m1 * m2
            <= MAX_MANTISSA) ==> r == Some(((m1 * m2) as i128, (s1 + s2) as u32)),
{
    let a = Decimal::from_i128_with_scale(m1, s1);
    let b = Decimal::from_i128_with_scale(m2, s2);
    a.checked_mul(b).map(|d| (d.mantissa(), d.scale()))
}

/// Rounds a decimal, given as mantissa and scale, to `dp` fractional digits
/// with `rust_decimal::Decimal::round_dp_with_strategy` and the strategy
/// `MidpointAwayFromZero`. A value that has no more than `dp` digits comes
/// back unchanged; otherwise the mantissa is divided by the power of ten
/// that drops the surplus digits, to the nearest, a tie away from zero.
#[verifier::external_body]
pub(crate) fn decimal_round(m: i128, s: u32, dp: u32) -> (r: (i128, u32))
    requires
        s <= MAX_DECIMAL_SCALE,
        -MAX_MANTISSA <= m <= MAX_MANTISSA,
    ensures
        s <= dp ==> r == (m, s),
        s > dp ==> r.0 == round_half_away(m as int, pow10((s - dp) as nat)) && r.1 == dp,
{
    let d = Decimal::from_i128_with_scale(m, s);
    let q = d.round_dp_with_strategy(dp, RoundingStrategy::MidpointAwayFromZero);
    (q.mantissa(), q.scale())
}

/// `a` thousandths times `ppm` millionths, in thousandths, rounded to the
/// nearest thousandth with a tie going up.
pub open spec fn scaled_millis(a: int, ppm: int) -> int {
    (a * ppm + 500000) / 1000000
}

proof fn lemma_pow10_6()
    ensures
        pow10(6) == 1000000,
{
    reveal_with_fuel(pow10, 7);
}

proof fn lemma_pow10_3()
    ensures
        pow10(3) == 1000,
{
    reveal_with_fuel(pow10, 4);
}

impl Amount {
    /// The zero quantity.
    pub fn zero() -> (r: Amount)
        ensures
            r.millis == 0,
    {
        Amount { millis: 0 }
    }

    /// A quantity from its number of thousandths.
    pub fn from_millis(millis: u64) -> (r: Amount)
        ensures
            r.millis == millis,
    {
        Amount { millis }
    }

    /// The sum, or `None` where it does not fit.
    pub fn checked_plus(self, other: Amount) -> (r: Option<Amount>)
        ensures
            match r {
                Some(a) => a.millis == self.millis + other.millis,
                None => self.millis + other.millis > u64::MAX,
            },
    {
        match self.millis.checked_add(other.millis) {
            Some(m) => Some(Amount { millis: m }),
            None => None,
        }
    }

    /// The difference, or `None` where `other` is the larger.
    pub fn checked_minus(self, other: Amount) -> (r: Option<Amount>)
        ensures
            match r {
                Some(a) => a.millis == self.millis - other.millis,
                None => self.millis < other.millis,
            },
    {
        if self.millis >= other.millis {
            Some(Amount { millis: self.millis - other.millis })
        } else {
            None
        }
    }

    /// The quantity times a factor given in millionths, rounded to three
    /// fractional digits, a tie going up; `None` where the result does not fit.
    pub fn checked_times_ppm(self, ppm: u32) -> (r: Option<Amount>)
        ensures
            match r {
                Some(a) => a.millis == scaled_millis(self.millis as int, ppm as int),
                None => scaled_millis(self.millis as int, ppm as int) > u64::MAX,
            },
    {
        proof {
            let a = self.millis as int;
            let f = ppm as int;
            assert(0 <= a * f <= 0xffff_ffff_ffff_ffff * 0xffff_ffff) by (nonlinear_arith)
                requires
                    0 <= a <= 0xffff_ffff_ffff_ffff,
                    0 <= f <= 0xffff_ffff,
            ;
            assert((a == 0 || f == 0) ==> a * f == 0) by (nonlinear_arith);
        }
        let product = decimal_mul(self.millis as i128, SCALE, ppm as i128, SCALE + SCALE);
        match product {
            Some((m, s)) => {
                let rounded = decimal_round(m, s, SCALE);
                proof {
                    lemma_pow10_6();
                }
                if rounded.0 > u64::MAX as i128 {
                    None
                } else {
                    Some(Amount { millis: rounded.0 as u64 })
                }
            },
            None => None,
        }
    }

    /// The product rounded to three fractional digits, a tie going up;
    /// `None` where the rounded product does not fit.
    pub fn checked_times(self, other: Amount) -> (r: Option<Amount>)
        ensures
            match r {
                Some(a) => a.millis == product_millis(self.millis as int, other.millis as int),
                None => product_millis(self.millis as int, other.millis as int) > u64::MAX,
            },
    {
        let a: u128 = self.millis as u128;
        let b: u128 = other.millis as u128;
        assert(a * b <= 0xffff_ffff_ffff_ffff * 0xffff_ffff_ffff_ffff) by (nonlinear_arith)
            requires
                0 <= a <= 0xffff_ffff_ffff_ffff,
                0 <= b <= 0xffff_ffff_ffff_ffff,
        ;
        let exact: u128 = a * b;
        // The decimal arithmetic shortens a product of more than 96 bits;
        // such a product is beyond 64 bits even after rounding.
        if exact > MAX_MANTISSA as u128 {
            return None;
        }
        let product = decimal_mul(self.millis as i128, SCALE, other.millis as i128, SCALE);
        match product {
            Some((m, s)) => {
                let rounded = decimal_round(m, s, SCALE);
                proof {
                    lemma_pow10_3();
                }
                if rounded.0 > u64::MAX as i128 {
                    None
                } else {
                    Some(Amount { millis: rounded.0 as u64 })
                }
            },
            None => None,
        }
    }
}

} // verus!
