//! The commission step that every settlement shares.

use crate::fixed::product_millis;
use crate::fixed::Amount;
use crate::fixed::UNIT;
use vstd::prelude::*;

verus! {

/// What is left of a gross amount once the commission is withheld.
#[derive(Clone, Copy, Debug, PartialEq, Eq, Structural)]
pub struct CommissionData {
    /// The part withheld.
    pub commission: Amount,
    /// The net amount that the receiving party gets.
    pub amount: Amount,
}

/// A commission rate is a fraction of one: at least zero, below one.
pub open spec fn valid_rate(rate: Amount) -> bool {
    rate.millis < UNIT
}

/// Whether `rate` is a commission rate.
pub fn is_valid_rate(rate: Amount) -> (r: bool)
    ensures
        r == valid_rate(rate),
{
    rate.millis < UNIT
}

/// The commission on `gross` at `rate`, in thousandths.
pub open spec fn commission_millis(gross: int, rate: int) -> int {
    product_millis(gross, rate)
}

/// The net amount of `gross` at `rate`, in thousandths.
pub open spec fn net_millis(gross: int, rate: int) -> int {
    gross - commission_millis(gross, rate)
}

/// The commission at a valid rate never exceeds the gross amount, so the net
/// amount is never negative.
pub proof fn lemma_commission_bounded(gross: int, rate: int)
    requires
        0 <= gross,
        0 <= rate < 1000,
    ensures
        0 <= commission_millis(gross, rate) <= gross,
        0 <= net_millis(gross, rate) <= gross,
{
    assert(0 <= gross * rate <= gross * 999) by (nonlinear_arith)
        requires
            0 <= gross,
            0 <= rate <= 999,
    ;
    if gross == 0 {
        assert(gross * rate == 0);
    }
}

/// Splits `amount` into the commission at `commission` (the rate) and the
/// net amount. The commission is the product rounded to three digits, the
/// net amount is the rest, and the two add up to `amount` again.
pub fn take_commission(amount: Amount, commission: Amount) -> (r: CommissionData)
    requires
        valid_rate(commission),
    ensures
        r.commission.millis == commission_millis(amount.millis as int, commission.millis as int),
        r.amount.millis == net_millis(amount.millis as int, commission.millis as int),
        r.commission.millis + r.amount.millis == amount.millis,
{
    proof {
        lemma_commission_bounded(amount.millis as int, commission.millis as int);
    }
    let withheld = match amount.checked_times(commission) {
        Some(c) => c,
        None => Amount::zero(),
    };
    let net = match amount.checked_minus(withheld) {
        Some(n) => n,
        None => Amount::zero(),
    };
    CommissionData { commission: withheld, amount: net }
}

} // verus!
