//! The oracle exchange rate between the collateral asset and the stable
//! currency, and the lossless cross-asset conversions built on it.
//!
//! The rate is the fraction `num / den`; valuing collateral multiplies by
//! it, valuing a stable amount in collateral units divides by it (the
//! reciprocal).  Products are taken at double width, so the only failure
//! is a quotient that does not fit the local integer width.

use vstd::prelude::*;

use crate::error::ContractError;

verus! {

/// An oracle rate `num / den`, in stable units per collateral unit.
#[derive(Clone, Copy, Debug, PartialEq, Eq, Structural)]
pub struct Rate {
    pub num: u64,
    pub den: u64,
}

impl Rate {
    /// A rate is a fraction with a positive denominator.
    pub open spec fn wf(&self) -> bool {
        self.den >= 1
    }
}

/// `floor(amount * num / den)`: the stable value of `amount` collateral
/// units.  Fails when the value does not fit the local width.
pub fn stable_value(amount: u64, rate: &Rate) -> (r: Result<u64, ContractError>)
    requires
        rate.wf(),
    ensures
        r is Ok <==> amount * rate.num / (rate.den as int) <= u64::MAX,
        r matches Ok(v) ==> v as int == amount * rate.num / (rate.den as int),
        amount * rate.num / (rate.den as int) > u64::MAX ==> r == Err::<u64, ContractError>(
            ContractError::ConversionOverflow,
        ),
{
    proof {
        assert((amount as int) * (rate.num as int) <= (u64::MAX as int) * (u64::MAX as int))
            by (nonlinear_arith)
            requires
                amount <= u64::MAX,
                rate.num <= u64::MAX,
        ;
    }
    let wide: u128 = (amount as u128) * (rate.num as u128);
    let q: u128 = wide / (rate.den as u128);
    if q > u64::MAX as u128 {
        Err(ContractError::ConversionOverflow)
    } else {
        Ok(q as u64)
    }
}

/// `floor(amount * den / num)`: the collateral value of `amount` stable
/// units, by the reciprocal rate.  Fails on a zero rate, or when the
/// value does not fit the local width.
pub fn collateral_value(amount: u64, rate: &Rate) -> (r: Result<u64, ContractError>)
    requires
        rate.wf(),
    ensures
        rate.num == 0 ==> r == Err::<u64, ContractError>(ContractError::DivideByZero),
        rate.num >= 1 ==> (r is Ok <==> amount * rate.den / (rate.num as int) <= u64::MAX),
        r matches Ok(v) ==> v as int == amount * rate.den / (rate.num as int),
        rate.num >= 1 && amount * rate.den / (rate.num as int) > u64::MAX ==> r == Err::<u64, ContractError>(
            ContractError::ConversionOverflow,
        ),
{
    if rate.num == 0 {
        return Err(ContractError::DivideByZero);
    }
    proof {
        assert((amount as int) * (rate.den as int) <= (u64::MAX as int) * (u64::MAX as int))
            by (nonlinear_arith)
            requires
                amount <= u64::MAX,
                rate.den <= u64::MAX,
        ;
    }
    let wide: u128 = (amount as u128) * (rate.den as u128);
    let q: u128 = wide / (rate.num as u128);
    if q > u64::MAX as u128 {
        Err(ContractError::ConversionOverflow)
    } else {
        Ok(q as u64)
    }
}

} // verus!
