//! The valuation engine: one stable-denominated figure for everything the
//! vault controls — idle stable balance, idle collateral, and the capital
//! parked in pending bids — with the collateral side converted at the
//! oracle rate.

use vstd::prelude::*;

use crate::bids::{
    aggregate_bids, amounts_fit, pending_fit, sum_collateral, sum_stable, BidLedger,
};
use crate::error::ContractError;
use crate::rate::{stable_value, Rate};

verus! {

/// Snapshot of every host query one invocation may need: the vault's
/// idle balances, its bids in the external queue, the oracle rate, and
/// the current block time.
#[derive(Clone, Debug)]
pub struct VaultEnv {
    /// Idle stable balance held by the vault.
    pub stable_balance: u64,
    /// Idle collateral balance held by the vault.
    pub collateral_balance: u64,
    /// All bids of the vault in the external queue.
    pub bids: BidLedger,
    /// Current oracle rate.
    pub rate: Rate,
    /// Current block time, in seconds.
    pub now: u64,
}

impl VaultEnv {
    pub open spec fn wf(&self) -> bool {
        &&& self.bids.wf()
        &&& self.rate.wf()
    }
}

/// The total capitalization as unbounded arithmetic: idle stable plus
/// stable waiting in bids, plus the collateral side (idle plus claimable)
/// valued at the oracle rate.
pub open spec fn cap_value(s: Seq<crate::bids::BidResponse>, rate: Rate, sb: int, cb: int) -> int {
    (sb + sum_stable(s)) + (cb + sum_collateral(s)) * rate.num / (rate.den as int)
}

/// Every intermediate of the computation fits the local integer width.
pub open spec fn cap_ok(s: Seq<crate::bids::BidResponse>, rate: Rate, sb: int, cb: int) -> bool {
    &&& amounts_fit(s)
    &&& pending_fit(s)
    &&& sb + sum_stable(s) <= u64::MAX
    &&& cb + sum_collateral(s) <= u64::MAX
    &&& (cb + sum_collateral(s)) * rate.num / (rate.den as int) <= u64::MAX
    &&& cap_value(s, rate, sb, cb) <= u64::MAX
}

/// The exact failure kind when the computation does not fit: an
/// unconvertible external amount or converted value is a conversion
/// overflow, an overflowing total an arithmetic overflow.
pub open spec fn cap_err(s: Seq<crate::bids::BidResponse>, rate: Rate, sb: int, cb: int) -> ContractError {
    if !(amounts_fit(s) && pending_fit(s)) {
        ContractError::ConversionOverflow
    } else if !(sb + sum_stable(s) <= u64::MAX && cb + sum_collateral(s) <= u64::MAX) {
        ContractError::Overflow
    } else if (cb + sum_collateral(s)) * rate.num / (rate.den as int) > u64::MAX {
        ContractError::ConversionOverflow
    } else {
        ContractError::Overflow
    }
}

/// Computes the total capitalization from the given starting balances.
/// Succeeds exactly when every step fits the local width; an external
/// amount or a converted value that does not fit is a conversion
/// overflow, an overflowing total an arithmetic overflow.
pub fn compute_total_cap(bids: &BidLedger, rate: &Rate, stable_base: u64, collateral_base: u64) -> (r:
    Result<u64, ContractError>)
    requires
        bids.wf(),
        rate.wf(),
    ensures
        ({
            let s = bids.bids@;
            let sb = stable_base as int;
            let cb = collateral_base as int;
            &&& (r is Ok <==> cap_ok(s, *rate, sb, cb))
            &&& (r matches Ok(v) ==> v as int == cap_value(s, *rate, sb, cb))
            &&& (r is Err ==> r == Err::<u64, ContractError>(cap_err(s, *rate, sb, cb)))
            &&& (!(amounts_fit(s) && pending_fit(s)) ==> r == Err::<u64, ContractError>(
                ContractError::ConversionOverflow,
            ))
            &&& (amounts_fit(s) && pending_fit(s) && !(sb + sum_stable(s) <= u64::MAX && cb
                + sum_collateral(s) <= u64::MAX) ==> r == Err::<u64, ContractError>(
                ContractError::Overflow,
            ))
            &&& (amounts_fit(s) && pending_fit(s) && sb + sum_stable(s) <= u64::MAX && cb
                + sum_collateral(s) <= u64::MAX && (cb + sum_collateral(s)) * rate.num / (rate.den as int)
                > u64::MAX ==> r == Err::<u64, ContractError>(ContractError::ConversionOverflow))
            &&& (amounts_fit(s) && pending_fit(s) && sb + sum_stable(s) <= u64::MAX && cb
                + sum_collateral(s) <= u64::MAX && (cb + sum_collateral(s)) * rate.num / (rate.den as int)
                <= u64::MAX && cap_value(s, *rate, sb, cb) > u64::MAX ==> r == Err::<
                u64,
                ContractError,
            >(ContractError::Overflow))
        }),
{
    let totals = match aggregate_bids(bids, stable_base, collateral_base) {
        Ok(t) => t,
        Err(e) => {
            return Err(e);
        },
    };
    let stable_total = totals.0;
    let collateral_total = totals.1;
    let value = match stable_value(collateral_total, rate) {
        Ok(v) => v,
        Err(e) => {
            return Err(e);
        },
    };
    match value.checked_add(stable_total) {
        Some(total) => Ok(total),
        None => Err(ContractError::Overflow),
    }
}

} // verus!
