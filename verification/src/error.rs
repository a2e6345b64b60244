//! The closed set of failure reasons.  Every vault operation either
//! succeeds completely or aborts with one of these; no partial effect is
//! ever observable.

use vstd::prelude::*;

verus! {

/// One variant per failure kind.
#[derive(Clone, Copy, Debug, PartialEq, Eq, Structural)]
pub enum ContractError {
    /// The caller is neither the owner nor otherwise permitted.
    Unauthorized,
    /// Malformed input: wrong denomination, zero amount, or a redundant
    /// state change.
    Invalidate,
    /// A balance, the bid list, or the matured locks cannot cover the
    /// request.
    Insufficient,
    /// The total capitalization resolved to zero against a non-zero share
    /// supply.
    DivideByZero,
    /// An arithmetic result exceeded the local integer width.
    Overflow,
    /// An externally reported amount cannot be losslessly converted to the
    /// local integer width.
    ConversionOverflow,
    /// Deposits are rejected while the vault is paused.
    Paused,
    /// A withdrawal was attempted inside the post-deposit cooldown window.
    Locked,
}

} // verus!
