//! Outgoing protocol commands.
//!
//! The vault never calls its external collaborators synchronously: an
//! operation returns an ordered list of commands which the host executes
//! after committing the local state delta.  Either the whole invocation,
//! commands included, takes effect, or none of it does.

use vstd::prelude::*;

verus! {

/// One fire-and-forget command to an external collaborator.
#[derive(Clone, Copy, Debug, PartialEq, Eq)]
pub enum Command {
    /// Submit a bid to the liquidation queue, funding it with `amount`
    /// stable units at the chosen premium slot.
    SubmitBid { premium_slot: u8, amount: u64 },
    /// Activate every activatable bid of the vault.
    ActivateBids,
    /// Withdraw stable funds from bid `bid_idx`; `None` retracts the whole
    /// bid, `Some(a)` retracts exactly `a`.
    RetractBid { bid_idx: u64, amount: Option<u64> },
    /// Collect the liquidated collateral of every filled bid.
    ClaimLiquidations,
    /// Pay `amount` stable units to `to` in the native currency.
    BankSend { to: u64, amount: u64 },
    /// Route `amount` collateral through the swap router (collateral ->
    /// native bridge -> stable); proceeds go to `to`, or to the vault when
    /// `None`.
    RouterSwap { amount: u64, to: Option<u64> },
    /// Hand `amount` collateral to the configured swap wallet, to be
    /// forwarded on behalf of `forward_to`.
    WalletSend { wallet: u64, amount: u64, forward_to: u64 },
    /// Transfer `amount` collateral units directly to `recipient`.
    CollateralTransfer { recipient: u64, amount: u64 },
}

} // verus!
