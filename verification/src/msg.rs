//! Caller-facing messages and query responses, over plain values: account
//! ids for addresses, 64-bit amounts and timestamps.

use vstd::prelude::*;

use crate::commands::Command;
use crate::state::Permission;

verus! {

/// Currency denomination of attached funds; the vault accepts deposits
/// only in the recognized stable currency.
#[derive(Clone, Copy, Debug, PartialEq, Eq, Structural)]
pub enum Denom {
    Stable,
    Other,
}

/// One attached coin.
#[derive(Clone, Copy, Debug, PartialEq, Eq, Structural)]
pub struct Coin {
    pub denom: Denom,
    pub amount: u64,
}

/// Who calls, and what funds ride along.
#[derive(Clone, Debug)]
pub struct MessageInfo {
    pub sender: u64,
    pub funds: Vec<Coin>,
}

/// Instantiation parameters.
#[derive(Clone, Copy, Debug, PartialEq, Eq, Structural)]
pub struct InstantiateMsg {
    pub owner: u64,
    pub swap_wallet: u64,
}

/// The state-changing operations.
#[derive(Clone, Copy, Debug, PartialEq, Eq)]
pub enum ExecuteMsg {
    /// Pay stable funds in, minting shares.
    Deposit,
    /// Burn `share` shares for a stable payout.
    WithdrawStable { share: u64 },
    /// Burn `share` shares for a collateral payout.
    WithdrawCollateral { share: u64 },
    /// Submit a bid of `amount` stable units at `premium_slot`.
    SubmitBid { amount: u64, premium_slot: u8 },
    /// Activate all activatable bids.
    ActivateBid,
    /// Claim all liquidated collateral and put it under time-lock.
    ClaimLiquidation,
    /// Move ownership, and the bid permission, to `new_owner`.
    TransferOwnership { new_owner: u64 },
    /// Release every matured lock record.
    Unlock,
    /// Swap all free collateral back to the stable currency.
    Swap,
    /// Set or clear the pause flag.
    Pause { pause: bool },
    /// Grant or revoke the bid permission of `address`.
    SetPermission { address: u64, new_permission: Permission },
    /// Point operator swaps at a new wallet.
    SetSwapWallet { address: u64 },
}

/// The read-only operations.
#[derive(Clone, Copy, Debug, PartialEq, Eq)]
pub enum QueryMsg {
    GetInfo,
    Balance { address: u64 },
    TotalCap,
    Activatable,
    Claimable,
    WithdrawableLimit { address: u64 },
    Permission { address: u64 },
    Unlockable,
    LastDepositTimestamp { address: u64 },
}

/// Result of a successful state-changing operation: the ordered commands
/// the host must execute after committing the storage delta.
#[derive(Clone, Debug)]
pub struct Response {
    pub messages: Vec<Command>,
}

#[derive(Clone, Copy, Debug, PartialEq, Eq, Structural)]
pub struct InfoResponse {
    pub owner: u64,
    pub total_supply: u64,
    pub locked_collateral: u64,
    pub paused: bool,
}

#[derive(Clone, Copy, Debug, PartialEq, Eq, Structural)]
pub struct BalanceResponse {
    pub balance: u64,
}

#[derive(Clone, Copy, Debug, PartialEq, Eq, Structural)]
pub struct TotalCapResponse {
    pub total_cap: u64,
}

#[derive(Clone, Copy, Debug, PartialEq, Eq, Structural)]
pub struct ActivatableResponse {
    pub activatable: bool,
}

#[derive(Clone, Copy, Debug, PartialEq, Eq, Structural)]
pub struct ClaimableResponse {
    pub claimable: bool,
}

#[derive(Clone, Copy, Debug, PartialEq, Eq, Structural)]
pub struct WithdrawableLimitResponse {
    pub limit: u64,
}

#[derive(Clone, Copy, Debug, PartialEq, Eq, Structural)]
pub struct PermissionResponse {
    pub permission: Permission,
}

#[derive(Clone, Copy, Debug, PartialEq, Eq, Structural)]
pub struct UnlockableResponse {
    pub unlockable: bool,
}

#[derive(Clone, Copy, Debug, PartialEq, Eq, Structural)]
pub struct TimestampResponse {
    pub timestamp: u64,
}

/// A query's typed answer.
#[derive(Clone, Copy, Debug, PartialEq, Eq)]
pub enum QueryResponse {
    Info(InfoResponse),
    Balance(BalanceResponse),
    TotalCap(TotalCapResponse),
    Activatable(ActivatableResponse),
    Claimable(ClaimableResponse),
    WithdrawableLimit(WithdrawableLimitResponse),
    Permission(PermissionResponse),
    Unlockable(UnlockableResponse),
    LastDepositTimestamp(TimestampResponse),
}

} // verus!
