//! The vault's persistent data.
//!
//! Accounts are identified by canonical numeric ids; amounts, shares and
//! timestamps are 64-bit.  `VaultStorage` gathers everything one operation
//! may read or write; `VaultStorage::wf` is the global invariant that
//! instantiation establishes and every operation preserves: share balances
//! add up to the total supply, lock-record amounts add up to the locked
//! collateral, and lock records sit in FIFO order of non-decreasing
//! claim time.

use vstd::prelude::*;

use crate::lock::{lock_sum, lock_timestamps_sorted};
use crate::maps::{bal_sum, kv_distinct, BalanceMap, PermissionMap, TimestampMap};

verus! {

/// Seconds a freshly claimed lock record stays locked.
pub const LOCK_PERIOD: u64 = 600;

/// Seconds after a deposit during which the depositor may not withdraw.
pub const WITHDRAW_LOCK: u64 = 3600;

/// The singleton vault record.
#[derive(Clone, Copy, Debug, PartialEq, Eq, Structural)]
pub struct State {
    /// Account allowed to run the owner-only operations.
    pub owner: u64,
    /// Outstanding shares over all depositors.
    pub total_supply: u64,
    /// Collateral units currently under time-lock.
    pub locked_collateral: u64,
    /// Destination wallet for operator-routed swaps.
    pub swap_wallet: u64,
    /// While set, deposits are rejected.
    pub paused: bool,
}

/// One entry of the FIFO lock queue: collateral claimed at some time.
#[derive(Clone, Copy, Debug, PartialEq, Eq, Structural)]
pub struct TokenRecord {
    /// Collateral units under lock.
    pub amount: u64,
    /// Time the claim was made.
    pub timestamp: u64,
}

/// Per-account right to submit bids.
#[derive(Clone, Copy, Debug, PartialEq, Eq, Structural)]
pub struct Permission {
    pub submit_bid: bool,
}

/// Everything the vault keeps in persistent storage.
#[derive(Clone, Debug)]
pub struct VaultStorage {
    pub state: State,
    /// Depositor account id -> share balance.
    pub balances: BalanceMap,
    /// Account id -> bid-submission permission.
    pub permissions: PermissionMap,
    /// Depositor account id -> time of most recent deposit.
    pub last_deposit: TimestampMap,
    /// FIFO queue of claimed, still-locked collateral.
    pub claim_list: Vec<TokenRecord>,
}

impl VaultStorage {
    /// The global storage invariant.
    pub open spec fn wf(&self) -> bool {
        &&& self.balances.wf()
        &&& self.permissions.wf()
        &&& self.last_deposit.wf()
        &&& bal_sum(self.balances@) == self.state.total_supply
        &&& lock_sum(self.claim_list@) == self.state.locked_collateral
        &&& lock_timestamps_sorted(self.claim_list@)
    }
}

/// The accounting invariant, spelled out: in any well-formed storage the
/// share balances sum exactly to the total supply and the lock-record
/// amounts sum exactly to the locked collateral.
pub proof fn lemma_vault_accounting(st: VaultStorage)
    requires
        st.wf(),
    ensures
        bal_sum(st.balances@) == st.state.total_supply,
        lock_sum(st.claim_list@) == st.state.locked_collateral,
        kv_distinct(st.balances@),
{
}

} // verus!
