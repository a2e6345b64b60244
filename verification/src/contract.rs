//! The vault's operation handlers.
//!
//! Every state-changing operation takes the stored vault data and a
//! `VaultEnv` snapshot of the host queries, and either updates the
//! storage and returns the outgoing commands, or fails with a typed error
//! and leaves the storage untouched — the all-or-nothing semantics of the
//! host.  Each handler's contract is stated as a `*_post` predicate
//! relating the storage before and after, the environment, the arguments
//! and the result; `execute` dispatches and guarantees the matching
//! predicate per message.

use vstd::prelude::*;

use crate::bids::{
    pending_fit, plan_retractions, retraction_plan, sum_collateral, sum_pending, sum_stable,
};
use crate::commands::Command;
use crate::error::ContractError;
use crate::rate::collateral_value;
use crate::lock::{
    drain_matured, lemma_lock_sum_nonneg, lemma_lock_sum_push, lock_sum, matured_count,
};
use crate::maps::{
    bal_of, kv_find, lemma_bal_le_sum, perm_of, BalanceMap, PermissionMap, TimestampMap,
};
use crate::msg::{Denom, ExecuteMsg, InstantiateMsg, MessageInfo, Response};
use crate::state::{Permission, State, TokenRecord, VaultStorage, WITHDRAW_LOCK};
use crate::valuation::{cap_err, cap_ok, cap_value, compute_total_cap, VaultEnv};

verus! {

/// The storage is exactly as it was: nothing of a failed invocation
/// survives.
pub open spec fn unchanged(pre: VaultStorage, post: VaultStorage) -> bool {
    &&& post.state == pre.state
    &&& post.balances@ == pre.balances@
    &&& post.permissions@ == pre.permissions@
    &&& post.last_deposit@ == pre.last_deposit@
    &&& post.claim_list@ == pre.claim_list@
}

/// What instantiation yields: an empty, unpaused vault owned by
/// `msg.owner`, with the bid permission granted to the owner alone and
/// no outgoing commands.
pub open spec fn instantiate_post(msg: InstantiateMsg, st: VaultStorage, resp: Response) -> bool {
    &&& st.wf()
    &&& st.state == (State {
        owner: msg.owner,
        total_supply: 0,
        locked_collateral: 0,
        swap_wallet: msg.swap_wallet,
        paused: false,
    })
    &&& st.balances@ == Seq::<(u64, u64)>::empty()
    &&& perm_of(st.permissions@, msg.owner) == (Permission { submit_bid: true })
    &&& forall|a: u64|
        a != msg.owner ==> perm_of(st.permissions@, a) == (Permission { submit_bid: false })
    &&& st.last_deposit@ == Seq::<(u64, u64)>::empty()
    &&& st.claim_list@ == Seq::<TokenRecord>::empty()
    &&& resp.messages@ == Seq::<Command>::empty()
}

/// Creates the vault.
pub fn instantiate(msg: &InstantiateMsg) -> (r: (VaultStorage, Response))
    ensures
        instantiate_post(*msg, r.0, r.1),
{
    let mut permissions = PermissionMap::new();
    permissions.set(msg.owner, Permission { submit_bid: true });
    let st = VaultStorage {
        state: State {
            owner: msg.owner,
            total_supply: 0,
            locked_collateral: 0,
            swap_wallet: msg.swap_wallet,
            paused: false,
        },
        balances: BalanceMap::new(),
        permissions,
        last_deposit: TimestampMap::new(),
        claim_list: Vec::new(),
    };
    (st, Response { messages: Vec::new() })
}

/// Submitting a bid is permission-gated, needs a positive amount, and
/// needs the idle stable balance to cover it; it changes no storage and
/// issues the one submit command, funded with the amount.
pub open spec fn submit_bid_post(
    st: VaultStorage,
    env: VaultEnv,
    sender: u64,
    amount: u64,
    premium_slot: u8,
    r: Result<Response, ContractError>,
) -> bool {
    if !perm_of(st.permissions@, sender).submit_bid {
        r == Err::<Response, ContractError>(ContractError::Unauthorized)
    } else if amount >= 1 && env.stable_balance >= amount {
        r matches Ok(resp) && resp.messages@ == seq![
            Command::SubmitBid { premium_slot, amount },
        ]
    } else {
        r == Err::<Response, ContractError>(ContractError::Insufficient)
    }
}

/// Submits a bid of `amount` stable units at `premium_slot`.
pub fn submit_bid(
    storage: &VaultStorage,
    env: &VaultEnv,
    sender: u64,
    amount: u64,
    premium_slot: u8,
) -> (r: Result<Response, ContractError>)
    ensures
        submit_bid_post(*storage, *env, sender, amount, premium_slot, r),
{
    let permission = storage.permissions.get(sender);
    if !permission.submit_bid {
        return Err(ContractError::Unauthorized);
    }
    if amount >= 1 && env.stable_balance >= amount {
        let mut messages: Vec<Command> = Vec::new();
        messages.push(Command::SubmitBid { premium_slot, amount });
        proof {
            assert(messages@ =~= seq![Command::SubmitBid { premium_slot, amount }]);
        }
        Ok(Response { messages })
    } else {
        Err(ContractError::Insufficient)
    }
}

/// Activation is unrestricted and always issues the one activate-all
/// command.
pub open spec fn activate_bid_post(r: Result<Response, ContractError>) -> bool {
    r matches Ok(resp) && resp.messages@ == seq![Command::ActivateBids]
}

/// Activates every activatable bid.
pub fn activate_bid() -> (r: Result<Response, ContractError>)
    ensures
        activate_bid_post(r),
{
    let mut messages: Vec<Command> = Vec::new();
    messages.push(Command::ActivateBids);
    proof {
        assert(messages@ =~= seq![Command::ActivateBids]);
    }
    Ok(Response { messages })
}

/// Ownership moves, the new owner gains the bid permission, the old
/// owner loses it; owner-only.
pub open spec fn transfer_ownership_post(
    pre: VaultStorage,
    post: VaultStorage,
    sender: u64,
    new_owner: u64,
    r: Result<Response, ContractError>,
) -> bool {
    if pre.state.owner != sender {
        r == Err::<Response, ContractError>(ContractError::Unauthorized) && unchanged(pre, post)
    } else {
        &&& (r matches Ok(resp) && resp.messages@ == Seq::<Command>::empty())
        &&& post.wf()
        &&& post.state == (State { owner: new_owner, ..pre.state })
        &&& perm_of(post.permissions@, new_owner) == (Permission { submit_bid: true })
        &&& pre.state.owner != new_owner ==> perm_of(post.permissions@, pre.state.owner) == (
        Permission { submit_bid: false })
        &&& forall|a: u64|
            a != new_owner && a != pre.state.owner ==> perm_of(post.permissions@, a) == perm_of(
                pre.permissions@,
                a,
            )
        &&& post.balances@ == pre.balances@
        &&& post.last_deposit@ == pre.last_deposit@
        &&& post.claim_list@ == pre.claim_list@
    }
}

/// Moves ownership, and the bid permission, to `new_owner`.
pub fn transfer_ownership(storage: &mut VaultStorage, sender: u64, new_owner: u64) -> (r: Result<
    Response,
    ContractError,
>)
    requires
        old(storage).wf(),
    ensures
        transfer_ownership_post(*old(storage), *final(storage), sender, new_owner, r),
{
    let owner = storage.state.owner;
    if owner != sender {
        return Err(ContractError::Unauthorized);
    }
    storage.permissions.remove(owner);
    storage.permissions.set(new_owner, Permission { submit_bid: true });
    storage.state.owner = new_owner;
    Ok(Response { messages: Vec::new() })
}

/// Granting or revoking a bid permission is owner-only and must change
/// the stored value; the permission is written under the target address.
pub open spec fn set_permission_post(
    pre: VaultStorage,
    post: VaultStorage,
    sender: u64,
    address: u64,
    new_permission: Permission,
    r: Result<Response, ContractError>,
) -> bool {
    if pre.state.owner != sender {
        r == Err::<Response, ContractError>(ContractError::Unauthorized) && unchanged(pre, post)
    } else if perm_of(pre.permissions@, address) == new_permission {
        r == Err::<Response, ContractError>(ContractError::Invalidate) && unchanged(pre, post)
    } else {
        &&& (r matches Ok(resp) && resp.messages@ == Seq::<Command>::empty())
        &&& post.wf()
        &&& post.state == pre.state
        &&& perm_of(post.permissions@, address) == new_permission
        &&& forall|a: u64|
            a != address ==> perm_of(post.permissions@, a) == perm_of(pre.permissions@, a)
        &&& post.balances@ == pre.balances@
        &&& post.last_deposit@ == pre.last_deposit@
        &&& post.claim_list@ == pre.claim_list@
    }
}

/// Grants or revokes the bid permission of `address`.
pub fn set_permission(
    storage: &mut VaultStorage,
    sender: u64,
    address: u64,
    new_permission: Permission,
) -> (r: Result<Response, ContractError>)
    requires
        old(storage).wf(),
    ensures
        set_permission_post(*old(storage), *final(storage), sender, address, new_permission, r),
{
    if storage.state.owner != sender {
        return Err(ContractError::Unauthorized);
    }
    let current = storage.permissions.get(address);
    if current == new_permission {
        return Err(ContractError::Invalidate);
    }
    if !new_permission.submit_bid {
        storage.permissions.remove(address);
        proof {
            assert(new_permission == (Permission { submit_bid: false }));
        }
    } else {
        storage.permissions.set(address, new_permission);
    }
    Ok(Response { messages: Vec::new() })
}

/// Toggling the pause flag is owner-only and must change it.
pub open spec fn pause_resume_post(
    pre: VaultStorage,
    post: VaultStorage,
    sender: u64,
    pause: bool,
    r: Result<Response, ContractError>,
) -> bool {
    if pre.state.owner != sender {
        r == Err::<Response, ContractError>(ContractError::Unauthorized) && unchanged(pre, post)
    } else if pre.state.paused == pause {
        r == Err::<Response, ContractError>(ContractError::Invalidate) && unchanged(pre, post)
    } else {
        &&& (r matches Ok(resp) && resp.messages@ == Seq::<Command>::empty())
        &&& post.wf()
        &&& post.state == (State { paused: pause, ..pre.state })
        &&& post.balances@ == pre.balances@
        &&& post.permissions@ == pre.permissions@
        &&& post.last_deposit@ == pre.last_deposit@
        &&& post.claim_list@ == pre.claim_list@
    }
}

/// Sets or clears the pause flag gating deposits.
pub fn pause_resume(storage: &mut VaultStorage, sender: u64, pause: bool) -> (r: Result<
    Response,
    ContractError,
>)
    requires
        old(storage).wf(),
    ensures
        pause_resume_post(*old(storage), *final(storage), sender, pause, r),
{
    if storage.state.owner != sender {
        return Err(ContractError::Unauthorized);
    }
    if storage.state.paused == pause {
        return Err(ContractError::Invalidate);
    }
    storage.state.paused = pause;
    Ok(Response { messages: Vec::new() })
}

/// Re-pointing the swap wallet is owner-only.
pub open spec fn set_swap_wallet_post(
    pre: VaultStorage,
    post: VaultStorage,
    sender: u64,
    address: u64,
    r: Result<Response, ContractError>,
) -> bool {
    if pre.state.owner != sender {
        r == Err::<Response, ContractError>(ContractError::Unauthorized) && unchanged(pre, post)
    } else {
        &&& (r matches Ok(resp) && resp.messages@ == Seq::<Command>::empty())
        &&& post.wf()
        &&& post.state == (State { swap_wallet: address, ..pre.state })
        &&& post.balances@ == pre.balances@
        &&& post.permissions@ == pre.permissions@
        &&& post.last_deposit@ == pre.last_deposit@
        &&& post.claim_list@ == pre.claim_list@
    }
}

/// Points operator swaps at a new wallet.
pub fn set_swap_wallet(storage: &mut VaultStorage, sender: u64, address: u64) -> (r: Result<
    Response,
    ContractError,
>)
    requires
        old(storage).wf(),
    ensures
        set_swap_wallet_post(*old(storage), *final(storage), sender, address, r),
{
    if storage.state.owner != sender {
        return Err(ContractError::Unauthorized);
    }
    storage.state.swap_wallet = address;
    Ok(Response { messages: Vec::new() })
}

/// Unlock releases the matured prefix of the lock queue (a record whose
/// lock period ends exactly now counts), reduces the locked total by the
/// released amount, and fails when nothing matured.
pub open spec fn unlock_post(
    pre: VaultStorage,
    post: VaultStorage,
    now: u64,
    r: Result<Response, ContractError>,
) -> bool {
    let m = matured_count(pre.claim_list@, now);
    let freed = lock_sum(pre.claim_list@.take(m));
    if freed == 0 {
        r == Err::<Response, ContractError>(ContractError::Insufficient) && unchanged(pre, post)
    } else {
        &&& (r matches Ok(resp) && resp.messages@ == Seq::<Command>::empty())
        &&& post.wf()
        &&& post.claim_list@ == pre.claim_list@.skip(m)
        &&& post.state == (State {
            locked_collateral: (pre.state.locked_collateral - freed) as u64,
            ..pre.state
        })
        &&& post.balances@ == pre.balances@
        &&& post.permissions@ == pre.permissions@
        &&& post.last_deposit@ == pre.last_deposit@
    }
}

/// Releases every matured lock record.
pub fn unlock(storage: &mut VaultStorage, now: u64) -> (r: Result<Response, ContractError>)
    requires
        old(storage).wf(),
    ensures
        unlock_post(*old(storage), *final(storage), now, r),
{
    let drained = drain_matured(&storage.claim_list, now);
    let total = drained.0;
    let rest = drained.1;
    if total == 0 {
        return Err(ContractError::Insufficient);
    }
    proof {
        lemma_lock_sum_nonneg(rest@);
    }
    storage.state.locked_collateral = storage.state.locked_collateral - total;
    storage.claim_list = rest;
    Ok(Response { messages: Vec::new() })
}

/// Swap sends all free collateral — the idle balance minus what is under
/// lock — through the router; a vault whose collateral is all locked (or
/// inconsistently over-locked) has nothing to swap.
pub open spec fn swap_post(
    st: VaultStorage,
    env: VaultEnv,
    r: Result<Response, ContractError>,
) -> bool {
    if env.collateral_balance < st.state.locked_collateral {
        r == Err::<Response, ContractError>(ContractError::Overflow)
    } else if env.collateral_balance == st.state.locked_collateral {
        r == Err::<Response, ContractError>(ContractError::Insufficient)
    } else {
        r matches Ok(resp) && resp.messages@ == seq![
            Command::RouterSwap {
                amount: (env.collateral_balance - st.state.locked_collateral) as u64,
                to: None,
            },
        ]
    }
}

/// Swaps all free collateral back to the stable currency.
pub fn swap(storage: &VaultStorage, env: &VaultEnv) -> (r: Result<Response, ContractError>)
    ensures
        swap_post(*storage, *env, r),
{
    if env.collateral_balance < storage.state.locked_collateral {
        return Err(ContractError::Overflow);
    }
    let free = env.collateral_balance - storage.state.locked_collateral;
    if free == 0 {
        return Err(ContractError::Insufficient);
    }
    let mut messages: Vec<Command> = Vec::new();
    messages.push(Command::RouterSwap { amount: free, to: None });
    proof {
        assert(messages@ =~= seq![Command::RouterSwap { amount: free, to: None }]);
    }
    Ok(Response { messages })
}

/// Claiming aggregates the liquidated collateral of all bids; if none is
/// pending the claim fails, otherwise the sum goes under time-lock as a
/// fresh FIFO record stamped with the current time and the claim-all
/// command is issued.
pub open spec fn claim_liquidation_post(
    pre: VaultStorage,
    post: VaultStorage,
    env: VaultEnv,
    r: Result<Response, ContractError>,
) -> bool {
    let s = env.bids.bids@;
    let total = sum_collateral(s);
    if !pending_fit(s) {
        r == Err::<Response, ContractError>(ContractError::ConversionOverflow) && unchanged(
            pre,
            post,
        )
    } else if total > u64::MAX {
        r == Err::<Response, ContractError>(ContractError::Overflow) && unchanged(pre, post)
    } else if total == 0 {
        r == Err::<Response, ContractError>(ContractError::Insufficient) && unchanged(pre, post)
    } else if pre.state.locked_collateral + total > u64::MAX {
        r == Err::<Response, ContractError>(ContractError::Overflow) && unchanged(pre, post)
    } else {
        &&& (r matches Ok(resp) && resp.messages@ == seq![Command::ClaimLiquidations])
        &&& post.wf()
        &&& post.claim_list@ == pre.claim_list@.push(
            TokenRecord { amount: total as u64, timestamp: env.now },
        )
        &&& post.state == (State {
            locked_collateral: (pre.state.locked_collateral + total) as u64,
            ..pre.state
        })
        &&& post.balances@ == pre.balances@
        &&& post.permissions@ == pre.permissions@
        &&& post.last_deposit@ == pre.last_deposit@
    }
}

/// Claims all liquidated collateral and locks it.  Claim times are
/// monotonic block times, so the current time may not lie before the
/// newest record — the assumption that keeps the queue sorted.
pub fn claim_liquidation(storage: &mut VaultStorage, env: &VaultEnv) -> (r: Result<
    Response,
    ContractError,
>)
    requires
        old(storage).wf(),
        env.wf(),
        old(storage).claim_list@.len() > 0 ==> old(storage).claim_list@.last().timestamp
            <= env.now,
    ensures
        claim_liquidation_post(*old(storage), *final(storage), *env, r),
{
    let total = match sum_pending(&env.bids) {
        Ok(t) => t,
        Err(e) => {
            return Err(e);
        },
    };
    if total == 0 {
        return Err(ContractError::Insufficient);
    }
    let new_locked = match storage.state.locked_collateral.checked_add(total) {
        Some(v) => v,
        None => {
            return Err(ContractError::Overflow);
        },
    };
    let rec = TokenRecord { amount: total, timestamp: env.now };
    proof {
        lemma_lock_sum_push(storage.claim_list@, rec);
        let s = storage.claim_list@;
        let p = s.push(rec);
        assert forall|i: int, j: int| 0 <= i <= j < p.len() implies p[i].timestamp
            <= p[j].timestamp by {
            if j < s.len() {
            } else {
                assert(p[j] == rec);
                if i < s.len() {
                    assert(s[i].timestamp <= s[s.len() - 1].timestamp);
                }
            }
        }
    }
    storage.claim_list.push(rec);
    storage.state.locked_collateral = new_locked;
    let mut messages: Vec<Command> = Vec::new();
    messages.push(Command::ClaimLiquidations);
    proof {
        assert(messages@ =~= seq![Command::ClaimLiquidations]);
    }
    Ok(Response { messages })
}

/// The shares a deposit of `amount` mints: one-for-one while no shares
/// are outstanding, otherwise proportional to the pre-deposit total
/// capitalization, rounded down.
pub open spec fn minted_shares(amount: int, supply: int, cap: int) -> int {
    if supply == 0 {
        amount
    } else {
        amount * supply / cap
    }
}

/// A deposit must attach exactly one coin of the stable currency with a
/// positive amount and is rejected while paused.  The vault is then
/// valued without the just-received funds, the proportional shares are
/// minted to the depositor, and the deposit time is recorded.
pub open spec fn deposit_post(
    pre: VaultStorage,
    post: VaultStorage,
    env: VaultEnv,
    info: MessageInfo,
    r: Result<Response, ContractError>,
) -> bool {
    let funds = info.funds@;
    if funds.len() != 1 || funds[0].denom != Denom::Stable || funds[0].amount == 0 {
        r == Err::<Response, ContractError>(ContractError::Invalidate) && unchanged(pre, post)
    } else if pre.state.paused {
        r == Err::<Response, ContractError>(ContractError::Paused) && unchanged(pre, post)
    } else {
        let amount = funds[0].amount;
        let s = env.bids.bids@;
        let sb = env.stable_balance - amount;
        let cb = env.collateral_balance as int;
        let supply = pre.state.total_supply as int;
        if !cap_ok(s, env.rate, sb, cb) {
            r == Err::<Response, ContractError>(cap_err(s, env.rate, sb, cb)) && unchanged(
                pre,
                post,
            )
        } else {
            let cap = cap_value(s, env.rate, sb, cb);
            if supply > 0 && cap == 0 {
                r == Err::<Response, ContractError>(ContractError::DivideByZero) && unchanged(
                    pre,
                    post,
                )
            } else if supply > 0 && amount * supply > u64::MAX {
                r == Err::<Response, ContractError>(ContractError::Overflow) && unchanged(
                    pre,
                    post,
                )
            } else {
                let share = minted_shares(amount as int, supply, cap);
                if supply + share > u64::MAX {
                    r == Err::<Response, ContractError>(ContractError::Overflow) && unchanged(
                        pre,
                        post,
                    )
                } else {
                    &&& (r matches Ok(resp) && resp.messages@ == Seq::<Command>::empty())
                    &&& post.wf()
                    &&& post.state == (State {
                        total_supply: (supply + share) as u64,
                        ..pre.state
                    })
                    &&& bal_of(post.balances@, info.sender) == bal_of(pre.balances@, info.sender)
                        + share
                    &&& forall|a: u64|
                        a != info.sender ==> bal_of(post.balances@, a) == bal_of(pre.balances@, a)
                    &&& kv_find(post.last_deposit@, info.sender) == Some(env.now)
                    &&& forall|a: u64|
                        a != info.sender ==> kv_find(post.last_deposit@, a) == kv_find(
                            pre.last_deposit@,
                            a,
                        )
                    &&& post.permissions@ == pre.permissions@
                    &&& post.claim_list@ == pre.claim_list@
                }
            }
        }
    }
}

/// Deposits the attached stable funds and mints shares.  The host
/// credits attached funds before the handler runs, so the queried stable
/// balance covers them.
pub fn deposit(storage: &mut VaultStorage, env: &VaultEnv, info: &MessageInfo) -> (r: Result<
    Response,
    ContractError,
>)
    requires
        old(storage).wf(),
        env.wf(),
        info.funds@.len() == 1 ==> env.stable_balance >= info.funds@[0].amount,
    ensures
        deposit_post(*old(storage), *final(storage), *env, *info, r),
{
    if info.funds.len() != 1 {
        return Err(ContractError::Invalidate);
    }
    let coin = info.funds[0];
    if coin.denom != Denom::Stable || coin.amount == 0 {
        return Err(ContractError::Invalidate);
    }
    if storage.state.paused {
        return Err(ContractError::Paused);
    }
    let amount = coin.amount;
    let stable_base = env.stable_balance - amount;
    let cap = match compute_total_cap(&env.bids, &env.rate, stable_base, env.collateral_balance) {
        Ok(v) => v,
        Err(e) => {
            return Err(e);
        },
    };
    let supply = storage.state.total_supply;
    let share: u64;
    if supply == 0 {
        share = amount;
    } else {
        if cap == 0 {
            return Err(ContractError::DivideByZero);
        }
        let prod = match amount.checked_mul(supply) {
            Some(p) => p,
            None => {
                return Err(ContractError::Overflow);
            },
        };
        share = prod / cap;
    }
    let new_supply = match supply.checked_add(share) {
        Some(v) => v,
        None => {
            return Err(ContractError::Overflow);
        },
    };
    let bal = storage.balances.get(info.sender);
    proof {
        lemma_bal_le_sum(storage.balances@, info.sender);
    }
    storage.balances.set(info.sender, bal + share);
    storage.state.total_supply = new_supply;
    storage.last_deposit.set(info.sender, env.now);
    Ok(Response { messages: Vec::new() })
}

/// The checks every withdrawal passes before any payout is computed:
/// a positive share amount, an expired cooldown window, a sufficient
/// share balance, a computable valuation, and a payout product that fits
/// the local width.  Returns the error of the first failed check.
pub open spec fn withdraw_gate(
    pre: VaultStorage,
    env: VaultEnv,
    sender: u64,
    share: u64,
) -> Option<ContractError> {
    let s = env.bids.bids@;
    if share == 0 {
        Some(ContractError::Invalidate)
    } else if kv_find(pre.last_deposit@, sender) matches Some(t) && env.now < t + WITHDRAW_LOCK {
        Some(ContractError::Locked)
    } else if bal_of(pre.balances@, sender) < share {
        Some(ContractError::Insufficient)
    } else if !cap_ok(s, env.rate, env.stable_balance as int, env.collateral_balance as int) {
        Some(cap_err(s, env.rate, env.stable_balance as int, env.collateral_balance as int))
    } else if cap_value(s, env.rate, env.stable_balance as int, env.collateral_balance as int)
        * share > u64::MAX {
        Some(ContractError::Overflow)
    } else {
        None
    }
}

/// The stable payout owed for `share` shares: the proportional slice of
/// the current total capitalization, rounded down.
pub open spec fn stable_payout(pre: VaultStorage, env: VaultEnv, share: u64) -> int {
    cap_value(env.bids.bids@, env.rate, env.stable_balance as int, env.collateral_balance as int)
        * share / (pre.state.total_supply as int)
}

/// `share` shares were burned: the supply and the sender's balance both
/// drop by `share` and nothing else of the share ledger moves.
pub open spec fn burned(pre: VaultStorage, post: VaultStorage, sender: u64, share: u64) -> bool {
    &&& post.wf()
    &&& post.state == (State {
        total_supply: (pre.state.total_supply - share) as u64,
        ..pre.state
    })
    &&& bal_of(post.balances@, sender) == bal_of(pre.balances@, sender) - share
    &&& forall|a: u64| a != sender ==> bal_of(post.balances@, a) == bal_of(pre.balances@, a)
    &&& post.permissions@ == pre.permissions@
    &&& post.last_deposit@ == pre.last_deposit@
    &&& post.claim_list@ == pre.claim_list@
}

/// A stable withdrawal pays the proportional payout directly from the
/// idle balance when it suffices; otherwise it retracts bids, ascending,
/// to cover exactly the shortfall and appends the payout transfer after
/// the retractions.  When even all bids together cannot cover the
/// shortfall the whole operation fails and nothing changes.
pub open spec fn withdraw_stable_post(
    pre: VaultStorage,
    post: VaultStorage,
    env: VaultEnv,
    sender: u64,
    share: u64,
    r: Result<Response, ContractError>,
) -> bool {
    let s = env.bids.bids@;
    match withdraw_gate(pre, env, sender, share) {
        Some(e) => r == Err::<Response, ContractError>(e) && unchanged(pre, post),
        None => {
            let payout = stable_payout(pre, env, share);
            if env.stable_balance >= payout {
                &&& burned(pre, post, sender, share)
                &&& (r matches Ok(resp) && resp.messages@ == seq![
                    Command::BankSend { to: sender, amount: payout as u64 },
                ])
            } else {
                let shortfall = payout - env.stable_balance;
                if shortfall <= sum_stable(s) {
                    &&& burned(pre, post, sender, share)
                    &&& (r matches Ok(resp) && resp.messages@ == retraction_plan(
                        s,
                        shortfall,
                    ).push(Command::BankSend { to: sender, amount: payout as u64 }))
                } else {
                    r == Err::<Response, ContractError>(ContractError::Insufficient) && unchanged(
                        pre,
                        post,
                    )
                }
            }
        },
    }
}

/// Burns `share` shares and pays out their stable value.
pub fn withdraw_stable(storage: &mut VaultStorage, env: &VaultEnv, sender: u64, share: u64) -> (r:
    Result<Response, ContractError>)
    requires
        old(storage).wf(),
        env.wf(),
    ensures
        withdraw_stable_post(*old(storage), *final(storage), *env, sender, share, r),
{
    if share == 0 {
        return Err(ContractError::Invalidate);
    }
    match storage.last_deposit.get(sender) {
        Some(t) => {
            match t.checked_add(WITHDRAW_LOCK) {
                Some(unlock_at) => {
                    if env.now < unlock_at {
                        return Err(ContractError::Locked);
                    }
                },
                None => {
                    return Err(ContractError::Locked);
                },
            }
        },
        None => {},
    }
    let bal = storage.balances.get(sender);
    if bal < share {
        return Err(ContractError::Insufficient);
    }
    proof {
        lemma_bal_le_sum(storage.balances@, sender);
    }
    let cap = match compute_total_cap(
        &env.bids,
        &env.rate,
        env.stable_balance,
        env.collateral_balance,
    ) {
        Ok(v) => v,
        Err(e) => {
            return Err(e);
        },
    };
    let supply = storage.state.total_supply;
    let prod = match cap.checked_mul(share) {
        Some(p) => p,
        None => {
            return Err(ContractError::Overflow);
        },
    };
    let payout = prod / supply;
    if env.stable_balance >= payout {
        storage.balances.set(sender, bal - share);
        storage.state.total_supply = supply - share;
        let mut messages: Vec<Command> = Vec::new();
        messages.push(Command::BankSend { to: sender, amount: payout });
        proof {
            assert(messages@ =~= seq![Command::BankSend { to: sender, amount: payout }]);
        }
        Ok(Response { messages })
    } else {
        let shortfall = payout - env.stable_balance;
        let mut messages = match plan_retractions(&env.bids, shortfall) {
            Ok(c) => c,
            Err(e) => {
                return Err(e);
            },
        };
        storage.balances.set(sender, bal - share);
        storage.state.total_supply = supply - share;
        let ghost plan = messages@;
        messages.push(Command::BankSend { to: sender, amount: payout });
        proof {
            assert(messages@ =~= plan.push(Command::BankSend { to: sender, amount: payout }));
        }
        Ok(Response { messages })
    }
}

/// A collateral withdrawal converts the proportional stable payout into
/// collateral units by the reciprocal oracle rate.  The idle collateral
/// balance pays directly when it suffices; otherwise the vault claims
/// whatever collateral its bids have pending — locking it like any other
/// claim — and hands the full payout to the swap wallet for the sender,
/// trusting the claim to make the collateral available at settlement.
pub open spec fn withdraw_collateral_post(
    pre: VaultStorage,
    post: VaultStorage,
    env: VaultEnv,
    sender: u64,
    share: u64,
    r: Result<Response, ContractError>,
) -> bool {
    let s = env.bids.bids@;
    match withdraw_gate(pre, env, sender, share) {
        Some(e) => r == Err::<Response, ContractError>(e) && unchanged(pre, post),
        None => {
            let payout = stable_payout(pre, env, share);
            if env.rate.num == 0 {
                r == Err::<Response, ContractError>(ContractError::DivideByZero) && unchanged(
                    pre,
                    post,
                )
            } else if payout * env.rate.den / (env.rate.num as int) > u64::MAX {
                r == Err::<Response, ContractError>(ContractError::ConversionOverflow)
                    && unchanged(pre, post)
            } else {
                let coll_payout = payout * env.rate.den / (env.rate.num as int);
                if env.collateral_balance >= coll_payout {
                    &&& burned(pre, post, sender, share)
                    &&& (r matches Ok(resp) && resp.messages@ == seq![
                        Command::CollateralTransfer {
                            recipient: sender,
                            amount: coll_payout as u64,
                        },
                    ])
                } else {
                    let pending = sum_collateral(s);
                    if pending > 0 && pre.state.locked_collateral + pending > u64::MAX {
                        r == Err::<Response, ContractError>(ContractError::Overflow) && unchanged(
                            pre,
                            post,
                        )
                    } else {
                        &&& post.wf()
                        &&& post.state == (State {
                            total_supply: (pre.state.total_supply - share) as u64,
                            locked_collateral: (pre.state.locked_collateral + pending) as u64,
                            ..pre.state
                        })
                        &&& bal_of(post.balances@, sender) == bal_of(pre.balances@, sender) - share
                        &&& forall|a: u64|
                            a != sender ==> bal_of(post.balances@, a) == bal_of(pre.balances@, a)
                        &&& post.permissions@ == pre.permissions@
                        &&& post.last_deposit@ == pre.last_deposit@
                        &&& post.claim_list@ == (if pending > 0 {
                            pre.claim_list@.push(
                                TokenRecord { amount: pending as u64, timestamp: env.now },
                            )
                        } else {
                            pre.claim_list@
                        })
                        &&& (r matches Ok(resp) && resp.messages@ == (if pending > 0 {
                            seq![Command::ClaimLiquidations]
                        } else {
                            Seq::<Command>::empty()
                        }).push(
                            Command::WalletSend {
                                wallet: pre.state.swap_wallet,
                                amount: coll_payout as u64,
                                forward_to: sender,
                            },
                        ))
                    }
                }
            }
        },
    }
}

/// Burns `share` shares and pays out their value in collateral units.
/// Claim times are monotonic block times, so the current time may not
/// lie before the newest lock record.
pub fn withdraw_collateral(storage: &mut VaultStorage, env: &VaultEnv, sender: u64, share: u64) -> (r:
    Result<Response, ContractError>)
    requires
        old(storage).wf(),
        env.wf(),
        old(storage).claim_list@.len() > 0 ==> old(storage).claim_list@.last().timestamp
            <= env.now,
    ensures
        withdraw_collateral_post(*old(storage), *final(storage), *env, sender, share, r),
{
    if share == 0 {
        return Err(ContractError::Invalidate);
    }
    match storage.last_deposit.get(sender) {
        Some(t) => {
            match t.checked_add(WITHDRAW_LOCK) {
                Some(unlock_at) => {
                    if env.now < unlock_at {
                        return Err(ContractError::Locked);
                    }
                },
                None => {
                    return Err(ContractError::Locked);
                },
            }
        },
        None => {},
    }
    let bal = storage.balances.get(sender);
    if bal < share {
        return Err(ContractError::Insufficient);
    }
    proof {
        lemma_bal_le_sum(storage.balances@, sender);
    }
    let cap = match compute_total_cap(
        &env.bids,
        &env.rate,
        env.stable_balance,
        env.collateral_balance,
    ) {
        Ok(v) => v,
        Err(e) => {
            return Err(e);
        },
    };
    let supply = storage.state.total_supply;
    let prod = match cap.checked_mul(share) {
        Some(p) => p,
        None => {
            return Err(ContractError::Overflow);
        },
    };
    let payout = prod / supply;
    let coll_payout = match collateral_value(payout, &env.rate) {
        Ok(v) => v,
        Err(e) => {
            return Err(e);
        },
    };
    if env.collateral_balance >= coll_payout {
        storage.balances.set(sender, bal - share);
        storage.state.total_supply = supply - share;
        let mut messages: Vec<Command> = Vec::new();
        messages.push(Command::CollateralTransfer { recipient: sender, amount: coll_payout });
        proof {
            assert(messages@ =~= seq![
                Command::CollateralTransfer { recipient: sender, amount: coll_payout },
            ]);
        }
        Ok(Response { messages })
    } else {
        let pending = match sum_pending(&env.bids) {
            Ok(t) => t,
            Err(e) => {
                return Err(e);
            },
        };
        let mut messages: Vec<Command> = Vec::new();
        if pending > 0 {
            let new_locked = match storage.state.locked_collateral.checked_add(pending) {
                Some(v) => v,
                None => {
                    return Err(ContractError::Overflow);
                },
            };
            let rec = TokenRecord { amount: pending, timestamp: env.now };
            proof {
                lemma_lock_sum_push(storage.claim_list@, rec);
                let cl = storage.claim_list@;
                let p = cl.push(rec);
                assert forall|i: int, j: int| 0 <= i <= j < p.len() implies p[i].timestamp
                    <= p[j].timestamp by {
                    if j < cl.len() {
                    } else {
                        assert(p[j] == rec);
                        if i < cl.len() {
                            assert(cl[i].timestamp <= cl[cl.len() - 1].timestamp);
                        }
                    }
                }
            }
            storage.claim_list.push(rec);
            storage.state.locked_collateral = new_locked;
            messages.push(Command::ClaimLiquidations);
        }
        storage.balances.set(sender, bal - share);
        storage.state.total_supply = supply - share;
        let ghost head = messages@;
        messages.push(
            Command::WalletSend {
                wallet: storage.state.swap_wallet,
                amount: coll_payout,
                forward_to: sender,
            },
        );
        proof {
            if pending > 0 {
                assert(head =~= seq![Command::ClaimLiquidations]);
            } else {
                assert(head =~= Seq::<Command>::empty());
            }
            assert(messages@ =~= head.push(
                Command::WalletSend {
                    wallet: storage.state.swap_wallet,
                    amount: coll_payout,
                    forward_to: sender,
                },
            ));
        }
        Ok(Response { messages })
    }
}

/// Dispatches one state-changing message to its handler; each arm's
/// behaviour is the handler's own postcondition.
pub fn execute(
    storage: &mut VaultStorage,
    env: &VaultEnv,
    info: &MessageInfo,
    msg: &ExecuteMsg,
) -> (r: Result<Response, ContractError>)
    requires
        old(storage).wf(),
        env.wf(),
        msg matches ExecuteMsg::Deposit ==> (info.funds@.len() == 1 ==> env.stable_balance
            >= info.funds@[0].amount),
        (msg matches ExecuteMsg::ClaimLiquidation || msg matches ExecuteMsg::WithdrawCollateral {
            ..
        }) ==> (old(storage).claim_list@.len() > 0 ==> old(
            storage,
        ).claim_list@.last().timestamp <= env.now),
    ensures
        match *msg {
            ExecuteMsg::Deposit => deposit_post(*old(storage), *final(storage), *env, *info, r),
            ExecuteMsg::WithdrawStable { share } => withdraw_stable_post(
                *old(storage),
                *final(storage),
                *env,
                info.sender,
                share,
                r,
            ),
            ExecuteMsg::WithdrawCollateral { share } => withdraw_collateral_post(
                *old(storage),
                *final(storage),
                *env,
                info.sender,
                share,
                r,
            ),
            ExecuteMsg::SubmitBid { amount, premium_slot } => submit_bid_post(
                *old(storage),
                *env,
                info.sender,
                amount,
                premium_slot,
                r,
            ) && unchanged(*old(storage), *final(storage)),
            ExecuteMsg::ActivateBid => activate_bid_post(r) && unchanged(
                *old(storage),
                *final(storage),
            ),
            ExecuteMsg::ClaimLiquidation => claim_liquidation_post(
                *old(storage),
                *final(storage),
                *env,
                r,
            ),
            ExecuteMsg::TransferOwnership { new_owner } => transfer_ownership_post(
                *old(storage),
                *final(storage),
                info.sender,
                new_owner,
                r,
            ),
            ExecuteMsg::Unlock => unlock_post(*old(storage), *final(storage), env.now, r),
            ExecuteMsg::Swap => swap_post(*old(storage), *env, r) && unchanged(
                *old(storage),
                *final(storage),
            ),
            ExecuteMsg::Pause { pause } => pause_resume_post(
                *old(storage),
                *final(storage),
                info.sender,
                pause,
                r,
            ),
            ExecuteMsg::SetPermission { address, new_permission } => set_permission_post(
                *old(storage),
                *final(storage),
                info.sender,
                address,
                new_permission,
                r,
            ),
            ExecuteMsg::SetSwapWallet { address } => set_swap_wallet_post(
                *old(storage),
                *final(storage),
                info.sender,
                address,
                r,
            ),
        },
{
    match *msg {
        ExecuteMsg::Deposit => deposit(storage, env, info),
        ExecuteMsg::WithdrawStable { share } => withdraw_stable(storage, env, info.sender, share),
        ExecuteMsg::WithdrawCollateral { share } => withdraw_collateral(
            storage,
            env,
            info.sender,
            share,
        ),
        ExecuteMsg::SubmitBid { amount, premium_slot } => submit_bid(
            storage,
            env,
            info.sender,
            amount,
            premium_slot,
        ),
        ExecuteMsg::ActivateBid => activate_bid(),
        ExecuteMsg::ClaimLiquidation => claim_liquidation(storage, env),
        ExecuteMsg::TransferOwnership { new_owner } => transfer_ownership(
            storage,
            info.sender,
            new_owner,
        ),
        ExecuteMsg::Unlock => unlock(storage, env.now),
        ExecuteMsg::Swap => swap(storage, env),
        ExecuteMsg::Pause { pause } => pause_resume(storage, info.sender, pause),
        ExecuteMsg::SetPermission { address, new_permission } => set_permission(
            storage,
            info.sender,
            address,
            new_permission,
        ),
        ExecuteMsg::SetSwapWallet { address } => set_swap_wallet(storage, info.sender, address),
    }
}

} // verus!
