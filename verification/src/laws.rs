//! Laws of the vault, stated and proved against the handlers' contracts
//! alone.  Each proof function here takes the outcome of one or more
//! operations, assumes nothing beyond their postconditions and the
//! stated situation, and derives the guaranteed behaviour.

use vstd::prelude::*;

use crate::bids::sum_stable;
use crate::commands::Command;
use crate::contract::{
    deposit_post, instantiate_post, stable_payout, submit_bid_post, unchanged, withdraw_gate,
    withdraw_stable_post,
};
use crate::error::ContractError;
use crate::lock::matured;
use crate::maps::{bal_of, lemma_bal_le_sum, perm_of};
use crate::msg::{Denom, InstantiateMsg, MessageInfo, Response};
use crate::state::{Permission, TokenRecord, VaultStorage, LOCK_PERIOD};
use crate::valuation::{cap_ok, VaultEnv};

verus! {

/// The owner can submit a bid immediately after instantiation: the
/// fresh vault grants the owner the bid permission, so with a positive
/// amount covered by the idle balance the call succeeds.
pub proof fn lemma_owner_can_submit_after_instantiate(
    msg: InstantiateMsg,
    st: VaultStorage,
    resp0: Response,
    env: VaultEnv,
    amount: u64,
    premium_slot: u8,
    r: Result<Response, ContractError>,
)
    requires
        instantiate_post(msg, st, resp0),
        submit_bid_post(st, env, msg.owner, amount, premium_slot, r),
        amount >= 1,
        env.stable_balance >= amount,
    ensures
        r is Ok,
{
}

/// A caller that was never granted the bid permission is turned away as
/// unauthorized, whatever the amount.
pub proof fn lemma_no_permission_no_submit(
    st: VaultStorage,
    env: VaultEnv,
    sender: u64,
    amount: u64,
    premium_slot: u8,
    r: Result<Response, ContractError>,
)
    requires
        submit_bid_post(st, env, sender, amount, premium_slot, r),
        perm_of(st.permissions@, sender) == (Permission { submit_bid: false }),
    ensures
        r == Err::<Response, ContractError>(ContractError::Unauthorized),
{
}

/// While the vault's own stable balance covers the payout, a withdrawal
/// pays exactly the proportional value in a single transfer — no bid is
/// retracted — and the supply drops by the burned shares.
pub proof fn lemma_direct_withdrawal(
    pre: VaultStorage,
    post: VaultStorage,
    env: VaultEnv,
    sender: u64,
    share: u64,
    r: Result<Response, ContractError>,
)
    requires
        pre.wf(),
        withdraw_stable_post(pre, post, env, sender, share, r),
        withdraw_gate(pre, env, sender, share) is None,
        env.stable_balance >= stable_payout(pre, env, share),
    ensures
        r is Ok,
        r matches Ok(resp) ==> resp.messages@ == seq![
            Command::BankSend { to: sender, amount: stable_payout(pre, env, share) as u64 },
        ] && resp.messages@.len() == 1,
        post.state.total_supply == pre.state.total_supply - share,
{
    lemma_bal_le_sum(pre.balances@, sender);
}

/// A shortfall no bid list can cover fails the whole withdrawal as
/// insufficient: no share is burned, no command is emitted, the storage
/// is exactly as before.
pub proof fn lemma_exhaustion_fails(
    pre: VaultStorage,
    post: VaultStorage,
    env: VaultEnv,
    sender: u64,
    share: u64,
    r: Result<Response, ContractError>,
)
    requires
        withdraw_stable_post(pre, post, env, sender, share, r),
        withdraw_gate(pre, env, sender, share) is None,
        env.stable_balance < stable_payout(pre, env, share),
        stable_payout(pre, env, share) - env.stable_balance > sum_stable(env.bids.bids@),
    ensures
        r == Err::<Response, ContractError>(ContractError::Insufficient),
        unchanged(pre, post),
{
}

/// Bootstrap pricing: the first deposit, made while no shares are
/// outstanding, mints exactly its own amount.
pub proof fn lemma_bootstrap_deposit(
    pre: VaultStorage,
    post: VaultStorage,
    env: VaultEnv,
    info: MessageInfo,
    r: Result<Response, ContractError>,
)
    requires
        deposit_post(pre, post, env, info, r),
        info.funds@.len() == 1,
        info.funds@[0].denom == Denom::Stable,
        info.funds@[0].amount >= 1,
        !pre.state.paused,
        pre.state.total_supply == 0,
        cap_ok(
            env.bids.bids@,
            env.rate,
            env.stable_balance - info.funds@[0].amount,
            env.collateral_balance as int,
        ),
    ensures
        r is Ok,
        post.state.total_supply == info.funds@[0].amount,
        bal_of(post.balances@, info.sender) == bal_of(pre.balances@, info.sender)
            + info.funds@[0].amount,
{
}

/// The lock maturity boundary: a record whose lock period ends exactly
/// now is matured; one that ends one second later is not.
pub proof fn lemma_lock_maturity_boundary(rec: TokenRecord, now: u64)
    ensures
        rec.timestamp + LOCK_PERIOD == now ==> matured(rec, now),
        rec.timestamp + LOCK_PERIOD == now + 1 ==> !matured(rec, now),
{
}

} // verus!
