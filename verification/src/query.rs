//! The read-only operations.  Queries never change storage; the fallible
//! ones fail only on arithmetic that exceeds the local integer width.

use vstd::prelude::*;

use vstd::arithmetic::div_mod::lemma_div_pos_is_pos;
use vstd::arithmetic::mul::lemma_mul_nonnegative;

use crate::bids::{
    aggregate_bids, amounts_fit, any_activatable, any_claimable, has_activatable, has_claimable,
    lemma_sums_nonneg, pending_fit, sum_collateral, sum_stable,
};
use crate::error::ContractError;
use crate::lock::{is_matured, matured};
use crate::maps::{bal_of, kv_find, lemma_bal_le_sum, perm_of};
use crate::msg::{
    ActivatableResponse, BalanceResponse, ClaimableResponse, InfoResponse, PermissionResponse,
    QueryMsg, QueryResponse, TimestampResponse, TotalCapResponse, UnlockableResponse,
    WithdrawableLimitResponse,
};
use crate::state::VaultStorage;
use crate::valuation::{cap_err, cap_ok, cap_value, compute_total_cap, VaultEnv};

verus! {

/// Owner, share supply, locked collateral and pause flag.
pub fn query_info(storage: &VaultStorage) -> (r: InfoResponse)
    ensures
        r == (InfoResponse {
            owner: storage.state.owner,
            total_supply: storage.state.total_supply,
            locked_collateral: storage.state.locked_collateral,
            paused: storage.state.paused,
        }),
{
    InfoResponse {
        owner: storage.state.owner,
        total_supply: storage.state.total_supply,
        locked_collateral: storage.state.locked_collateral,
        paused: storage.state.paused,
    }
}

/// The share balance of `address`; zero when unknown.
pub fn query_balance(storage: &VaultStorage, address: u64) -> (r: BalanceResponse)
    ensures
        r.balance == bal_of(storage.balances@, address),
{
    BalanceResponse { balance: storage.balances.get(address) }
}

/// The current total capitalization.
pub fn query_total_cap(env: &VaultEnv) -> (r: Result<TotalCapResponse, ContractError>)
    requires
        env.wf(),
    ensures
        ({
            let s = env.bids.bids@;
            let sb = env.stable_balance as int;
            let cb = env.collateral_balance as int;
            &&& (r is Ok <==> cap_ok(s, env.rate, sb, cb))
            &&& (r matches Ok(t) ==> t.total_cap as int == cap_value(s, env.rate, sb, cb))
            &&& (r is Err ==> r == Err::<TotalCapResponse, ContractError>(
                cap_err(s, env.rate, sb, cb),
            ))
        }),
{
    match compute_total_cap(&env.bids, &env.rate, env.stable_balance, env.collateral_balance) {
        Ok(v) => Ok(TotalCapResponse { total_cap: v }),
        Err(e) => Err(e),
    }
}

/// Whether some bid's waiting period has ended strictly before now.
pub fn query_activatable(env: &VaultEnv) -> (r: ActivatableResponse)
    requires
        env.wf(),
    ensures
        r.activatable == any_activatable(env.bids.bids@, env.now),
{
    ActivatableResponse { activatable: has_activatable(&env.bids, env.now) }
}

/// Whether some bid holds claimable liquidated collateral.
pub fn query_claimable(env: &VaultEnv) -> (r: ClaimableResponse)
    requires
        env.wf(),
    ensures
        r.claimable == any_claimable(env.bids.bids@),
{
    ClaimableResponse { claimable: has_claimable(&env.bids) }
}

/// How many shares `address` could withdraw against the idle-plus-bid
/// stable funds: all of its balance when the proportional payout fits,
/// otherwise the share count whose payout exactly exhausts those funds.
pub open spec fn withdrawable_limit_post(
    st: VaultStorage,
    env: VaultEnv,
    address: u64,
    r: Result<WithdrawableLimitResponse, ContractError>,
) -> bool {
    let s = env.bids.bids@;
    let sb = env.stable_balance as int;
    let cb = env.collateral_balance as int;
    let supply = st.state.total_supply as int;
    let balance = bal_of(st.balances@, address);
    let usd_total = sb + sum_stable(s);
    if balance == 0 {
        r matches Ok(x) && x.limit == 0
    } else if !(amounts_fit(s) && pending_fit(s)) {
        r == Err::<WithdrawableLimitResponse, ContractError>(ContractError::ConversionOverflow)
    } else if !(usd_total <= u64::MAX && cb + sum_collateral(s) <= u64::MAX) {
        r == Err::<WithdrawableLimitResponse, ContractError>(ContractError::Overflow)
    } else if usd_total == 0 {
        r matches Ok(x) && x.limit == 0
    } else if !cap_ok(s, env.rate, sb, cb) {
        r == Err::<WithdrawableLimitResponse, ContractError>(cap_err(s, env.rate, sb, cb))
    } else {
        let cap = cap_value(s, env.rate, sb, cb);
        if balance * cap > u64::MAX {
            r == Err::<WithdrawableLimitResponse, ContractError>(ContractError::Overflow)
        } else if balance * cap / supply <= usd_total {
            r matches Ok(x) && x.limit == balance
        } else if usd_total * supply > u64::MAX {
            r == Err::<WithdrawableLimitResponse, ContractError>(ContractError::Overflow)
        } else {
            r matches Ok(x) && x.limit as int == usd_total * supply / cap
        }
    }
}

/// The withdrawable share limit of `address`.
pub fn query_withdrawable_limit(storage: &VaultStorage, env: &VaultEnv, address: u64) -> (r: Result<
    WithdrawableLimitResponse,
    ContractError,
>)
    requires
        storage.wf(),
        env.wf(),
    ensures
        withdrawable_limit_post(*storage, *env, address, r),
{
    let balance = storage.balances.get(address);
    if balance == 0 {
        return Ok(WithdrawableLimitResponse { limit: 0 });
    }
    let totals = match aggregate_bids(&env.bids, env.stable_balance, env.collateral_balance) {
        Ok(t) => t,
        Err(e) => {
            return Err(e);
        },
    };
    let usd_total = totals.0;
    if usd_total == 0 {
        return Ok(WithdrawableLimitResponse { limit: 0 });
    }
    let cap = match compute_total_cap(
        &env.bids,
        &env.rate,
        env.stable_balance,
        env.collateral_balance,
    ) {
        Ok(v) => v,
        Err(e) => {
            return Err(e);
        },
    };
    let supply = storage.state.total_supply;
    proof {
        lemma_bal_le_sum(storage.balances@, address);
        let s = env.bids.bids@;
        let value = (env.collateral_balance + sum_collateral(s)) * env.rate.num / (
        env.rate.den as int);
        lemma_sums_nonneg(s);
        lemma_mul_nonnegative(env.collateral_balance + sum_collateral(s), env.rate.num as int);
        lemma_div_pos_is_pos(
            (env.collateral_balance + sum_collateral(s)) * env.rate.num,
            env.rate.den as int,
        );
        assert(cap >= usd_total);
    }
    let prod = match balance.checked_mul(cap) {
        Some(p) => p,
        None => {
            return Err(ContractError::Overflow);
        },
    };
    let withdraw_amount = prod / supply;
    if withdraw_amount <= usd_total {
        Ok(WithdrawableLimitResponse { limit: balance })
    } else {
        let prod2 = match usd_total.checked_mul(supply) {
            Some(p) => p,
            None => {
                return Err(ContractError::Overflow);
            },
        };
        Ok(WithdrawableLimitResponse { limit: prod2 / cap })
    }
}

/// The bid permission of `address`; none when unknown.
pub fn query_permission(storage: &VaultStorage, address: u64) -> (r: PermissionResponse)
    ensures
        r.permission == perm_of(storage.permissions@, address),
{
    PermissionResponse { permission: storage.permissions.get(address) }
}

/// Whether the front lock record is matured.
pub fn query_unlockable(storage: &VaultStorage, now: u64) -> (r: UnlockableResponse)
    ensures
        r.unlockable == (storage.claim_list@.len() > 0 && matured(storage.claim_list@[0], now)),
{
    if storage.claim_list.len() > 0 {
        let first = storage.claim_list[0];
        UnlockableResponse { unlockable: is_matured(&first, now) }
    } else {
        UnlockableResponse { unlockable: false }
    }
}

/// The last deposit time of `address`; zero when it never deposited.
pub fn query_last_deposit_timestamp(storage: &VaultStorage, address: u64) -> (r: TimestampResponse)
    ensures
        r.timestamp == (match kv_find(storage.last_deposit@, address) {
            Some(t) => t,
            None => 0u64,
        }),
{
    match storage.last_deposit.get(address) {
        Some(t) => TimestampResponse { timestamp: t },
        None => TimestampResponse { timestamp: 0 },
    }
}

/// Dispatches one read-only message to its query.
pub fn query(storage: &VaultStorage, env: &VaultEnv, msg: &QueryMsg) -> (r: Result<
    QueryResponse,
    ContractError,
>)
    requires
        storage.wf(),
        env.wf(),
    ensures
        match *msg {
            QueryMsg::GetInfo => r == Ok::<QueryResponse, ContractError>(
                QueryResponse::Info(
                    InfoResponse {
                        owner: storage.state.owner,
                        total_supply: storage.state.total_supply,
                        locked_collateral: storage.state.locked_collateral,
                        paused: storage.state.paused,
                    },
                ),
            ),
            QueryMsg::Balance { address } => r == Ok::<QueryResponse, ContractError>(
                QueryResponse::Balance(
                    BalanceResponse { balance: bal_of(storage.balances@, address) },
                ),
            ),
            QueryMsg::TotalCap => ({
                let s = env.bids.bids@;
                let sb = env.stable_balance as int;
                let cb = env.collateral_balance as int;
                &&& (r is Ok <==> cap_ok(s, env.rate, sb, cb))
                &&& (r matches Ok(q) ==> q matches QueryResponse::TotalCap(t) && t.total_cap as int
                    == cap_value(s, env.rate, sb, cb))
                &&& (r is Err ==> r == Err::<QueryResponse, ContractError>(
                    cap_err(s, env.rate, sb, cb),
                ))
            }),
            QueryMsg::Activatable => r == Ok::<QueryResponse, ContractError>(
                QueryResponse::Activatable(
                    ActivatableResponse {
                        activatable: any_activatable(env.bids.bids@, env.now),
                    },
                ),
            ),
            QueryMsg::Claimable => r == Ok::<QueryResponse, ContractError>(
                QueryResponse::Claimable(
                    ClaimableResponse { claimable: any_claimable(env.bids.bids@) },
                ),
            ),
            QueryMsg::WithdrawableLimit { address } => ({
                &&& (r matches Ok(q) ==> q matches QueryResponse::WithdrawableLimit(x)
                    && withdrawable_limit_post(*storage, *env, address, Ok(x)))
                &&& (r matches Err(e) ==> withdrawable_limit_post(*storage, *env, address, Err(e)))
            }),
            QueryMsg::Permission { address } => r == Ok::<QueryResponse, ContractError>(
                QueryResponse::Permission(
                    PermissionResponse { permission: perm_of(storage.permissions@, address) },
                ),
            ),
            QueryMsg::Unlockable => r == Ok::<QueryResponse, ContractError>(
                QueryResponse::Unlockable(
                    UnlockableResponse {
                        unlockable: storage.claim_list@.len() > 0 && matured(
                            storage.claim_list@[0],
                            env.now,
                        ),
                    },
                ),
            ),
            QueryMsg::LastDepositTimestamp { address } => r == Ok::<QueryResponse, ContractError>(
                QueryResponse::LastDepositTimestamp(
                    TimestampResponse {
                        timestamp: match kv_find(storage.last_deposit@, address) {
                            Some(t) => t,
                            None => 0u64,
                        },
                    },
                ),
            ),
        },
{
    match *msg {
        QueryMsg::GetInfo => Ok(QueryResponse::Info(query_info(storage))),
        QueryMsg::Balance { address } => Ok(
            QueryResponse::Balance(query_balance(storage, address)),
        ),
        QueryMsg::TotalCap => {
            match query_total_cap(env) {
                Ok(t) => Ok(QueryResponse::TotalCap(t)),
                Err(e) => Err(e),
            }
        },
        QueryMsg::Activatable => Ok(QueryResponse::Activatable(query_activatable(env))),
        QueryMsg::Claimable => Ok(QueryResponse::Claimable(query_claimable(env))),
        QueryMsg::WithdrawableLimit { address } => {
            match query_withdrawable_limit(storage, env, address) {
                Ok(x) => Ok(QueryResponse::WithdrawableLimit(x)),
                Err(e) => Err(e),
            }
        },
        QueryMsg::Permission { address } => Ok(
            QueryResponse::Permission(query_permission(storage, address)),
        ),
        QueryMsg::Unlockable => Ok(QueryResponse::Unlockable(query_unlockable(storage, env.now))),
        QueryMsg::LastDepositTimestamp { address } => Ok(
            QueryResponse::LastDepositTimestamp(query_last_deposit_timestamp(storage, address)),
        ),
    }
}

} // verus!
