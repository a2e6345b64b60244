//! The read-only query surface.

use terra_deposit_withdraw::bids::{BidLedger, BidResponse};
use terra_deposit_withdraw::contract::{claim_liquidation, deposit, instantiate};
use terra_deposit_withdraw::error::ContractError;
use terra_deposit_withdraw::msg::{Coin, Denom, InstantiateMsg, MessageInfo, QueryMsg, QueryResponse};
use terra_deposit_withdraw::query::{
    query, query_activatable, query_claimable, query_last_deposit_timestamp, query_total_cap,
    query_unlockable, query_withdrawable_limit,
};
use terra_deposit_withdraw::rate::Rate;
use terra_deposit_withdraw::state::VaultStorage;
use terra_deposit_withdraw::valuation::VaultEnv;

const OWNER: u64 = 1;
const SWAP_WALLET: u64 = 3;
const ALICE: u64 = 10;
const BOB: u64 = 11;

fn mk_env(stable: u64, coll: u64, bids: Vec<BidResponse>, num: u64, den: u64, now: u64) -> VaultEnv {
    VaultEnv {
        stable_balance: stable,
        collateral_balance: coll,
        bids: BidLedger { bids },
        rate: Rate { num, den },
        now,
    }
}

fn stable_coins(amount: u64) -> Vec<Coin> {
    vec![Coin { denom: Denom::Stable, amount }]
}

fn mk_info(sender: u64, funds: Vec<Coin>) -> MessageInfo {
    MessageInfo { sender, funds }
}

fn bid_waiting(idx: u64, amount: u128, wait_end: Option<u64>) -> BidResponse {
    BidResponse { idx, amount, pending_liquidated_collateral: 0, wait_end }
}

fn bid(idx: u64, amount: u128, pending: u128) -> BidResponse {
    BidResponse { idx, amount, pending_liquidated_collateral: pending, wait_end: None }
}

fn fresh_vault() -> VaultStorage {
    let (st, _) = instantiate(&InstantiateMsg { owner: OWNER, swap_wallet: SWAP_WALLET });
    st
}

#[test]
fn total_cap_combines_all_three_pools() {
    // Idle 100 stable, 7 collateral; one bid waits with 30 stable and 9
    // claimable collateral; rate 3/2.  Stable side 130, collateral side
    // 16 valued at 24: total 154.
    let env = mk_env(100, 7, vec![bid(1, 30, 9)], 3, 2, 50);
    let res = query_total_cap(&env).unwrap();
    assert_eq!(res.total_cap, 154);
}

#[test]
fn total_cap_of_empty_vault_is_idle_balance() {
    let env = mk_env(42, 0, vec![], 100, 1, 50);
    assert_eq!(query_total_cap(&env).unwrap().total_cap, 42);
}

#[test]
fn total_cap_reports_conversion_overflow() {
    let big = (u64::MAX as u128) + 7;
    let env = mk_env(0, 0, vec![bid(1, big, 0)], 100, 1, 50);
    assert_eq!(
        query_total_cap(&env).unwrap_err(),
        ContractError::ConversionOverflow
    );
}

#[test]
fn total_cap_reports_overflow() {
    let env = mk_env(u64::MAX, 0, vec![bid(1, 1, 0)], 100, 1, 50);
    assert_eq!(query_total_cap(&env).unwrap_err(), ContractError::Overflow);
}

#[test]
fn activatable_needs_wait_end_strictly_past() {
    // wait_end strictly before now: activatable.
    let env = mk_env(0, 0, vec![bid_waiting(1, 10, Some(99))], 100, 1, 100);
    assert!(query_activatable(&env).activatable);
    // wait_end exactly now: not yet.
    let env2 = mk_env(0, 0, vec![bid_waiting(1, 10, Some(100))], 100, 1, 100);
    assert!(!query_activatable(&env2).activatable);
    // No waiting period at all: nothing to activate.
    let env3 = mk_env(0, 0, vec![bid_waiting(1, 10, None)], 100, 1, 100);
    assert!(!query_activatable(&env3).activatable);
}

#[test]
fn claimable_sees_pending_collateral() {
    let env = mk_env(0, 0, vec![bid(1, 10, 0), bid(2, 0, 5)], 100, 1, 100);
    assert!(query_claimable(&env).claimable);
    let env2 = mk_env(0, 0, vec![bid(1, 10, 0)], 100, 1, 100);
    assert!(!query_claimable(&env2).claimable);
}

#[test]
fn unlockable_follows_front_record() {
    let mut st = fresh_vault();
    assert!(!query_unlockable(&st, 10000).unlockable);
    let env = mk_env(0, 0, vec![bid(1, 0, 500)], 100, 1, 7000);
    claim_liquidation(&mut st, &env).unwrap();
    assert!(!query_unlockable(&st, 7599).unlockable);
    assert!(query_unlockable(&st, 7600).unlockable);
}

#[test]
fn withdrawable_limit_full_balance_when_covered() {
    let mut st = fresh_vault();
    let env = mk_env(100, 0, vec![], 100, 1, 50);
    deposit(&mut st, &env, &mk_info(ALICE, stable_coins(100))).unwrap();
    // All value is stable: the whole balance is withdrawable.
    let env2 = mk_env(100, 0, vec![], 100, 1, 60);
    assert_eq!(query_withdrawable_limit(&st, &env2, ALICE).unwrap().limit, 100);
}

#[test]
fn withdrawable_limit_capped_by_stable_funds() {
    let mut st = fresh_vault();
    let env = mk_env(100, 0, vec![], 100, 1, 50);
    deposit(&mut st, &env, &mk_info(ALICE, stable_coins(100))).unwrap();
    // Half the value sits in collateral: 100 stable of a 200 cap, so only
    // 100 * 100 / 200 = 50 shares can be paid in stable funds.
    let env2 = mk_env(100, 100, vec![], 1, 1, 60);
    assert_eq!(query_withdrawable_limit(&st, &env2, ALICE).unwrap().limit, 50);
}

#[test]
fn withdrawable_limit_of_stranger_is_zero() {
    let st = fresh_vault();
    let env = mk_env(100, 0, vec![], 100, 1, 60);
    assert_eq!(query_withdrawable_limit(&st, &env, BOB).unwrap().limit, 0);
}

#[test]
fn last_deposit_timestamp_defaults_to_zero() {
    let mut st = fresh_vault();
    assert_eq!(query_last_deposit_timestamp(&st, ALICE).timestamp, 0);
    let env = mk_env(100, 0, vec![], 100, 1, 1234);
    deposit(&mut st, &env, &mk_info(ALICE, stable_coins(100))).unwrap();
    assert_eq!(query_last_deposit_timestamp(&st, ALICE).timestamp, 1234);
}

#[test]
fn query_dispatch_matches_direct_calls() {
    let mut st = fresh_vault();
    let env = mk_env(100, 0, vec![], 100, 1, 50);
    deposit(&mut st, &env, &mk_info(ALICE, stable_coins(100))).unwrap();
    match query(&st, &env, &QueryMsg::GetInfo).unwrap() {
        QueryResponse::Info(i) => {
            assert_eq!(i.owner, OWNER);
            assert_eq!(i.total_supply, 100);
        },
        other => panic!("unexpected answer {:?}", other),
    }
    match query(&st, &env, &QueryMsg::Balance { address: ALICE }).unwrap() {
        QueryResponse::Balance(b) => assert_eq!(b.balance, 100),
        other => panic!("unexpected answer {:?}", other),
    }
    match query(&st, &env, &QueryMsg::Permission { address: OWNER }).unwrap() {
        QueryResponse::Permission(p) => assert!(p.permission.submit_bid),
        other => panic!("unexpected answer {:?}", other),
    }
}
