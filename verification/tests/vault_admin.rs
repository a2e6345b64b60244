//! Access control, pause handling and the error surface.

use terra_deposit_withdraw::bids::{BidLedger, BidResponse};
use terra_deposit_withdraw::commands::Command;
use terra_deposit_withdraw::contract::{
    deposit, instantiate, pause_resume, set_permission, set_swap_wallet, swap, transfer_ownership,
    withdraw_stable,
};
use terra_deposit_withdraw::error::ContractError;
use terra_deposit_withdraw::msg::{Coin, Denom, InstantiateMsg, MessageInfo};
use terra_deposit_withdraw::query::query_permission;
use terra_deposit_withdraw::rate::Rate;
use terra_deposit_withdraw::state::{Permission, VaultStorage};
use terra_deposit_withdraw::valuation::VaultEnv;

const OWNER: u64 = 1;
const SWAP_WALLET: u64 = 3;
const ALICE: u64 = 10;
const BOB: u64 = 11;

fn mk_env(stable: u64, coll: u64, bids: Vec<BidResponse>, num: u64, den: u64, now: u64) -> VaultEnv {
    VaultEnv {
        stable_balance: stable,
        collateral_balance: coll,
        bids: BidLedger { bids },
        rate: Rate { num, den },
        now,
    }
}

fn stable_coins(amount: u64) -> Vec<Coin> {
    vec![Coin { denom: Denom::Stable, amount }]
}

fn mk_info(sender: u64, funds: Vec<Coin>) -> MessageInfo {
    MessageInfo { sender, funds }
}

fn bid(idx: u64, amount: u128, pending: u128) -> BidResponse {
    BidResponse { idx, amount, pending_liquidated_collateral: pending, wait_end: None }
}

fn fresh_vault() -> VaultStorage {
    let (st, _) = instantiate(&InstantiateMsg { owner: OWNER, swap_wallet: SWAP_WALLET });
    st
}

#[test]
fn set_permission_writes_under_target_address() {
    let mut st = fresh_vault();
    set_permission(&mut st, OWNER, ALICE, Permission { submit_bid: true }).unwrap();
    // The grant lands under the target address, not under the caller.
    assert!(query_permission(&st, ALICE).permission.submit_bid);
    assert!(query_permission(&st, OWNER).permission.submit_bid);
    assert!(!query_permission(&st, BOB).permission.submit_bid);
}

#[test]
fn set_permission_rejects_redundant_change() {
    let mut st = fresh_vault();
    assert_eq!(
        set_permission(&mut st, OWNER, ALICE, Permission { submit_bid: false }).unwrap_err(),
        ContractError::Invalidate
    );
    set_permission(&mut st, OWNER, ALICE, Permission { submit_bid: true }).unwrap();
    assert_eq!(
        set_permission(&mut st, OWNER, ALICE, Permission { submit_bid: true }).unwrap_err(),
        ContractError::Invalidate
    );
}

#[test]
fn set_permission_is_owner_only() {
    let mut st = fresh_vault();
    assert_eq!(
        set_permission(&mut st, ALICE, ALICE, Permission { submit_bid: true }).unwrap_err(),
        ContractError::Unauthorized
    );
}

#[test]
fn revoked_permission_is_cleared() {
    let mut st = fresh_vault();
    set_permission(&mut st, OWNER, ALICE, Permission { submit_bid: true }).unwrap();
    set_permission(&mut st, OWNER, ALICE, Permission { submit_bid: false }).unwrap();
    assert!(!query_permission(&st, ALICE).permission.submit_bid);
}

#[test]
fn transfer_ownership_moves_permission() {
    let mut st = fresh_vault();
    transfer_ownership(&mut st, OWNER, BOB).unwrap();
    assert_eq!(st.state.owner, BOB);
    assert!(query_permission(&st, BOB).permission.submit_bid);
    assert!(!query_permission(&st, OWNER).permission.submit_bid);
    // The former owner lost its rights.
    assert_eq!(
        transfer_ownership(&mut st, OWNER, ALICE).unwrap_err(),
        ContractError::Unauthorized
    );
}

#[test]
fn pause_gates_deposits() {
    let mut st = fresh_vault();
    assert_eq!(
        pause_resume(&mut st, ALICE, true).unwrap_err(),
        ContractError::Unauthorized
    );
    pause_resume(&mut st, OWNER, true).unwrap();
    assert_eq!(
        pause_resume(&mut st, OWNER, true).unwrap_err(),
        ContractError::Invalidate
    );
    let env = mk_env(100, 0, vec![], 100, 1, 50);
    assert_eq!(
        deposit(&mut st, &env, &mk_info(ALICE, stable_coins(100))).unwrap_err(),
        ContractError::Paused
    );
    pause_resume(&mut st, OWNER, false).unwrap();
    deposit(&mut st, &env, &mk_info(ALICE, stable_coins(100))).unwrap();
}

#[test]
fn deposit_rejects_malformed_funds() {
    let mut st = fresh_vault();
    let env = mk_env(100, 0, vec![], 100, 1, 50);
    // No coin at all.
    assert_eq!(
        deposit(&mut st, &env, &mk_info(ALICE, vec![])).unwrap_err(),
        ContractError::Invalidate
    );
    // Two coins.
    let two = vec![
        Coin { denom: Denom::Stable, amount: 50 },
        Coin { denom: Denom::Stable, amount: 50 },
    ];
    assert_eq!(
        deposit(&mut st, &env, &mk_info(ALICE, two)).unwrap_err(),
        ContractError::Invalidate
    );
    // Wrong denomination.
    let other = vec![Coin { denom: Denom::Other, amount: 50 }];
    assert_eq!(
        deposit(&mut st, &env, &mk_info(ALICE, other)).unwrap_err(),
        ContractError::Invalidate
    );
    // Zero amount.
    assert_eq!(
        deposit(&mut st, &env, &mk_info(ALICE, stable_coins(0))).unwrap_err(),
        ContractError::Invalidate
    );
}

#[test]
fn deposit_against_zero_cap_is_divide_by_zero() {
    let mut st = fresh_vault();
    let env = mk_env(100, 0, vec![], 100, 1, 50);
    deposit(&mut st, &env, &mk_info(ALICE, stable_coins(100))).unwrap();
    // Supply is 100 but the vault values at zero (all funds are the new
    // deposit): an inconsistent state the handler refuses.
    let env2 = mk_env(40, 0, vec![], 100, 1, 60);
    assert_eq!(
        deposit(&mut st, &env2, &mk_info(BOB, stable_coins(40))).unwrap_err(),
        ContractError::DivideByZero
    );
}

#[test]
fn deposit_share_product_can_overflow() {
    let mut st = fresh_vault();
    let env = mk_env(u64::MAX, 0, vec![], 100, 1, 50);
    deposit(&mut st, &env, &mk_info(ALICE, stable_coins(u64::MAX))).unwrap();
    // amount * supply no longer fits the local width.
    let env2 = mk_env(3, 0, vec![], 100, 1, 60);
    assert_eq!(
        deposit(&mut st, &env2, &mk_info(BOB, stable_coins(2))).unwrap_err(),
        ContractError::Overflow
    );
}

#[test]
fn withdraw_inside_cooldown_is_locked() {
    let mut st = fresh_vault();
    let env = mk_env(100, 0, vec![], 100, 1, 1000);
    deposit(&mut st, &env, &mk_info(ALICE, stable_coins(100))).unwrap();
    // One second before deposit time + cooldown the window still holds.
    let env2 = mk_env(100, 0, vec![], 100, 1, 4599);
    assert_eq!(
        withdraw_stable(&mut st, &env2, ALICE, 50).unwrap_err(),
        ContractError::Locked
    );
    // At the boundary instant it has passed.
    let env3 = mk_env(100, 0, vec![], 100, 1, 4600);
    withdraw_stable(&mut st, &env3, ALICE, 50).unwrap();
}

#[test]
fn withdraw_rejects_zero_and_excess_share() {
    let mut st = fresh_vault();
    let env = mk_env(100, 0, vec![], 100, 1, 1000);
    deposit(&mut st, &env, &mk_info(ALICE, stable_coins(100))).unwrap();
    let env2 = mk_env(100, 0, vec![], 100, 1, 9000);
    assert_eq!(
        withdraw_stable(&mut st, &env2, ALICE, 0).unwrap_err(),
        ContractError::Invalidate
    );
    assert_eq!(
        withdraw_stable(&mut st, &env2, ALICE, 101).unwrap_err(),
        ContractError::Insufficient
    );
    assert_eq!(
        withdraw_stable(&mut st, &env2, BOB, 1).unwrap_err(),
        ContractError::Insufficient
    );
}

#[test]
fn oversized_external_amount_is_conversion_overflow() {
    let mut st = fresh_vault();
    let env = mk_env(100, 0, vec![], 100, 1, 1000);
    deposit(&mut st, &env, &mk_info(ALICE, stable_coins(100))).unwrap();
    // A bid reports an amount beyond the local width.
    let big = (u64::MAX as u128) + 1;
    let env2 = mk_env(100, 0, vec![bid(1, big, 0)], 100, 1, 9000);
    assert_eq!(
        withdraw_stable(&mut st, &env2, ALICE, 50).unwrap_err(),
        ContractError::ConversionOverflow
    );
}

#[test]
fn swap_sends_free_collateral() {
    let st = fresh_vault();
    let env = mk_env(0, 50, vec![], 100, 1, 50);
    let res = swap(&st, &env).unwrap();
    assert_eq!(res.messages, vec![Command::RouterSwap { amount: 50, to: None }]);
}

#[test]
fn swap_with_nothing_free_fails() {
    let st = fresh_vault();
    let env = mk_env(0, 0, vec![], 100, 1, 50);
    assert_eq!(swap(&st, &env).unwrap_err(), ContractError::Insufficient);
}

#[test]
fn swap_with_overlocked_collateral_overflows() {
    let mut st = fresh_vault();
    let claim_env = mk_env(0, 0, vec![bid(1, 0, 500)], 100, 1, 50);
    terra_deposit_withdraw::contract::claim_liquidation(&mut st, &claim_env).unwrap();
    // The ledger reports less collateral than the vault thinks it locked.
    let env = mk_env(0, 100, vec![], 100, 1, 60);
    assert_eq!(swap(&st, &env).unwrap_err(), ContractError::Overflow);
}

#[test]
fn set_swap_wallet_is_owner_only() {
    let mut st = fresh_vault();
    assert_eq!(
        set_swap_wallet(&mut st, ALICE, ALICE).unwrap_err(),
        ContractError::Unauthorized
    );
    set_swap_wallet(&mut st, OWNER, BOB).unwrap();
    assert_eq!(st.state.swap_wallet, BOB);
}
