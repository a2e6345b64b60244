//! Deposit, withdrawal and bid-lifecycle flows.

use terra_deposit_withdraw::bids::{BidLedger, BidResponse};
use terra_deposit_withdraw::commands::Command;
use terra_deposit_withdraw::contract::{
    claim_liquidation, deposit, execute, instantiate, submit_bid, unlock, withdraw_collateral,
    withdraw_stable,
};
use terra_deposit_withdraw::error::ContractError;
use terra_deposit_withdraw::msg::{Coin, Denom, ExecuteMsg, InstantiateMsg, MessageInfo};
use terra_deposit_withdraw::query::{query_balance, query_info};
use terra_deposit_withdraw::rate::Rate;
use terra_deposit_withdraw::state::VaultStorage;
use terra_deposit_withdraw::valuation::VaultEnv;

const OWNER: u64 = 1;
const SWAP_WALLET: u64 = 3;
const ALICE: u64 = 10;

fn mk_env(stable: u64, coll: u64, bids: Vec<BidResponse>, num: u64, den: u64, now: u64) -> VaultEnv {
    VaultEnv {
        stable_balance: stable,
        collateral_balance: coll,
        bids: BidLedger { bids },
        rate: Rate { num, den },
        now,
    }
}

fn stable_coins(amount: u64) -> Vec<Coin> {
    vec![Coin { denom: Denom::Stable, amount }]
}

fn mk_info(sender: u64, funds: Vec<Coin>) -> MessageInfo {
    MessageInfo { sender, funds }
}

fn bid(idx: u64, amount: u128, pending: u128) -> BidResponse {
    BidResponse { idx, amount, pending_liquidated_collateral: pending, wait_end: None }
}

fn fresh_vault() -> VaultStorage {
    let (st, _) = instantiate(&InstantiateMsg { owner: OWNER, swap_wallet: SWAP_WALLET });
    st
}

#[test]
fn contract_proper_initialization() {
    let (st, res) = instantiate(&InstantiateMsg { owner: OWNER, swap_wallet: SWAP_WALLET });
    assert_eq!(0, res.messages.len());
    let info = query_info(&st);
    assert_eq!(OWNER, info.owner);
    assert_eq!(0, info.total_supply);
    assert!(!info.paused);
}

#[test]
fn tests_proper_initialization() {
    let (st, _) = instantiate(&InstantiateMsg { owner: OWNER, swap_wallet: SWAP_WALLET });
    assert_eq!(st.state.swap_wallet, SWAP_WALLET);
    assert_eq!(st.claim_list.len(), 0);
}

#[test]
fn deposit_withdraw_ust_all() {
    let mut st = fresh_vault();
    // 1000000 stable deposited; the bank balance already includes it.
    let env = mk_env(1000000, 0, vec![], 100, 1, 10000);
    let res = deposit(&mut st, &env, &mk_info(OWNER, stable_coins(1000000))).unwrap();
    assert_eq!(res.messages.len(), 0);
    let balance = query_balance(&st, OWNER).balance;
    assert_eq!(balance, 1000000);
    // 3601 seconds later the cooldown has passed; withdraw everything.
    let env2 = mk_env(1000000, 0, vec![], 100, 1, 13601);
    let res2 = withdraw_stable(&mut st, &env2, OWNER, balance).unwrap();
    assert_eq!(
        res2.messages,
        vec![Command::BankSend { to: OWNER, amount: 1000000 }]
    );
    assert_eq!(st.state.total_supply, 0);
    assert_eq!(query_balance(&st, OWNER).balance, 0);
}

#[test]
fn deposit_withdraw_b_luna() {
    let mut st = fresh_vault();
    let env = mk_env(1000000, 0, vec![], 100, 1, 10000);
    deposit(&mut st, &env, &mk_info(OWNER, stable_coins(1000000))).unwrap();
    let balance = query_balance(&st, OWNER).balance;
    // Withdraw the whole position in collateral: 1000000 stable at rate
    // 100 is 10000 collateral units; none is idle, so the vault claims
    // (nothing is pending) and routes the payout through the swap wallet.
    let env2 = mk_env(1000000, 0, vec![], 100, 1, 13601);
    let res = withdraw_collateral(&mut st, &env2, OWNER, balance).unwrap();
    assert_eq!(
        res.messages,
        vec![Command::WalletSend { wallet: SWAP_WALLET, amount: 10000, forward_to: OWNER }]
    );
    assert_eq!(st.state.total_supply, 0);
}

#[test]
fn bootstrap_deposit_mints_one_to_one() {
    let mut st = fresh_vault();
    let env = mk_env(777, 0, vec![], 100, 1, 50);
    deposit(&mut st, &env, &mk_info(ALICE, stable_coins(777))).unwrap();
    assert_eq!(query_balance(&st, ALICE).balance, 777);
    assert_eq!(st.state.total_supply, 777);
}

#[test]
fn proportional_mint_uses_floor_division() {
    // First depositor bootstraps 100 shares against 100 stable.
    let mut st = fresh_vault();
    let env = mk_env(100, 0, vec![], 100, 1, 50);
    deposit(&mut st, &env, &mk_info(OWNER, stable_coins(100))).unwrap();
    // Pre-deposit capitalization 200 (250 on the books minus the 50 just
    // received): 50 * 100 / 200 = 25 shares.
    let env2 = mk_env(250, 0, vec![], 100, 1, 60);
    deposit(&mut st, &env2, &mk_info(ALICE, stable_coins(50))).unwrap();
    assert_eq!(query_balance(&st, ALICE).balance, 25);
    assert_eq!(st.state.total_supply, 125);
}

#[test]
fn proportional_mint_drops_remainder() {
    let mut st = fresh_vault();
    let env = mk_env(100, 0, vec![], 100, 1, 50);
    deposit(&mut st, &env, &mk_info(OWNER, stable_coins(100))).unwrap();
    // 51 * 100 / 200 = 25.5, floored to 25.
    let env2 = mk_env(251, 0, vec![], 100, 1, 60);
    deposit(&mut st, &env2, &mk_info(ALICE, stable_coins(51))).unwrap();
    assert_eq!(query_balance(&st, ALICE).balance, 25);
}

#[test]
fn direct_withdrawal_single_transfer() {
    let mut st = fresh_vault();
    let env = mk_env(100, 0, vec![], 100, 1, 50);
    deposit(&mut st, &env, &mk_info(ALICE, stable_coins(100))).unwrap();
    // Vault value has grown to 200; withdrawing 50 of 100 shares pays
    // 200 * 50 / 100 = 100 straight from the idle balance.
    let env2 = mk_env(200, 0, vec![], 100, 1, 4000);
    let res = withdraw_stable(&mut st, &env2, ALICE, 50).unwrap();
    assert_eq!(res.messages, vec![Command::BankSend { to: ALICE, amount: 100 }]);
    assert_eq!(st.state.total_supply, 50);
}

#[test]
fn shortfall_withdrawal_retracts_in_order() {
    let mut st = fresh_vault();
    let env = mk_env(100, 0, vec![], 100, 1, 50);
    deposit(&mut st, &env, &mk_info(ALICE, stable_coins(100))).unwrap();
    // Idle 30 plus bids of 30 and 40 give a capitalization of 100.
    // Withdrawing 80 of 100 shares owes 80; the shortfall of 50 retracts
    // bid 1 fully (30) and bid 2 partially (20), then pays out.
    let env2 = mk_env(30, 0, vec![bid(1, 30, 0), bid(2, 40, 0)], 100, 1, 4000);
    let res = withdraw_stable(&mut st, &env2, ALICE, 80).unwrap();
    assert_eq!(
        res.messages,
        vec![
            Command::RetractBid { bid_idx: 1, amount: None },
            Command::RetractBid { bid_idx: 2, amount: Some(20) },
            Command::BankSend { to: ALICE, amount: 80 },
        ]
    );
    assert_eq!(st.state.total_supply, 20);
}

#[test]
fn exhausted_bids_fail_without_mutation() {
    let mut st = fresh_vault();
    let env = mk_env(100, 0, vec![], 100, 1, 50);
    deposit(&mut st, &env, &mk_info(ALICE, stable_coins(100))).unwrap();
    // Idle 0, bids hold 70, and idle collateral 100 at rate 1 pushes the
    // payout to 170: the shortfall of 170 exceeds the 70 the bids hold.
    let env2 = mk_env(0, 100, vec![bid(1, 30, 0), bid(2, 40, 0)], 1, 1, 4000);
    let before_state = st.state;
    let before_balances = st.balances.entries.clone();
    let res = withdraw_stable(&mut st, &env2, ALICE, 100);
    assert_eq!(res.unwrap_err(), ContractError::Insufficient);
    assert_eq!(st.state, before_state);
    assert_eq!(st.balances.entries, before_balances);
}

#[test]
fn claim_liquidation_locks_pending_collateral() {
    let mut st = fresh_vault();
    let env = mk_env(0, 0, vec![bid(1, 10, 300), bid(2, 0, 200)], 100, 1, 7000);
    let res = claim_liquidation(&mut st, &env).unwrap();
    assert_eq!(res.messages, vec![Command::ClaimLiquidations]);
    assert_eq!(st.state.locked_collateral, 500);
    assert_eq!(st.claim_list.len(), 1);
    assert_eq!(st.claim_list[0].amount, 500);
    assert_eq!(st.claim_list[0].timestamp, 7000);
}

#[test]
fn claim_liquidation_without_pending_fails() {
    let mut st = fresh_vault();
    let env = mk_env(0, 0, vec![bid(1, 10, 0)], 100, 1, 7000);
    assert_eq!(
        claim_liquidation(&mut st, &env).unwrap_err(),
        ContractError::Insufficient
    );
    assert_eq!(st.state.locked_collateral, 0);
}

#[test]
fn unlock_at_exact_maturity_boundary() {
    let mut st = fresh_vault();
    let env = mk_env(0, 0, vec![bid(1, 0, 500)], 100, 1, 7000);
    claim_liquidation(&mut st, &env).unwrap();
    // One second before the boundary nothing is matured.
    assert_eq!(unlock(&mut st, 7599).unwrap_err(), ContractError::Insufficient);
    assert_eq!(st.claim_list.len(), 1);
    // At timestamp + lock period exactly, the record is released.
    let res = unlock(&mut st, 7600).unwrap();
    assert_eq!(res.messages.len(), 0);
    assert_eq!(st.state.locked_collateral, 0);
    assert_eq!(st.claim_list.len(), 0);
}

#[test]
fn unlock_releases_only_matured_prefix() {
    let mut st = fresh_vault();
    let env1 = mk_env(0, 0, vec![bid(1, 0, 100)], 100, 1, 1000);
    claim_liquidation(&mut st, &env1).unwrap();
    let env2 = mk_env(0, 0, vec![bid(2, 0, 200)], 100, 1, 1050);
    claim_liquidation(&mut st, &env2).unwrap();
    assert_eq!(st.state.locked_collateral, 300);
    // At 1600 only the first record (claimed at 1000) is matured.
    unlock(&mut st, 1600).unwrap();
    assert_eq!(st.state.locked_collateral, 200);
    assert_eq!(st.claim_list.len(), 1);
    assert_eq!(st.claim_list[0].amount, 200);
}

#[test]
fn permission_gates_submit_bid() {
    let st = fresh_vault();
    let env = mk_env(1000, 0, vec![], 100, 1, 50);
    // A stranger has no permission.
    assert_eq!(
        submit_bid(&st, &env, ALICE, 100, 3).unwrap_err(),
        ContractError::Unauthorized
    );
    // The owner can submit immediately after instantiation.
    let res = submit_bid(&st, &env, OWNER, 100, 3).unwrap();
    assert_eq!(
        res.messages,
        vec![Command::SubmitBid { premium_slot: 3, amount: 100 }]
    );
}

#[test]
fn submit_bid_needs_funds_and_amount() {
    let st = fresh_vault();
    let env = mk_env(50, 0, vec![], 100, 1, 50);
    assert_eq!(
        submit_bid(&st, &env, OWNER, 0, 3).unwrap_err(),
        ContractError::Insufficient
    );
    assert_eq!(
        submit_bid(&st, &env, OWNER, 51, 3).unwrap_err(),
        ContractError::Insufficient
    );
}

#[test]
fn execute_dispatches_deposit_and_activate() {
    let mut st = fresh_vault();
    let env = mk_env(500, 0, vec![], 100, 1, 50);
    let info = mk_info(ALICE, stable_coins(500));
    execute(&mut st, &env, &info, &ExecuteMsg::Deposit).unwrap();
    assert_eq!(query_balance(&st, ALICE).balance, 500);
    let res = execute(&mut st, &env, &mk_info(ALICE, vec![]), &ExecuteMsg::ActivateBid).unwrap();
    assert_eq!(res.messages, vec![Command::ActivateBids]);
}

#[test]
fn accounting_invariant_holds_across_operations() {
    let mut st = fresh_vault();
    let env = mk_env(100, 0, vec![], 100, 1, 50);
    deposit(&mut st, &env, &mk_info(ALICE, stable_coins(100))).unwrap();
    let env2 = mk_env(300, 0, vec![], 100, 1, 60);
    deposit(&mut st, &env2, &mk_info(OWNER, stable_coins(100))).unwrap();
    let env3 = mk_env(300, 0, vec![], 100, 1, 4000);
    withdraw_stable(&mut st, &env3, ALICE, 30).unwrap();
    let claim_env = mk_env(0, 0, vec![bid(1, 0, 500)], 100, 1, 5000);
    claim_liquidation(&mut st, &claim_env).unwrap();
    // Share balances add up to the supply, lock records to the locked
    // collateral.
    let bal_total: u64 = st.balances.entries.iter().map(|e| e.1).sum();
    assert_eq!(bal_total, st.state.total_supply);
    let lock_total: u64 = st.claim_list.iter().map(|r| r.amount).sum();
    assert_eq!(lock_total, st.state.locked_collateral);
}
