use staking_contract::account::Account;
use staking_contract::config::{accrued_reward, ConfigForReward};
use staking_contract::contract::{
    storage_refund, BlockContext, PromiseResult, StakingContract, StakingError,
};

const FT: &str = "ft_contract";

fn ctx(caller: &str, block_height: u64, epoch_height: u64, attached_deposit: u128) -> BlockContext {
    BlockContext {
        block_height,
        block_timestamp: block_height * 1000,
        epoch_height,
        predecessor_account_id: caller.to_string(),
        attached_deposit,
    }
}

fn rate(numerator: u32, denominator: u64) -> ConfigForReward {
    ConfigForReward { reward_numerator: numerator, reward_denumerator: denominator }
}

fn pool(config: ConfigForReward) -> StakingContract {
    StakingContract::new("owner".to_string(), FT.to_string(), config, 0)
}

fn record(c: &StakingContract, id: &str) -> Account {
    c.accounts.iter().find(|e| e.0 == id).map(|e| e.1).expect("registered")
}

fn register(c: &mut StakingContract, id: &str, block_height: u64) {
    assert_eq!(c.storage_deposit(&ctx(id, block_height, 0, 1), None), Ok(true));
}

fn stake(c: &mut StakingContract, id: &str, amount: u128, block_height: u64) {
    assert_eq!(c.ft_on_transfer(&ctx(FT, block_height, 0, 0), &id.to_string(), amount), Ok(0));
}

fn assert_mirrors(c: &StakingContract) {
    let sum: u128 = c.accounts.iter().map(|e| e.1.stake_balance).sum();
    let active = c.accounts.iter().filter(|e| e.1.stake_balance > 0).count() as u128;
    assert_eq!(c.total_stake_balance, sum);
    assert_eq!(c.total_staker, active);
}

#[test]
fn test_init_contract() {
    let config = ConfigForReward { reward_numerator: 500, reward_denumerator: 100000 };
    let contract = StakingContract::new("bob".to_string(), "ft_contract".to_string(), config, 0);
    assert_eq!(contract.owner_id, "bob".to_string());
    assert_eq!(contract.ft_contract_id, "ft_contract".to_string());
    assert_eq!(config.reward_numerator, contract.config.reward_numerator);
    assert_eq!(contract.paused, false);
}

#[test]
fn default_config_rate() {
    let c = StakingContract::new_default_config("owner".to_string(), FT.to_string(), 7);
    assert_eq!(c.config.reward_numerator, 715);
    assert_eq!(c.config.reward_denumerator, 100_000_000_000);
    assert_eq!(c.last_block_balance_change, 7);
    assert!(!c.is_pause());
}

#[test]
fn accrued_reward_formula() {
    let cfg = rate(715, 100_000_000_000);
    assert_eq!(accrued_reward(1_000_000, &cfg, 0, 1_000_000), Some(7150));
    assert_eq!(accrued_reward(1_000_000, &cfg, 10, 10), Some(0));
    assert_eq!(accrued_reward(0, &cfg, 0, 1_000_000), Some(0));
    assert_eq!(accrued_reward(10, &rate(1, 3), 0, 1), Some(3));
    assert_eq!(accrued_reward(1, &cfg, 5, 4), None);
    assert_eq!(accrued_reward(u128::MAX, &cfg, 0, 2), None);
    assert_eq!(accrued_reward(u128::MAX, &cfg, 3, 3), Some(0));
}

#[test]
fn accrued_reward_monotone() {
    let cfg = rate(715, 100_000_000_000);
    let mut last: u128 = 0;
    for dt in [0u64, 1, 1000, 500_000, 1_000_000, 2_000_000] {
        let r = accrued_reward(1_000_000, &cfg, 0, dt).unwrap();
        assert!(r >= last);
        last = r;
    }
    let mut last: u128 = 0;
    for balance in [0u128, 1, 1000, 1_000_000, 5_000_000] {
        let r = accrued_reward(balance, &cfg, 0, 1_000_000).unwrap();
        assert!(r >= last);
        last = r;
    }
}

#[test]
fn scenario_stake_and_accrue() {
    let mut c = pool(rate(715, 100_000_000_000));
    register(&mut c, "alice", 0);
    stake(&mut c, "alice", 1_000_000, 0);
    assert_eq!(c.get_account_reward(&"alice".to_string(), 1_000_000), Ok(7150));
    let info = c.get_account_info(&"alice".to_string(), 1_000_000).unwrap();
    assert_eq!(info.account_id, "alice");
    assert_eq!(info.stake_balance, 1_000_000);
    assert_eq!(info.reward, 7150);
}

#[test]
fn stake_folds_reward() {
    let mut c = pool(rate(715, 100_000_000_000));
    register(&mut c, "alice", 0);
    stake(&mut c, "alice", 1_000_000, 0);
    stake(&mut c, "alice", 1_000_000, 1_000_000);
    let a = record(&c, "alice");
    assert_eq!(a.pre_reward, 7150);
    assert_eq!(a.stake_balance, 2_000_000);
    assert_eq!(a.last_block_balance_change, 1_000_000);
    assert_eq!(c.pre_reward, 7150);
    assert_eq!(c.total_stake_balance, 2_000_000);
    assert_eq!(c.total_staker, 1);
    assert_eq!(c.get_account_reward(&"alice".to_string(), 2_000_000), Ok(7150 + 14300));
}

#[test]
fn pool_mirrors_accounts_through_stake_and_unstake() {
    let mut c = pool(rate(715, 100_000_000_000));
    register(&mut c, "alice", 0);
    register(&mut c, "bob", 0);
    register(&mut c, "carol", 0);
    assert_mirrors(&c);
    stake(&mut c, "alice", 100, 1);
    stake(&mut c, "bob", 200, 2);
    stake(&mut c, "carol", 0, 2);
    assert_mirrors(&c);
    assert_eq!(c.total_staker, 2);
    c.unstake(&ctx("alice", 3, 1, 1), 100).unwrap();
    assert_mirrors(&c);
    assert_eq!(c.total_staker, 1);
    c.unstake(&ctx("alice", 4, 1, 1), 0).unwrap();
    c.unstake(&ctx("bob", 4, 1, 1), 50).unwrap();
    stake(&mut c, "alice", 30, 5);
    assert_mirrors(&c);
    assert_eq!(c.total_stake_balance, 180);
    assert_eq!(c.total_staker, 2);
}

#[test]
fn scenario_withdraw_locked_until_next_epoch() {
    let mut c = pool(rate(715, 100_000_000_000));
    register(&mut c, "alice", 0);
    stake(&mut c, "alice", 1_000_000, 0);
    c.unstake(&ctx("alice", 10, 5, 1), 500_000).unwrap();
    let a = record(&c, "alice");
    assert_eq!(a.unstake_available_epoch, 6);
    assert_eq!(a.unstake_balance, 500_000);
    assert_eq!(a.stake_balance, 500_000);
    assert_eq!(a.unstake_start_timestamp, 10_000);
    assert_eq!(c.withdraw(&ctx("alice", 11, 5, 1)), Err(StakingError::WithdrawLocked));
    let req = c.withdraw(&ctx("alice", 12, 6, 1)).unwrap();
    assert_eq!(req.amount, 500_000);
    assert_eq!(req.account_id, "alice");
    assert_eq!(record(&c, "alice").unstake_balance, 0);
    assert_eq!(c.ft_withdraw_callback(&req.account_id, req.old_account, &vec![PromiseResult::Successful]), Ok(500_000));
    assert_eq!(record(&c, "alice").unstake_balance, 0);
}

#[test]
fn withdraw_failure_restores_record() {
    let mut c = pool(rate(715, 100_000_000_000));
    register(&mut c, "alice", 0);
    stake(&mut c, "alice", 1_000_000, 0);
    c.unstake(&ctx("alice", 10, 5, 1), 400_000).unwrap();
    let before = c.clone();
    let req = c.withdraw(&ctx("alice", 20, 7, 1)).unwrap();
    assert_ne!(c.accounts, before.accounts);
    let r = c.ft_withdraw_callback(&req.account_id, req.old_account, &vec![PromiseResult::Failed]);
    assert_eq!(r, Err(StakingError::ExternalCallFailed));
    assert_eq!(c.accounts, before.accounts);
    assert_eq!(c.total_stake_balance, before.total_stake_balance);
    assert_eq!(c.pre_reward, before.pre_reward);
    assert_eq!(c.total_staker, before.total_staker);
    assert!(c.withdraw(&ctx("alice", 21, 7, 1)).is_ok());
}

#[test]
fn scenario_harvest_failure_keeps_reward() {
    let mut c = pool(rate(715, 100_000_000_000));
    register(&mut c, "alice", 0);
    stake(&mut c, "alice", 1_000_000, 0);
    stake(&mut c, "alice", 0, 1_000_000);
    assert_eq!(record(&c, "alice").pre_reward, 7150);
    let req = c.harvest(&ctx("alice", 1_000_000, 0, 1)).unwrap();
    assert_eq!(req.amount, 7150);
    let r = c.ft_transfer_callback(req.amount, &req.account_id, &vec![PromiseResult::Failed], 1_000_000);
    assert_eq!(r, Err(StakingError::ExternalCallFailed));
    assert_eq!(record(&c, "alice").pre_reward, 7150);
    assert_eq!(c.total_paid_reward_balance, 0);
    let again = c.harvest(&ctx("alice", 1_000_000, 0, 1)).unwrap();
    assert_eq!(again.amount, 7150);
}

#[test]
fn harvest_success_pays_out() {
    let mut c = pool(rate(715, 100_000_000_000));
    register(&mut c, "alice", 0);
    stake(&mut c, "alice", 1_000_000, 0);
    let req = c.harvest(&ctx("alice", 1_000_000, 0, 1)).unwrap();
    assert_eq!(req.amount, 7150);
    let r = c.ft_transfer_callback(req.amount, &req.account_id, &vec![PromiseResult::Successful], 1_000_000);
    assert_eq!(r, Ok(7150));
    let a = record(&c, "alice");
    assert_eq!(a.pre_reward, 0);
    assert_eq!(a.last_block_balance_change, 1_000_000);
    assert_eq!(c.total_paid_reward_balance, 7150);
    assert_eq!(c.harvest(&ctx("alice", 1_000_000, 0, 1)), Err(StakingError::ZeroRewardOwed));
}

#[test]
fn scenario_pool_reward_is_not_sum_of_accounts() {
    let mut c = pool(rate(715, 100_000_000_000));
    register(&mut c, "alice", 0);
    register(&mut c, "bob", 0);
    stake(&mut c, "alice", 1_000_000, 0);
    stake(&mut c, "bob", 3_000_000, 333_333);
    let info = c.get_pool_info(1_000_000).unwrap();
    let formula = 1_000_000u128 * 715 * 333_333 / 100_000_000_000
        + 4_000_000u128 * 715 * 666_667 / 100_000_000_000;
    assert_eq!(info.total_reward, formula);
    assert_eq!(info.total_reward, 21449);
    assert_eq!(info.total_stake_balance, 4_000_000);
    assert_eq!(info.total_stakers, 2);
    assert!(!info.is_paused);
    let alice = c.get_account_reward(&"alice".to_string(), 1_000_000).unwrap();
    let bob = c.get_account_reward(&"bob".to_string(), 1_000_000).unwrap();
    assert_eq!(alice + bob, 21450);
    assert_ne!(info.total_reward, alice + bob);
}

#[test]
fn pause_freezes_reward() {
    let mut c = pool(rate(715, 100_000_000_000));
    register(&mut c, "alice", 0);
    stake(&mut c, "alice", 1_000_000, 0);
    c.pause(1_000_000);
    c.pause(1_500_000);
    assert!(c.is_pause());
    assert_eq!(c.pause_in_block, 1_000_000);
    let id = "alice".to_string();
    assert_eq!(c.get_account_reward(&id, 2_000_000), Ok(7150));
    assert_eq!(c.get_account_reward(&id, 9_000_000), Ok(7150));
    assert_eq!(c.get_pool_info(2_000_000).unwrap().total_reward, 7150);
    assert_eq!(c.get_pool_info(9_000_000).unwrap().total_reward, 7150);
    assert_eq!(c.ft_on_transfer(&ctx(FT, 2_000_000, 0, 0), &id, 5), Err(StakingError::PoolPaused));
    c.unstake(&ctx("alice", 3_000_000, 1, 1), 1_000_000).unwrap();
    let a = record(&c, "alice");
    assert_eq!(a.last_block_balance_change, 1_000_000);
    assert_eq!(a.pre_reward, 7150);
}

#[test]
fn registration_rules() {
    let mut c = pool(rate(715, 100_000_000_000));
    assert_eq!(c.storage_balance_of(&"alice".to_string()), 0);
    assert_eq!(c.storage_deposit(&ctx("alice", 3, 0, 0), None), Err(StakingError::InvalidDeposit));
    assert_eq!(c.storage_deposit(&ctx("alice", 3, 0, 1), None), Ok(true));
    assert_eq!(c.storage_deposit(&ctx("alice", 4, 0, 1), None), Ok(false));
    assert_eq!(c.storage_deposit(&ctx("alice", 4, 0, 1), Some("bob".to_string())), Ok(true));
    assert_eq!(c.storage_balance_of(&"alice".to_string()), 1);
    assert_eq!(c.storage_balance_of(&"bob".to_string()), 1);
    assert_eq!(record(&c, "alice").last_block_balance_change, 3);
    assert_eq!(c.internal_register_account("alice".to_string(), 5), Err(StakingError::AlreadyRegistered));
    assert_eq!(c.accounts.len(), 2);
}

#[test]
fn stake_errors() {
    let mut c = pool(rate(715, 100_000_000_000));
    let id = "alice".to_string();
    assert_eq!(c.ft_on_transfer(&ctx(FT, 1, 0, 0), &id, 5), Err(StakingError::NotRegistered));
    register(&mut c, "alice", 0);
    assert_eq!(c.ft_on_transfer(&ctx("mallory", 1, 0, 0), &id, 5), Err(StakingError::UnauthorizedCaller));
    stake(&mut c, "alice", u128::MAX, 0);
    assert_eq!(c.ft_on_transfer(&ctx(FT, 0, 0, 0), &id, 1), Err(StakingError::ArithmeticOverflow));
    assert_eq!(c.get_account_reward(&id, 10), Err(StakingError::InvariantViolation));
    assert_eq!(c.get_account_reward(&"nobody".to_string(), 10), Err(StakingError::NotRegistered));
    assert_eq!(c.total_stake_balance, u128::MAX);
}

#[test]
fn unstake_and_withdraw_errors() {
    let mut c = pool(rate(715, 100_000_000_000));
    register(&mut c, "alice", 0);
    stake(&mut c, "alice", 100, 0);
    assert_eq!(c.unstake(&ctx("alice", 1, 0, 0), 10), Err(StakingError::InvalidDeposit));
    assert_eq!(c.unstake(&ctx("alice", 1, 0, 1), 101), Err(StakingError::InsufficientStakeBalance));
    assert_eq!(c.unstake(&ctx("bob", 1, 0, 1), 1), Err(StakingError::NotRegistered));
    assert_eq!(c.withdraw(&ctx("alice", 1, 0, 1)), Err(StakingError::ZeroUnstakeBalance));
    assert_eq!(c.withdraw(&ctx("alice", 1, 0, 2)), Err(StakingError::InvalidDeposit));
    assert_eq!(c.harvest(&ctx("alice", 1, 0, 0)), Err(StakingError::InvalidDeposit));
    assert_eq!(c.harvest(&ctx("alice", 0, 0, 1)), Err(StakingError::ZeroRewardOwed));
}

#[test]
fn callback_rejects_unexpected_outcomes() {
    let mut c = pool(rate(715, 100_000_000_000));
    register(&mut c, "alice", 0);
    let id = "alice".to_string();
    let two = vec![PromiseResult::Successful, PromiseResult::Successful];
    assert_eq!(c.ft_transfer_callback(5, &id, &two, 1), Err(StakingError::InvariantViolation));
    assert_eq!(c.ft_transfer_callback(5, &id, &vec![], 1), Err(StakingError::InvariantViolation));
    assert_eq!(c.ft_transfer_callback(5, &id, &vec![PromiseResult::NotReady], 1), Err(StakingError::InvariantViolation));
    let snapshot = record(&c, "alice");
    assert_eq!(c.ft_withdraw_callback(&id, snapshot, &two), Err(StakingError::InvariantViolation));
    assert_eq!(c.ft_transfer_callback(5, &"bob".to_string(), &vec![PromiseResult::Successful], 1), Err(StakingError::NotRegistered));
    assert_eq!(c.total_paid_reward_balance, 0);
}

#[test]
fn storage_refund_amounts() {
    assert_eq!(storage_refund(1_000, 10, 40), Ok(600));
    assert_eq!(storage_refund(400, 10, 40), Ok(0));
    assert_eq!(storage_refund(399, 10, 40), Err(StakingError::InsufficientStorageDeposit));
    assert_eq!(storage_refund(5, 10, 0), Ok(5));
    assert_eq!(storage_refund(u128::MAX, u128::MAX, 2), Err(StakingError::InsufficientStorageDeposit));
}
