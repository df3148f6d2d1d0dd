use vstd::prelude::*;
use crate::account::{
    count_active, entries_map, lemma_entries_map_absent, lemma_entries_map_index,
    lemma_entries_push, lemma_entries_update, lemma_set_entry_update, set_entry, sum_stake,
    unique_ids, Account, AccountJson,
};
use crate::config::{
    accrued_reward, accrued_spec, ConfigForReward, DEFAULT_REWARD_DENUMERATOR,
    DEFAULT_REWARD_NUMERATOR,
};

verus! {

/// Why an operation was refused. Every refusal but `ExternalCallFailed` leaves
/// the ledger as it was.
#[derive(Clone, Copy, Debug, PartialEq, Eq, Structural)]
pub enum StakingError {
    NotRegistered,
    AlreadyRegistered,
    PoolPaused,
    UnauthorizedCaller,
    InsufficientStakeBalance,
    ZeroRewardOwed,
    WithdrawLocked,
    ZeroUnstakeBalance,
    /// The external transfer failed; a withdraw's rollback has been applied.
    ExternalCallFailed,
    /// The reward clock stood before a checkpoint, a reward did not fit in
    /// `u128`, or an external outcome came in an unexpected shape.
    InvariantViolation,
    /// A balance or counter would leave the range of its integer type.
    ArithmeticOverflow,
    /// The call did not carry the attached deposit it requires.
    InvalidDeposit,
    /// The attached deposit does not cover the storage that the call used.
    InsufficientStorageDeposit,
}

/// Prefixes under which the ledger's collections are persisted.
#[derive(Clone, Copy, Debug, PartialEq, Eq, Structural)]
pub enum StorageKey {
    AccountKey,
}

/// What the runtime tells an operation about the call it is part of.
#[derive(Clone, Debug, PartialEq, Eq)]
pub struct BlockContext {
    pub block_height: u64,
    pub block_timestamp: u64,
    pub epoch_height: u64,
    pub predecessor_account_id: String,
    pub attached_deposit: u128,
}

/// The pool as reported to clients.
#[derive(Clone, Copy, Debug, PartialEq, Eq, Structural)]
pub struct PoolJson {
    pub total_stake_balance: u128,
    pub total_reward: u128,
    pub total_stakers: u128,
    pub is_paused: bool,
}

/// How the external transfer that a harvest or withdraw asked for ended.
#[derive(Clone, Copy, Debug, PartialEq, Eq, Structural)]
pub enum PromiseResult {
    NotReady,
    Successful,
    Failed,
}

/// A transfer that the caller must make, then report back through
/// `ft_withdraw_callback` with the carried snapshot.
#[derive(Clone, Debug, PartialEq, Eq)]
pub struct WithdrawRequest {
    pub account_id: String,
    pub amount: u128,
    /// The record as it was before the withdraw, for rollback.
    pub old_account: Account,
}

/// A transfer that the caller must make, then report back through
/// `ft_transfer_callback`.
#[derive(Clone, Debug, PartialEq, Eq)]
pub struct HarvestRequest {
    pub account_id: String,
    pub amount: u128,
}

/// The ledger: the pool aggregate and every registered account.
#[derive(Clone, Debug)]
pub struct StakingContract {
    pub owner_id: String,
    /// The only token contract whose transfers may stake.
    pub ft_contract_id: String,
    pub config: ConfigForReward,
    pub total_stake_balance: u128,
    pub total_paid_reward_balance: u128,
    pub total_staker: u128,
    /// Pool-level reward folded in as of `last_block_balance_change`.
    pub pre_reward: u128,
    pub last_block_balance_change: u64,
    pub accounts: Vec<(String, Account)>,
    pub paused: bool,
    /// The block frozen as "now" for rewards while paused.
    pub pause_in_block: u64,
}

impl StakingContract {
    pub open spec fn wf(&self) -> bool {
        self.config.wf() && unique_ids(self.accounts@)
    }

    /// The pool aggregate mirrors the accounts.
    pub open spec fn consistent(&self) -> bool {
        self.total_stake_balance == sum_stake(self.accounts@) && self.total_staker == count_active(
            self.accounts@,
        )
    }

    pub open spec fn accounts_map(&self) -> Map<Seq<char>, Account> {
        entries_map(self.accounts@)
    }

    pub open spec fn is_registered(&self, k: Seq<char>) -> bool {
        self.accounts_map().contains_key(k)
    }

    /// Everything fixed at creation, and the pause state.
    pub open spec fn same_setup(&self, o: &StakingContract) -> bool {
        self.owner_id == o.owner_id && self.ft_contract_id == o.ft_contract_id && self.config
            == o.config && self.paused == o.paused && self.pause_in_block == o.pause_in_block
    }

    /// The pool-level fields, unchanged.
    pub open spec fn same_pool(&self, o: &StakingContract) -> bool {
        self.total_stake_balance == o.total_stake_balance && self.total_paid_reward_balance
            == o.total_paid_reward_balance && self.total_staker == o.total_staker
            && self.pre_reward == o.pre_reward && self.last_block_balance_change
            == o.last_block_balance_change
    }

    /// The block that counts as "now" for rewards.
    pub open spec fn spec_effective_now(&self, block_height: u64) -> u64 {
        if self.paused {
            self.pause_in_block
        } else {
            block_height
        }
    }

    /// Reward accrued by `a` since its checkpoint, not counting `pre_reward`.
    pub open spec fn account_reward(&self, a: Account, block_height: u64) -> Option<u128> {
        accrued_spec(
            a.stake_balance,
            self.config,
            a.last_block_balance_change,
            self.spec_effective_now(block_height),
        )
    }

    /// Reward accrued by the pool's total stake since the pool checkpoint.
    pub open spec fn pool_reward(&self, block_height: u64) -> Option<u128> {
        accrued_spec(
            self.total_stake_balance,
            self.config,
            self.last_block_balance_change,
            self.spec_effective_now(block_height),
        )
    }

    /// A new, empty, running pool.
    pub fn new(
        owner_id: String,
        ft_contract_id: String,
        config: ConfigForReward,
        block_height: u64,
    ) -> (r: Self)
        requires
            config.wf(),
        ensures
            r.wf(),
            r.consistent(),
            r.owner_id == owner_id,
            r.ft_contract_id == ft_contract_id,
            r.config == config,
            r.total_stake_balance == 0,
            r.total_paid_reward_balance == 0,
            r.total_staker == 0,
            r.pre_reward == 0,
            r.last_block_balance_change == block_height,
            r.accounts@.len() == 0,
            !r.paused,
            r.pause_in_block == 0,
    {
        StakingContract {
            owner_id,
            ft_contract_id,
            config,
            total_stake_balance: 0,
            total_paid_reward_balance: 0,
            total_staker: 0,
            pre_reward: 0,
            last_block_balance_change: block_height,
            accounts: Vec::new(),
            paused: false,
            pause_in_block: 0,
        }
    }

    /// A new pool with the default reward rate.
    pub fn new_default_config(owner_id: String, ft_contract_id: String, block_height: u64) -> (r:
        Self)
        ensures
            r.wf(),
            r.consistent(),
            r.owner_id == owner_id,
            r.ft_contract_id == ft_contract_id,
            r.config.reward_numerator == DEFAULT_REWARD_NUMERATOR,
            r.config.reward_denumerator == DEFAULT_REWARD_DENUMERATOR,
            r.total_stake_balance == 0,
            r.total_paid_reward_balance == 0,
            r.total_staker == 0,
            r.pre_reward == 0,
            r.last_block_balance_change == block_height,
            r.accounts@.len() == 0,
            !r.paused,
            r.pause_in_block == 0,
    {
        Self::new(owner_id, ft_contract_id, ConfigForReward::default(), block_height)
    }

    pub fn effective_now(&self, block_height: u64) -> (r: u64)
        ensures
            r == self.spec_effective_now(block_height),
    {
        if self.paused {
            self.pause_in_block
        } else {
            block_height
        }
    }

    /// Index of the record of `account_id`, if it is registered.
    pub(crate) fn find_account(&self, account_id: &String) -> (r: Option<usize>)
        requires
            self.wf(),
        ensures
            match r {
                Some(i) => i < self.accounts@.len() && self.accounts@[i as int].0@ == account_id@
                    && self.is_registered(account_id@) && self.accounts_map()[account_id@]
                    == self.accounts@[i as int].1,
                None => !self.is_registered(account_id@),
            },
    {
        let mut i: usize = 0;
        while i < self.accounts.len()
            invariant
                self.wf(),
                i <= self.accounts@.len(),
                forall|j: int| 0 <= j < i ==> self.accounts@[j].0@ != account_id@,
            decreases self.accounts@.len() - i,
        {
            if self.accounts[i].0 == *account_id {
                proof {
                    lemma_entries_map_index(self.accounts@, i as int);
                }
                return Some(i);
            }
            i = i + 1;
        }
        proof {
            lemma_entries_map_absent(self.accounts@, account_id@);
        }
        None
    }

    /// Reward that `account` accrued since its checkpoint.
    pub fn internal_calculate_account_reward(&self, account: &Account, block_height: u64) -> (r:
        Option<u128>)
        requires
            self.wf(),
        ensures
            r == self.account_reward(*account, block_height),
    {
        let now: u64 = self.effective_now(block_height);
        accrued_reward(account.stake_balance, &self.config, account.last_block_balance_change, now)
    }

    /// Reward that the pool's total stake accrued since the pool checkpoint.
    pub fn internal_calculate_global_reward(&self, block_height: u64) -> (r: Option<u128>)
        requires
            self.wf(),
        ensures
            r == self.pool_reward(block_height),
    {
        let now: u64 = self.effective_now(block_height);
        accrued_reward(self.total_stake_balance, &self.config, self.last_block_balance_change, now)
    }

    /// Why staking `amount` for `k`, called by `caller`, is refused, if it is.
    pub open spec fn deposit_error(&self, k: Seq<char>, amount: u128, caller: Seq<char>, block_height: u64) -> Option<StakingError> {
        if !self.is_registered(k) {
            Some(StakingError::NotRegistered)
        } else if self.paused {
            Some(StakingError::PoolPaused)
        } else if caller != self.ft_contract_id@ {
            Some(StakingError::UnauthorizedCaller)
        } else {
            let a = self.accounts_map()[k];
            match (self.account_reward(a, block_height), self.pool_reward(block_height)) {
                (Some(r), Some(g)) => if a.pre_reward + r > u128::MAX
                    || a.stake_balance + amount > u128::MAX
                    || self.total_stake_balance + amount > u128::MAX
                    || self.pre_reward + g > u128::MAX
                    || (a.stake_balance == 0 && amount > 0 && self.total_staker + 1 > u128::MAX) {
                    Some(StakingError::ArithmeticOverflow)
                } else {
                    None
                },
                _ => Some(StakingError::InvariantViolation),
            }
        }
    }

    /// `a` after staking `amount` more at block `now`, with `r` folded in.
    pub open spec fn staked_account(a: Account, r: u128, amount: u128, now: u64) -> Account {
        Account {
            stake_balance: (a.stake_balance + amount) as u128,
            pre_reward: (a.pre_reward + r) as u128,
            last_block_balance_change: now,
            ..a
        }
    }

    /// `post` is `self` after staking `amount` for `k` at `block_height`.
    pub open spec fn staked(&self, post: &StakingContract, k: Seq<char>, amount: u128, block_height: u64) -> bool {
        let a = self.accounts_map()[k];
        let na = Self::staked_account(a, self.account_reward(a, block_height).unwrap(), amount, block_height);
        &&& post.same_setup(self)
        &&& post.accounts@ == set_entry(self.accounts@, k, na)
        &&& post.accounts_map() == self.accounts_map().insert(k, na)
        &&& post.total_stake_balance == self.total_stake_balance + amount
        &&& post.pre_reward == self.pre_reward + self.pool_reward(block_height).unwrap()
        &&& post.last_block_balance_change == block_height
        &&& post.total_staker == self.total_staker + if a.stake_balance == 0 && amount > 0 { 1int } else { 0 }
        &&& post.total_paid_reward_balance == self.total_paid_reward_balance
    }

    /// `post` is `self` after unstaking `amount` of `k`'s stake.
    pub open spec fn unstaked(&self, post: &StakingContract, k: Seq<char>, amount: u128, block_height: u64, block_timestamp: u64, epoch_height: u64) -> bool {
        let a = self.accounts_map()[k];
        let now = self.spec_effective_now(block_height);
        let na = Self::unstaked_account(a, self.account_reward(a, block_height).unwrap(), amount, now, block_timestamp, epoch_height);
        &&& post.same_setup(self)
        &&& post.accounts@ == set_entry(self.accounts@, k, na)
        &&& post.accounts_map() == self.accounts_map().insert(k, na)
        &&& post.total_stake_balance == self.total_stake_balance - amount
        &&& post.pre_reward == self.pre_reward + self.pool_reward(block_height).unwrap()
        &&& post.last_block_balance_change == now
        &&& post.total_staker == self.total_staker - if a.stake_balance > 0 && a.stake_balance == amount { 1int } else { 0 }
        &&& post.total_paid_reward_balance == self.total_paid_reward_balance
    }

    /// `post` is `self` after `k`'s unstake balance was taken out for withdrawal.
    pub open spec fn withdrawn(&self, post: &StakingContract, k: Seq<char>) -> bool {
        let na = Self::withdrawn_account(self.accounts_map()[k]);
        &&& post.same_setup(self)
        &&& post.same_pool(self)
        &&& post.accounts@ == set_entry(self.accounts@, k, na)
        &&& post.accounts_map() == self.accounts_map().insert(k, na)
    }

    /// Registers `account_id` with a zeroed record whose checkpoint is now.
    pub fn internal_register_account(&mut self, account_id: String, block_height: u64) -> (r:
        Result<(), StakingError>)
        requires
            old(self).wf(),
        ensures
            final(self).wf(),
            old(self).is_registered(account_id@) ==> r == Err::<(), StakingError>(
                StakingError::AlreadyRegistered,
            ) && *final(self) == *old(self),
            !old(self).is_registered(account_id@) ==> r is Ok && final(self).same_setup(old(self))
                && final(self).same_pool(old(self)) && final(self).accounts@ == old(
                self,
            ).accounts@.push((account_id, Account::fresh(old(self).spec_effective_now(block_height))))
                && final(self).accounts_map() == old(self).accounts_map().insert(
                account_id@,
                Account::fresh(old(self).spec_effective_now(block_height)),
            ),
            old(self).consistent() ==> final(self).consistent(),
    {
        match self.find_account(&account_id) {
            Some(_) => Err(StakingError::AlreadyRegistered),
            None => {
                let now: u64 = self.effective_now(block_height);
                let account = Account {
                    stake_balance: 0,
                    pre_reward: 0,
                    last_block_balance_change: now,
                    unstake_balance: 0,
                    unstake_start_timestamp: 0,
                    unstake_available_epoch: 0,
                };
                proof {
                    assert forall|i: int| 0 <= i < self.accounts@.len() implies self.accounts@[i].0@ != account_id@ by {
                        if self.accounts@[i].0@ == account_id@ {
                            lemma_entries_map_index(self.accounts@, i);
                        }
                    }
                    lemma_entries_push(self.accounts@, account_id, account);
                }
                self.accounts.push((account_id, account));
                Ok(())
            },
        }
    }

    /// Stakes `amount` for `account_id`: folds the reward accrued so far into
    /// `pre_reward`, raises the stake and moves the checkpoint to now, and does
    /// the same on the pool aggregate.
    pub fn internal_deposit_and_stake(
        &mut self,
        account_id: &String,
        amount: u128,
        caller: &String,
        block_height: u64,
    ) -> (r: Result<(), StakingError>)
        requires
            old(self).wf(),
        ensures
            final(self).wf(),
            match old(self).deposit_error(account_id@, amount, caller@, block_height) {
                Some(e) => r == Err::<(), StakingError>(e) && *final(self) == *old(self),
                None => r is Ok && old(self).staked(final(self), account_id@, amount, block_height),
            },
            old(self).consistent() ==> final(self).consistent(),
    {
        let idx: usize = match self.find_account(account_id) {
            None => return Err(StakingError::NotRegistered),
            Some(i) => i,
        };
        if self.paused {
            return Err(StakingError::PoolPaused);
        }
        if !(*caller == self.ft_contract_id) {
            return Err(StakingError::UnauthorizedCaller);
        }
        let account: Account = self.accounts[idx].1;
        let reward: u128 = match self.internal_calculate_account_reward(&account, block_height) {
            None => return Err(StakingError::InvariantViolation),
            Some(v) => v,
        };
        let pool_reward: u128 = match self.internal_calculate_global_reward(block_height) {
            None => return Err(StakingError::InvariantViolation),
            Some(v) => v,
        };
        let pre_reward: u128 = match account.pre_reward.checked_add(reward) {
            None => return Err(StakingError::ArithmeticOverflow),
            Some(v) => v,
        };
        let stake: u128 = match account.stake_balance.checked_add(amount) {
            None => return Err(StakingError::ArithmeticOverflow),
            Some(v) => v,
        };
        let total: u128 = match self.total_stake_balance.checked_add(amount) {
            None => return Err(StakingError::ArithmeticOverflow),
            Some(v) => v,
        };
        let pool_pre_reward: u128 = match self.pre_reward.checked_add(pool_reward) {
            None => return Err(StakingError::ArithmeticOverflow),
            Some(v) => v,
        };
        let stakers: u128 = if account.stake_balance == 0 && amount > 0 {
            match self.total_staker.checked_add(1) {
                None => return Err(StakingError::ArithmeticOverflow),
                Some(v) => v,
            }
        } else {
            self.total_staker
        };
        let new_account = Account {
            stake_balance: stake,
            pre_reward: pre_reward,
            last_block_balance_change: block_height,
            ..account
        };
        let key: String = self.accounts[idx].0.clone();
        proof {
            lemma_set_entry_update(self.accounts@, idx as int, new_account);
            lemma_entries_update(self.accounts@, idx as int, new_account);
        }
        self.accounts.set(idx, (key, new_account));
        self.total_stake_balance = total;
        self.pre_reward = pool_pre_reward;
        self.last_block_balance_change = block_height;
        self.total_staker = stakers;
        Ok(())
    }

    /// Why unstaking `amount` from `k` is refused, if it is.
    pub open spec fn unstake_error(&self, k: Seq<char>, amount: u128, block_height: u64, epoch_height: u64) -> Option<StakingError> {
        if !self.is_registered(k) {
            Some(StakingError::NotRegistered)
        } else if amount > self.accounts_map()[k].stake_balance {
            Some(StakingError::InsufficientStakeBalance)
        } else {
            let a = self.accounts_map()[k];
            match (self.account_reward(a, block_height), self.pool_reward(block_height)) {
                (Some(r), Some(g)) => if a.pre_reward + r > u128::MAX
                    || a.unstake_balance + amount > u128::MAX
                    || epoch_height + 1 > u64::MAX
                    || self.pre_reward + g > u128::MAX
                    || self.total_stake_balance < amount
                    || (a.stake_balance > 0 && a.stake_balance == amount && self.total_staker == 0) {
                    Some(StakingError::ArithmeticOverflow)
                } else {
                    None
                },
                _ => Some(StakingError::InvariantViolation),
            }
        }
    }

    /// `a` after unstaking `amount` at block `now`, with `r` folded in.
    pub open spec fn unstaked_account(a: Account, r: u128, amount: u128, now: u64, timestamp: u64, epoch_height: u64) -> Account {
        Account {
            stake_balance: (a.stake_balance - amount) as u128,
            pre_reward: (a.pre_reward + r) as u128,
            last_block_balance_change: now,
            unstake_balance: (a.unstake_balance + amount) as u128,
            unstake_start_timestamp: timestamp,
            unstake_available_epoch: (epoch_height + 1) as u64,
        }
    }

    /// Moves `amount` of `account_id`'s stake to its unstake balance, withdrawable
    /// from the next epoch on; folds the accrued reward on the account and on
    /// the pool.
    pub fn internal_unstake(
        &mut self,
        account_id: &String,
        amount: u128,
        block_height: u64,
        block_timestamp: u64,
        epoch_height: u64,
    ) -> (r: Result<(), StakingError>)
        requires
            old(self).wf(),
        ensures
            final(self).wf(),
            match old(self).unstake_error(account_id@, amount, block_height, epoch_height) {
                Some(e) => r == Err::<(), StakingError>(e) && *final(self) == *old(self),
                None => r is Ok && old(self).unstaked(
                    final(self),
                    account_id@,
                    amount,
                    block_height,
                    block_timestamp,
                    epoch_height,
                ),
            },
            old(self).consistent() ==> final(self).consistent(),
    {
        let idx: usize = match self.find_account(account_id) {
            None => return Err(StakingError::NotRegistered),
            Some(i) => i,
        };
        let account: Account = self.accounts[idx].1;
        if amount > account.stake_balance {
            return Err(StakingError::InsufficientStakeBalance);
        }
        let reward: u128 = match self.internal_calculate_account_reward(&account, block_height) {
            None => return Err(StakingError::InvariantViolation),
            Some(v) => v,
        };
        let pool_reward: u128 = match self.internal_calculate_global_reward(block_height) {
            None => return Err(StakingError::InvariantViolation),
            Some(v) => v,
        };
        let pre_reward: u128 = match account.pre_reward.checked_add(reward) {
            None => return Err(StakingError::ArithmeticOverflow),
            Some(v) => v,
        };
        let unstake_balance: u128 = match account.unstake_balance.checked_add(amount) {
            None => return Err(StakingError::ArithmeticOverflow),
            Some(v) => v,
        };
        let available_epoch: u64 = match epoch_height.checked_add(1) {
            None => return Err(StakingError::ArithmeticOverflow),
            Some(v) => v,
        };
        let pool_pre_reward: u128 = match self.pre_reward.checked_add(pool_reward) {
            None => return Err(StakingError::ArithmeticOverflow),
            Some(v) => v,
        };
        let total: u128 = match self.total_stake_balance.checked_sub(amount) {
            None => return Err(StakingError::ArithmeticOverflow),
            Some(v) => v,
        };
        let stakers: u128 = if account.stake_balance > 0 && account.stake_balance == amount {
            match self.total_staker.checked_sub(1) {
                None => return Err(StakingError::ArithmeticOverflow),
                Some(v) => v,
            }
        } else {
            self.total_staker
        };
        let now: u64 = self.effective_now(block_height);
        let new_account = Account {
            stake_balance: account.stake_balance - amount,
            pre_reward: pre_reward,
            last_block_balance_change: now,
            unstake_balance: unstake_balance,
            unstake_start_timestamp: block_timestamp,
            unstake_available_epoch: available_epoch,
        };
        let key: String = self.accounts[idx].0.clone();
        proof {
            lemma_set_entry_update(self.accounts@, idx as int, new_account);
            lemma_entries_update(self.accounts@, idx as int, new_account);
        }
        self.accounts.set(idx, (key, new_account));
        self.total_stake_balance = total;
        self.pre_reward = pool_pre_reward;
        self.last_block_balance_change = now;
        self.total_staker = stakers;
        Ok(())
    }

    /// Why withdrawing for `k` at `epoch_height` is refused, if it is.
    pub open spec fn withdraw_error(&self, k: Seq<char>, epoch_height: u64) -> Option<StakingError> {
        if !self.is_registered(k) {
            Some(StakingError::NotRegistered)
        } else if self.accounts_map()[k].unstake_balance == 0 {
            Some(StakingError::ZeroUnstakeBalance)
        } else if self.accounts_map()[k].unstake_available_epoch > epoch_height {
            Some(StakingError::WithdrawLocked)
        } else {
            None
        }
    }

    /// `a` once its unstaked principal has been handed out.
    pub open spec fn withdrawn_account(a: Account) -> Account {
        Account { unstake_balance: 0, unstake_start_timestamp: 0, unstake_available_epoch: 0, ..a }
    }

    /// Clears `account_id`'s unstake balance at once, so that it cannot be
    /// withdrawn twice, and returns the record as it was before.
    pub fn internal_withdraw(&mut self, account_id: &String, epoch_height: u64) -> (r: Result<
        Account,
        StakingError,
    >)
        requires
            old(self).wf(),
        ensures
            final(self).wf(),
            match old(self).withdraw_error(account_id@, epoch_height) {
                Some(e) => r == Err::<Account, StakingError>(e) && *final(self) == *old(self),
                None => r == Ok::<Account, StakingError>(old(self).accounts_map()[account_id@])
                    && old(self).withdrawn(final(self), account_id@),
            },
            old(self).consistent() ==> final(self).consistent(),
    {
        let idx: usize = match self.find_account(account_id) {
            None => return Err(StakingError::NotRegistered),
            Some(i) => i,
        };
        let account: Account = self.accounts[idx].1;
        if account.unstake_balance == 0 {
            return Err(StakingError::ZeroUnstakeBalance);
        }
        if account.unstake_available_epoch > epoch_height {
            return Err(StakingError::WithdrawLocked);
        }
        let new_account = Account {
            unstake_balance: 0,
            unstake_start_timestamp: 0,
            unstake_available_epoch: 0,
            ..account
        };
        let key: String = self.accounts[idx].0.clone();
        proof {
            lemma_set_entry_update(self.accounts@, idx as int, new_account);
            lemma_entries_update(self.accounts@, idx as int, new_account);
        }
        self.accounts.set(idx, (key, new_account));
        Ok(account)
    }

    /// The reward that `a` is owed now: folded plus accrued since its checkpoint.
    pub open spec fn owed_reward(&self, a: Account, block_height: u64) -> Option<u128> {
        match self.account_reward(a, block_height) {
            Some(r) => if a.pre_reward + r > u128::MAX {
                None
            } else {
                Some((a.pre_reward + r) as u128)
            },
            None => None,
        }
    }

    /// Why reading the reward owed to `k` fails, if it does.
    pub open spec fn reward_error(&self, k: Seq<char>, block_height: u64) -> Option<StakingError> {
        if !self.is_registered(k) {
            Some(StakingError::NotRegistered)
        } else {
            let a = self.accounts_map()[k];
            match self.account_reward(a, block_height) {
                None => Some(StakingError::InvariantViolation),
                Some(r) => if a.pre_reward + r > u128::MAX {
                    Some(StakingError::ArithmeticOverflow)
                } else {
                    None
                },
            }
        }
    }

    /// Why a harvest by `k` is refused, if it is.
    pub open spec fn harvest_error(&self, k: Seq<char>, block_height: u64) -> Option<StakingError> {
        match self.reward_error(k, block_height) {
            Some(e) => Some(e),
            None => if self.owed_reward(self.accounts_map()[k], block_height).unwrap() == 0 {
                Some(StakingError::ZeroRewardOwed)
            } else {
                None
            },
        }
    }

    /// The reward owed to `account_id` now.
    pub fn get_account_reward(&self, account_id: &String, block_height: u64) -> (r: Result<
        u128,
        StakingError,
    >)
        requires
            self.wf(),
        ensures
            match self.reward_error(account_id@, block_height) {
                Some(e) => r == Err::<u128, StakingError>(e),
                None => r == Ok::<u128, StakingError>(
                    self.owed_reward(self.accounts_map()[account_id@], block_height).unwrap(),
                ),
            },
    {
        let idx: usize = match self.find_account(account_id) {
            None => return Err(StakingError::NotRegistered),
            Some(i) => i,
        };
        let account: Account = self.accounts[idx].1;
        let reward: u128 = match self.internal_calculate_account_reward(&account, block_height) {
            None => return Err(StakingError::InvariantViolation),
            Some(v) => v,
        };
        match account.pre_reward.checked_add(reward) {
            None => Err(StakingError::ArithmeticOverflow),
            Some(v) => Ok(v),
        }
    }

    /// A snapshot of `account_id`'s record with the reward owed now.
    pub fn get_account_info(&self, account_id: &String, block_height: u64) -> (r: Result<
        AccountJson,
        StakingError,
    >)
        requires
            self.wf(),
        ensures
            match self.reward_error(account_id@, block_height) {
                Some(e) => r == Err::<AccountJson, StakingError>(e),
                None => {
                    let a = self.accounts_map()[account_id@];
                    &&& r is Ok
                    &&& r->Ok_0.account_id@ == account_id@
                    &&& r->Ok_0.stake_balance == a.stake_balance
                    &&& r->Ok_0.reward == self.owed_reward(a, block_height).unwrap()
                    &&& r->Ok_0.unstake_balance == a.unstake_balance
                    &&& r->Ok_0.unstake_start_timestamp == a.unstake_start_timestamp
                    &&& r->Ok_0.unstake_available_epoch == a.unstake_available_epoch
                },
            },
    {
        let reward: u128 = match self.get_account_reward(account_id, block_height) {
            Err(e) => return Err(e),
            Ok(v) => v,
        };
        let idx: usize = match self.find_account(account_id) {
            None => return Err(StakingError::NotRegistered),
            Some(i) => i,
        };
        let account: Account = self.accounts[idx].1;
        Ok(
            AccountJson {
                account_id: account_id.clone(),
                stake_balance: account.stake_balance,
                reward: reward,
                unstake_balance: account.unstake_balance,
                unstake_start_timestamp: account.unstake_start_timestamp,
                unstake_available_epoch: account.unstake_available_epoch,
            },
        )
    }

    /// The pool aggregate, with the pool-level reward projected to now.
    pub fn get_pool_info(&self, block_height: u64) -> (r: Result<PoolJson, StakingError>)
        requires
            self.wf(),
        ensures
            match self.pool_reward(block_height) {
                None => r == Err::<PoolJson, StakingError>(StakingError::InvariantViolation),
                Some(g) => if self.pre_reward + g > u128::MAX {
                    r == Err::<PoolJson, StakingError>(StakingError::ArithmeticOverflow)
                } else {
                    r == Ok::<PoolJson, StakingError>(
                        PoolJson {
                            total_stake_balance: self.total_stake_balance,
                            total_reward: (self.pre_reward + g) as u128,
                            total_stakers: self.total_staker,
                            is_paused: self.paused,
                        },
                    )
                },
            },
    {
        let pool_reward: u128 = match self.internal_calculate_global_reward(block_height) {
            None => return Err(StakingError::InvariantViolation),
            Some(v) => v,
        };
        match self.pre_reward.checked_add(pool_reward) {
            None => Err(StakingError::ArithmeticOverflow),
            Some(total_reward) => Ok(
                PoolJson {
                    total_stake_balance: self.total_stake_balance,
                    total_reward: total_reward,
                    total_stakers: self.total_staker,
                    is_paused: self.paused,
                },
            ),
        }
    }

    pub fn is_pause(&self) -> (r: bool)
        ensures
            r == self.paused,
    {
        self.paused
    }

    /// 1 when `account_id` is registered, else 0.
    pub fn storage_balance_of(&self, account_id: &String) -> (r: u128)
        requires
            self.wf(),
        ensures
            r == if self.is_registered(account_id@) { 1u128 } else { 0u128 },
    {
        match self.find_account(account_id) {
            Some(_) => 1,
            None => 0,
        }
    }

    /// Freezes the reward clock at `block_height`; a pool already paused stays
    /// frozen where it was.
    pub fn pause(&mut self, block_height: u64)
        ensures
            final(self).paused,
            final(self).pause_in_block == if old(self).paused {
                old(self).pause_in_block
            } else {
                block_height
            },
            final(self).owner_id == old(self).owner_id,
            final(self).ft_contract_id == old(self).ft_contract_id,
            final(self).config == old(self).config,
            final(self).same_pool(old(self)),
            final(self).accounts == old(self).accounts,
    {
        if !self.paused {
            self.paused = true;
            self.pause_in_block = block_height;
        }
    }
}

/// Cost of `storage_used` bytes at `byte_cost` each, or `None` when it does
/// not fit in `u128`.
pub open spec fn storage_cost(byte_cost: u128, storage_used: u64) -> Option<u128> {
    if byte_cost * storage_used > u128::MAX {
        None
    } else {
        Some((byte_cost * storage_used) as u128)
    }
}

/// What is handed back of `attached_deposit` once `storage_used` bytes at
/// `byte_cost` each are paid for.
pub fn storage_refund(attached_deposit: u128, byte_cost: u128, storage_used: u64) -> (r: Result<
    u128,
    StakingError,
>)
    ensures
        match storage_cost(byte_cost, storage_used) {
            None => r == Err::<u128, StakingError>(StakingError::InsufficientStorageDeposit),
            Some(cost) => if attached_deposit < cost {
                r == Err::<u128, StakingError>(StakingError::InsufficientStorageDeposit)
            } else {
                r == Ok::<u128, StakingError>((attached_deposit - cost) as u128)
            },
        },
{
    let cost: u128 = match byte_cost.checked_mul(storage_used as u128) {
        None => return Err(StakingError::InsufficientStorageDeposit),
        Some(v) => v,
    };
    if attached_deposit < cost {
        return Err(StakingError::InsufficientStorageDeposit);
    }
    Ok(attached_deposit - cost)
}

/// What an external transfer's results say, if they are not a single success
/// or failure.
pub open spec fn outcome_error(results: Seq<PromiseResult>) -> Option<StakingError> {
    if results.len() != 1 {
        Some(StakingError::InvariantViolation)
    } else if results[0] == PromiseResult::NotReady {
        Some(StakingError::InvariantViolation)
    } else {
        None
    }
}

/// The single result of an external transfer, or the shape error.
pub(crate) fn single_outcome(results: &Vec<PromiseResult>) -> (r: Result<bool, StakingError>)
    ensures
        match outcome_error(results@) {
            Some(e) => r == Err::<bool, StakingError>(e),
            None => r == Ok::<bool, StakingError>(results@[0] == PromiseResult::Successful),
        },
{
    if results.len() != 1 {
        return Err(StakingError::InvariantViolation);
    }
    match results[0] {
        PromiseResult::NotReady => Err(StakingError::InvariantViolation),
        PromiseResult::Successful => Ok(true),
        PromiseResult::Failed => Ok(false),
    }
}

} // verus!
