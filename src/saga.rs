//! The commands that a client or the token contract triggers, and the
//! resolution of the external transfers that harvest and withdraw start.
use vstd::prelude::*;
use crate::account::{
    lemma_entries_map_index, lemma_entries_push, lemma_entries_update,
    lemma_set_entry_update, set_entry, Account,
};
use crate::contract::{
    outcome_error, single_outcome, BlockContext, HarvestRequest, PromiseResult, StakingContract,
    StakingError, WithdrawRequest,
};

verus! {

impl StakingContract {
    /// Stakes tokens that the token contract reports as sent by `sender_id`.
    /// Returns the part of `amount` handed back to the sender: none.
    pub fn ft_on_transfer(&mut self, ctx: &BlockContext, sender_id: &String, amount: u128) -> (r:
        Result<u128, StakingError>)
        requires
            old(self).wf(),
        ensures
            final(self).wf(),
            match old(self).deposit_error(
                sender_id@,
                amount,
                ctx.predecessor_account_id@,
                ctx.block_height,
            ) {
                Some(e) => r == Err::<u128, StakingError>(e) && *final(self) == *old(self),
                None => r == Ok::<u128, StakingError>(0) && old(self).staked(
                    final(self),
                    sender_id@,
                    amount,
                    ctx.block_height,
                ),
            },
            old(self).consistent() ==> final(self).consistent(),
    {
        match self.internal_deposit_and_stake(
            sender_id,
            amount,
            &ctx.predecessor_account_id,
            ctx.block_height,
        ) {
            Err(e) => Err(e),
            Ok(()) => Ok(0),
        }
    }

    /// Registers `account_id`, or the caller when it is `None`. Returns whether
    /// a new record was made; an existing one is left as it is.
    pub fn storage_deposit(&mut self, ctx: &BlockContext, account_id: Option<String>) -> (r:
        Result<bool, StakingError>)
        requires
            old(self).wf(),
        ensures
            final(self).wf(),
            ({
                let k = match account_id {
                    Some(id) => id@,
                    None => ctx.predecessor_account_id@,
                };
                if ctx.attached_deposit < 1 {
                    r == Err::<bool, StakingError>(StakingError::InvalidDeposit) && *final(self)
                        == *old(self)
                } else if old(self).is_registered(k) {
                    r == Ok::<bool, StakingError>(false) && *final(self) == *old(self)
                } else {
                    &&& r == Ok::<bool, StakingError>(true)
                    &&& final(self).same_setup(old(self))
                    &&& final(self).same_pool(old(self))
                    &&& final(self).accounts_map() == old(self).accounts_map().insert(
                        k,
                        Account::fresh(old(self).spec_effective_now(ctx.block_height)),
                    )
                }
            }),
            old(self).consistent() ==> final(self).consistent(),
    {
        if ctx.attached_deposit < 1 {
            return Err(StakingError::InvalidDeposit);
        }
        let id: String = match account_id {
            Some(id) => id,
            None => ctx.predecessor_account_id.clone(),
        };
        match self.internal_register_account(id, ctx.block_height) {
            Err(_) => Ok(false),
            Ok(()) => Ok(true),
        }
    }

    /// Unstakes `amount` of the caller's stake; the call must carry exactly
    /// one unit of deposit.
    pub fn unstake(&mut self, ctx: &BlockContext, amount: u128) -> (r: Result<(), StakingError>)
        requires
            old(self).wf(),
        ensures
            final(self).wf(),
            ctx.attached_deposit != 1 ==> r == Err::<(), StakingError>(StakingError::InvalidDeposit)
                && *final(self) == *old(self),
            ctx.attached_deposit == 1 ==> match old(self).unstake_error(
                ctx.predecessor_account_id@,
                amount,
                ctx.block_height,
                ctx.epoch_height,
            ) {
                Some(e) => r == Err::<(), StakingError>(e) && *final(self) == *old(self),
                None => r is Ok && old(self).unstaked(
                    final(self),
                    ctx.predecessor_account_id@,
                    amount,
                    ctx.block_height,
                    ctx.block_timestamp,
                    ctx.epoch_height,
                ),
            },
            old(self).consistent() ==> final(self).consistent(),
    {
        if ctx.attached_deposit != 1 {
            return Err(StakingError::InvalidDeposit);
        }
        self.internal_unstake(
            &ctx.predecessor_account_id,
            amount,
            ctx.block_height,
            ctx.block_timestamp,
            ctx.epoch_height,
        )
    }

    /// Starts a withdraw of the caller's unstaked principal: the unstake
    /// balance is cleared now, and the returned request carries the amount to
    /// transfer and the record as it was, for `ft_withdraw_callback`.
    pub fn withdraw(&mut self, ctx: &BlockContext) -> (r: Result<WithdrawRequest, StakingError>)
        requires
            old(self).wf(),
        ensures
            final(self).wf(),
            ctx.attached_deposit != 1 ==> r == Err::<WithdrawRequest, StakingError>(
                StakingError::InvalidDeposit,
            ) && *final(self) == *old(self),
            ctx.attached_deposit == 1 ==> match old(self).withdraw_error(
                ctx.predecessor_account_id@,
                ctx.epoch_height,
            ) {
                Some(e) => r == Err::<WithdrawRequest, StakingError>(e) && *final(self) == *old(
                    self,
                ),
                None => {
                    let a = old(self).accounts_map()[ctx.predecessor_account_id@];
                    &&& r is Ok
                    &&& r->Ok_0.account_id@ == ctx.predecessor_account_id@
                    &&& r->Ok_0.amount == a.unstake_balance
                    &&& r->Ok_0.old_account == a
                    &&& old(self).withdrawn(final(self), ctx.predecessor_account_id@)
                },
            },
            old(self).consistent() ==> final(self).consistent(),
    {
        if ctx.attached_deposit != 1 {
            return Err(StakingError::InvalidDeposit);
        }
        match self.internal_withdraw(&ctx.predecessor_account_id, ctx.epoch_height) {
            Err(e) => Err(e),
            Ok(old_account) => Ok(
                WithdrawRequest {
                    account_id: ctx.predecessor_account_id.clone(),
                    amount: old_account.unstake_balance,
                    old_account: old_account,
                },
            ),
        }
    }

    /// Starts a harvest of the reward owed to the caller. Nothing changes
    /// until `ft_transfer_callback` reports the transfer's outcome.
    pub fn harvest(&self, ctx: &BlockContext) -> (r: Result<HarvestRequest, StakingError>)
        requires
            self.wf(),
        ensures
            ctx.attached_deposit != 1 ==> r == Err::<HarvestRequest, StakingError>(
                StakingError::InvalidDeposit,
            ),
            ctx.attached_deposit == 1 ==> match self.harvest_error(
                ctx.predecessor_account_id@,
                ctx.block_height,
            ) {
                Some(e) => r == Err::<HarvestRequest, StakingError>(e),
                None => {
                    &&& r is Ok
                    &&& r->Ok_0.account_id@ == ctx.predecessor_account_id@
                    &&& r->Ok_0.amount == self.owed_reward(
                        self.accounts_map()[ctx.predecessor_account_id@],
                        ctx.block_height,
                    ).unwrap()
                },
            },
    {
        if ctx.attached_deposit != 1 {
            return Err(StakingError::InvalidDeposit);
        }
        let amount: u128 = match self.get_account_reward(
            &ctx.predecessor_account_id,
            ctx.block_height,
        ) {
            Err(e) => return Err(e),
            Ok(v) => v,
        };
        if amount == 0 {
            return Err(StakingError::ZeroRewardOwed);
        }
        Ok(HarvestRequest { account_id: ctx.predecessor_account_id.clone(), amount: amount })
    }

    /// `a` once its folded reward has been paid out at block `now`.
    pub open spec fn harvested_account(a: Account, now: u64) -> Account {
        Account { pre_reward: 0, last_block_balance_change: now, ..a }
    }

    /// Resolves a harvest of `amount` for `account_id`. On success the folded
    /// reward is cleared, the checkpoint moves to now and the pool records the
    /// payment; on failure nothing changes, and the harvest may be retried.
    pub fn ft_transfer_callback(
        &mut self,
        amount: u128,
        account_id: &String,
        results: &Vec<PromiseResult>,
        block_height: u64,
    ) -> (r: Result<u128, StakingError>)
        requires
            old(self).wf(),
        ensures
            final(self).wf(),
            match outcome_error(results@) {
                Some(e) => r == Err::<u128, StakingError>(e) && *final(self) == *old(self),
                None => if results@[0] == PromiseResult::Failed {
                    r == Err::<u128, StakingError>(StakingError::ExternalCallFailed) && *final(self)
                        == *old(self)
                } else if !old(self).is_registered(account_id@) {
                    r == Err::<u128, StakingError>(StakingError::NotRegistered) && *final(self)
                        == *old(self)
                } else if old(self).total_paid_reward_balance + amount > u128::MAX {
                    r == Err::<u128, StakingError>(StakingError::ArithmeticOverflow) && *final(self)
                        == *old(self)
                } else {
                    let na = Self::harvested_account(
                        old(self).accounts_map()[account_id@],
                        old(self).spec_effective_now(block_height),
                    );
                    &&& r == Ok::<u128, StakingError>(amount)
                    &&& final(self).same_setup(old(self))
                    &&& final(self).accounts@ == set_entry(old(self).accounts@, account_id@, na)
                    &&& final(self).accounts_map() == old(self).accounts_map().insert(account_id@, na)
                    &&& final(self).total_paid_reward_balance == old(self).total_paid_reward_balance
                        + amount
                    &&& final(self).total_stake_balance == old(self).total_stake_balance
                    &&& final(self).total_staker == old(self).total_staker
                    &&& final(self).pre_reward == old(self).pre_reward
                    &&& final(self).last_block_balance_change == old(self).last_block_balance_change
                },
            },
            old(self).consistent() ==> final(self).consistent(),
    {
        let succeeded: bool = match single_outcome(results) {
            Err(e) => return Err(e),
            Ok(b) => b,
        };
        if !succeeded {
            return Err(StakingError::ExternalCallFailed);
        }
        let idx: usize = match self.find_account(account_id) {
            None => return Err(StakingError::NotRegistered),
            Some(i) => i,
        };
        let paid: u128 = match self.total_paid_reward_balance.checked_add(amount) {
            None => return Err(StakingError::ArithmeticOverflow),
            Some(v) => v,
        };
        let account: Account = self.accounts[idx].1;
        let now: u64 = self.effective_now(block_height);
        let new_account = Account { pre_reward: 0, last_block_balance_change: now, ..account };
        let key: String = self.accounts[idx].0.clone();
        proof {
            lemma_set_entry_update(self.accounts@, idx as int, new_account);
            lemma_entries_update(self.accounts@, idx as int, new_account);
        }
        self.accounts.set(idx, (key, new_account));
        self.total_paid_reward_balance = paid;
        Ok(amount)
    }

    /// Resolves a withdraw. On success returns the amount paid out; on failure
    /// puts back `old_account`, the record as it was before the withdraw, and
    /// reports the failure.
    pub fn ft_withdraw_callback(
        &mut self,
        account_id: &String,
        old_account: Account,
        results: &Vec<PromiseResult>,
    ) -> (r: Result<u128, StakingError>)
        requires
            old(self).wf(),
        ensures
            final(self).wf(),
            match outcome_error(results@) {
                Some(e) => r == Err::<u128, StakingError>(e) && *final(self) == *old(self),
                None => if results@[0] == PromiseResult::Successful {
                    r == Ok::<u128, StakingError>(old_account.unstake_balance) && *final(self)
                        == *old(self)
                } else {
                    &&& r == Err::<u128, StakingError>(StakingError::ExternalCallFailed)
                    &&& final(self).same_setup(old(self))
                    &&& final(self).same_pool(old(self))
                    &&& final(self).accounts_map() == old(self).accounts_map().insert(
                        account_id@,
                        old_account,
                    )
                    &&& old(self).is_registered(account_id@) ==> final(self).accounts@
                        == set_entry(old(self).accounts@, account_id@, old_account)
                    &&& (old(self).consistent() && old(self).is_registered(account_id@) && old(
                        self,
                    ).accounts_map()[account_id@].stake_balance == old_account.stake_balance)
                        ==> final(self).consistent()
                },
            },
    {
        let succeeded: bool = match single_outcome(results) {
            Err(e) => return Err(e),
            Ok(b) => b,
        };
        if succeeded {
            return Ok(old_account.unstake_balance);
        }
        match self.find_account(account_id) {
            Some(idx) => {
                let key: String = self.accounts[idx].0.clone();
                proof {
                    lemma_set_entry_update(self.accounts@, idx as int, old_account);
                    lemma_entries_update(self.accounts@, idx as int, old_account);
                }
                self.accounts.set(idx, (key, old_account));
            },
            None => {
                proof {
                    assert forall|i: int|
                        0 <= i < self.accounts@.len() implies self.accounts@[i].0@
                        != account_id@ by {
                        if self.accounts@[i].0@ == account_id@ {
                            lemma_entries_map_index(self.accounts@, i);
                        }
                    }
                }
                let key: String = account_id.clone();
                proof {
                    lemma_entries_push(self.accounts@, key, old_account);
                }
                self.accounts.push((key, old_account));
            },
        }
        Err(StakingError::ExternalCallFailed)
    }
}

} // verus!
