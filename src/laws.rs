//! Properties that relate several operations or hold of every input.
use vstd::prelude::*;
use vstd::arithmetic::div_mod::lemma_div_is_ordered;
use crate::account::{entries_map, lemma_entries_map_index, set_entry, unique_ids, Account};
use crate::config::{accrued_spec, reward_spec, ConfigForReward};
use crate::contract::StakingContract;

verus! {

/// Accrued reward never decreases when the balance or the elapsed time grows,
/// and is zero when either is zero. Where the larger reward is defined, so is
/// the smaller one.
pub proof fn lemma_reward_monotone(
    balance1: u128,
    balance2: u128,
    config: ConfigForReward,
    checkpoint: u64,
    now1: u64,
    now2: u64,
)
    requires
        config.wf(),
        balance1 <= balance2,
        checkpoint <= now1 <= now2,
        accrued_spec(balance2, config, checkpoint, now2) is Some,
    ensures
        accrued_spec(balance1, config, checkpoint, now1) is Some,
        accrued_spec(balance1, config, checkpoint, now1).unwrap() <= accrued_spec(
            balance2,
            config,
            checkpoint,
            now2,
        ).unwrap(),
        accrued_spec(balance1, config, checkpoint, checkpoint) == Some(0u128),
        accrued_spec(0, config, checkpoint, now1) == Some(0u128),
{
    let n = config.reward_numerator as int;
    let d = config.reward_denumerator as int;
    let e1 = (now1 - checkpoint) as int;
    let e2 = (now2 - checkpoint) as int;
    let b1 = balance1 as int;
    let b2 = balance2 as int;
    assert(b1 * n * e1 <= b2 * n * e2) by (nonlinear_arith)
        requires
            0 <= b1 <= b2,
            0 <= e1 <= e2,
            n >= 0,
    ;
    lemma_div_is_ordered(b1 * n * e1, b2 * n * e2, d);
    assert(b1 * n * 0 == 0) by (nonlinear_arith);
    assert(0 * n * e1 == 0) by (nonlinear_arith);
    assert(reward_spec(b1, n, d, 0) == 0);
    assert(reward_spec(0, n, d, e1) == 0);
}

proof fn lemma_entries_map_key(s: Seq<(String, Account)>, k: Seq<char>)
    requires
        entries_map(s).contains_key(k),
    ensures
        exists|i: int| 0 <= i < s.len() && s[i].0@ == k,
    decreases s.len(),
{
    if s.len() > 0 && s.last().0@ != k {
        lemma_entries_map_key(s.drop_last(), k);
        let i = choose|i: int| 0 <= i < s.len() - 1 && s.drop_last()[i].0@ == k;
        assert(s[i] == s.drop_last()[i]);
    } else if s.len() > 0 {
        assert(s[s.len() - 1].0@ == k);
    }
}

/// Replacing a record and then putting the old record back gives the very
/// same records.
pub proof fn lemma_set_entry_restores(s: Seq<(String, Account)>, k: Seq<char>, w: Account)
    requires
        unique_ids(s),
        entries_map(s).contains_key(k),
    ensures
        set_entry(set_entry(s, k, w), k, entries_map(s)[k]) == s,
{
    lemma_entries_map_key(s, k);
    let i = choose|i: int| 0 <= i < s.len() && s[i].0@ == k;
    lemma_entries_map_index(s, i);
    assert(set_entry(set_entry(s, k, w), k, entries_map(s)[k]) =~= s);
}

/// A withdraw followed by a failed transfer leaves the ledger exactly as it
/// was before the withdraw: `mid` is the ledger after `withdraw` by `k`,
/// `after` the one after `ft_withdraw_callback` put back the snapshot.
pub proof fn lemma_withdraw_failure_round_trip(
    before: StakingContract,
    mid: StakingContract,
    after: StakingContract,
    k: Seq<char>,
)
    requires
        before.wf(),
        before.is_registered(k),
        before.withdrawn(&mid, k),
        after.same_setup(&mid),
        after.same_pool(&mid),
        after.accounts@ == set_entry(mid.accounts@, k, before.accounts_map()[k]),
    ensures
        after.accounts@ == before.accounts@,
        after.same_setup(&before),
        after.same_pool(&before),
{
    lemma_set_entry_restores(
        before.accounts@,
        k,
        StakingContract::withdrawn_account(before.accounts_map()[k]),
    );
}

/// While paused, the reward of every account and of the pool is the same
/// whatever the current block.
pub proof fn lemma_pause_freezes_reward(
    c: StakingContract,
    a: Account,
    block_height1: u64,
    block_height2: u64,
)
    requires
        c.paused,
    ensures
        c.account_reward(a, block_height1) == c.account_reward(a, block_height2),
        c.owed_reward(a, block_height1) == c.owed_reward(a, block_height2),
        c.pool_reward(block_height1) == c.pool_reward(block_height2),
{
}

} // verus!
