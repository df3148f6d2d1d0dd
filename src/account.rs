use vstd::prelude::*;

verus! {

/// One participant's staking record.
#[derive(Clone, Copy, Debug, PartialEq, Eq, Structural)]
pub struct Account {
    /// Principal currently earning reward.
    pub stake_balance: u128,
    /// Reward folded in as of `last_block_balance_change`, not yet paid out.
    pub pre_reward: u128,
    /// Block from which `stake_balance` earns reward not yet in `pre_reward`.
    pub last_block_balance_change: u64,
    /// Principal taken out of staking and waiting to be withdrawn.
    pub unstake_balance: u128,
    pub unstake_start_timestamp: u64,
    /// First epoch at which `unstake_balance` may be withdrawn.
    pub unstake_available_epoch: u64,
}

impl Account {
    /// A freshly registered account: everything zero, checkpoint at `now`.
    pub open spec fn fresh(now: u64) -> Account {
        Account {
            stake_balance: 0,
            pre_reward: 0,
            last_block_balance_change: now,
            unstake_balance: 0,
            unstake_start_timestamp: 0,
            unstake_available_epoch: 0,
        }
    }
}

/// What a client is shown of one account.
#[derive(Clone, Debug, PartialEq, Eq)]
pub struct AccountJson {
    pub account_id: String,
    pub stake_balance: u128,
    /// Folded reward plus what accrued since the last checkpoint.
    pub reward: u128,
    pub unstake_balance: u128,
    pub unstake_start_timestamp: u64,
    pub unstake_available_epoch: u64,
}

/// The accounts of a ledger as a map from account identifier to record.
pub open spec fn entries_map(s: Seq<(String, Account)>) -> Map<Seq<char>, Account>
    decreases s.len(),
{
    if s.len() == 0 {
        Map::empty()
    } else {
        entries_map(s.drop_last()).insert(s.last().0@, s.last().1)
    }
}

/// No identifier occurs twice.
pub open spec fn unique_ids(s: Seq<(String, Account)>) -> bool {
    forall|i: int, j: int| 0 <= i < j < s.len() ==> s[i].0@ != s[j].0@
}

/// Sum of the stake balances.
pub open spec fn sum_stake(s: Seq<(String, Account)>) -> int
    decreases s.len(),
{
    if s.len() == 0 {
        0
    } else {
        sum_stake(s.drop_last()) + s.last().1.stake_balance
    }
}

/// Number of records with a non-zero stake balance.
pub open spec fn count_active(s: Seq<(String, Account)>) -> int
    decreases s.len(),
{
    if s.len() == 0 {
        0
    } else {
        count_active(s.drop_last()) + if s.last().1.stake_balance > 0 {
            1int
        } else {
            0
        }
    }
}

pub proof fn lemma_entries_map_index(s: Seq<(String, Account)>, i: int)
    requires
        unique_ids(s),
        0 <= i < s.len(),
    ensures
        entries_map(s).contains_key(s[i].0@),
        entries_map(s)[s[i].0@] == s[i].1,
    decreases s.len(),
{
    if i < s.len() - 1 {
        lemma_entries_map_index(s.drop_last(), i);
    }
}

pub proof fn lemma_entries_map_absent(s: Seq<(String, Account)>, k: Seq<char>)
    requires
        forall|i: int| 0 <= i < s.len() ==> s[i].0@ != k,
    ensures
        !entries_map(s).contains_key(k),
    decreases s.len(),
{
    if s.len() > 0 {
        lemma_entries_map_absent(s.drop_last(), k);
    }
}

pub proof fn lemma_entries_update(s: Seq<(String, Account)>, i: int, a: Account)
    requires
        unique_ids(s),
        0 <= i < s.len(),
    ensures
        unique_ids(s.update(i, (s[i].0, a))),
        entries_map(s.update(i, (s[i].0, a))) == entries_map(s).insert(s[i].0@, a),
        sum_stake(s.update(i, (s[i].0, a))) == sum_stake(s) - s[i].1.stake_balance
            + a.stake_balance,
        count_active(s.update(i, (s[i].0, a))) == count_active(s) - (if s[i].1.stake_balance
            > 0 {
            1int
        } else {
            0
        }) + (if a.stake_balance > 0 {
            1int
        } else {
            0
        }),
    decreases s.len(),
{
    let t = s.update(i, (s[i].0, a));
    if i == s.len() - 1 {
        assert(t.drop_last() =~= s.drop_last());
        assert(entries_map(t) =~= entries_map(s).insert(s[i].0@, a));
    } else {
        assert(t.drop_last() =~= s.drop_last().update(i, (s[i].0, a)));
        lemma_entries_update(s.drop_last(), i, a);
        assert(entries_map(t) =~= entries_map(s).insert(s[i].0@, a));
    }
}

pub proof fn lemma_entries_push(s: Seq<(String, Account)>, k: String, a: Account)
    requires
        unique_ids(s),
        forall|i: int| 0 <= i < s.len() ==> s[i].0@ != k@,
    ensures
        unique_ids(s.push((k, a))),
        entries_map(s.push((k, a))) == entries_map(s).insert(k@, a),
        sum_stake(s.push((k, a))) == sum_stake(s) + a.stake_balance,
        count_active(s.push((k, a))) == count_active(s) + (if a.stake_balance > 0 {
            1int
        } else {
            0
        }),
{
    assert(s.push((k, a)).drop_last() =~= s);
}

/// The records with the identifier `k` replaced by `a`; all others kept.
pub open spec fn set_entry(s: Seq<(String, Account)>, k: Seq<char>, a: Account) -> Seq<
    (String, Account),
> {
    s.map_values(|e: (String, Account)| if e.0@ == k { (e.0, a) } else { e })
}

pub proof fn lemma_set_entry_update(s: Seq<(String, Account)>, i: int, a: Account)
    requires
        unique_ids(s),
        0 <= i < s.len(),
    ensures
        set_entry(s, s[i].0@, a) == s.update(i, (s[i].0, a)),
{
    assert(set_entry(s, s[i].0@, a) =~= s.update(i, (s[i].0, a)));
}

} // verus!
