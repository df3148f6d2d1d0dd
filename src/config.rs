use vstd::prelude::*;

verus! {

/// Reward rate: `reward_numerator / reward_denumerator` per staked unit per block.
#[derive(Clone, Copy, Debug, PartialEq, Eq, Structural)]
pub struct ConfigForReward {
    pub reward_numerator: u32,
    pub reward_denumerator: u64,
}

pub const DEFAULT_REWARD_NUMERATOR: u32 = 715;

pub const DEFAULT_REWARD_DENUMERATOR: u64 = 100000000000;

impl ConfigForReward {
    /// A usable rate has a non-zero denominator.
    pub open spec fn wf(&self) -> bool {
        self.reward_denumerator > 0
    }
}

impl Default for ConfigForReward {
    /// 715 / 100000000000 per staked unit per block.
    fn default() -> (r: Self)
        ensures
            r.reward_numerator == DEFAULT_REWARD_NUMERATOR,
            r.reward_denumerator == DEFAULT_REWARD_DENUMERATOR,
    {
        ConfigForReward {
            reward_numerator: DEFAULT_REWARD_NUMERATOR,
            reward_denumerator: DEFAULT_REWARD_DENUMERATOR,
        }
    }
}

/// Reward of `balance` over `elapsed` blocks, rounded down.
pub open spec fn reward_spec(balance: int, numerator: int, denominator: int, elapsed: int) -> int {
    balance * numerator * elapsed / denominator
}

/// The result of `accrued_reward`: `None` when the clock runs backwards or the
/// product does not fit in `u128`.
pub open spec fn accrued_spec(
    balance: u128,
    config: ConfigForReward,
    checkpoint: u64,
    now: u64,
) -> Option<u128> {
    if now < checkpoint {
        None
    } else if balance * config.reward_numerator * (now - checkpoint) > u128::MAX {
        None
    } else {
        Some(
            reward_spec(
                balance as int,
                config.reward_numerator as int,
                config.reward_denumerator as int,
                (now - checkpoint) as int,
            ) as u128,
        )
    }
}

/// Reward that `balance` earned between `checkpoint` and `now`, rounded down.
pub fn accrued_reward(balance: u128, config: &ConfigForReward, checkpoint: u64, now: u64) -> (r:
    Option<u128>)
    requires
        config.wf(),
    ensures
        r == accrued_spec(balance, *config, checkpoint, now),
{
    if now < checkpoint {
        return None;
    }
    let elapsed: u64 = now - checkpoint;
    if elapsed == 0 {
        assert(balance * config.reward_numerator * 0 == 0) by (nonlinear_arith);
        assert(reward_spec(balance as int, config.reward_numerator as int, config.reward_denumerator as int, 0) == 0) by (nonlinear_arith)
            requires
                config.reward_denumerator > 0,
        ;
        return Some(0);
    }
    match balance.checked_mul(config.reward_numerator as u128) {
        None => {
            proof {
                let b = balance as int;
                let n = config.reward_numerator as int;
                let e = elapsed as int;
                assert(b * n * e >= b * n) by (nonlinear_arith)
                    requires
                        e >= 1,
                        b >= 0,
                        n >= 0,
                ;
            }
            None
        },
        Some(p) => {
            match p.checked_mul(elapsed as u128) {
                None => None,
                Some(q) => {
                    let r: u128 = q / (config.reward_denumerator as u128);
                    Some(r)
                },
            }
        },
    }
}

} // verus!
