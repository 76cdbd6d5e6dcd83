//! Daily node rewards: the pool and how it is split among nodes so that
//! exactly the pool is handed out.
use vstd::prelude::*;
use crate::constants::RLY_UNIT;

verus! {

/// The sum of a list of amounts.
pub open spec fn total(s: Seq<u64>) -> int
    decreases s.len(),
{
    if s.len() == 0 {
        0
    } else {
        total(s.drop_last()) + s.last()
    }
}

/// Calculates node rewards from the daily pool.
pub struct RewardCalculator {
    daily_pool: u64,
}

impl RewardCalculator {
    /// The pool handed out each day.
    pub closed spec fn pool(&self) -> u64 {
        self.daily_pool
    }

    /// A calculator over the daily reward emission of the RLY configuration.
    pub fn new() -> (c: Self)
        ensures
            c.pool() == 187_500 * RLY_UNIT,
    {
        RewardCalculator { daily_pool: crate::token::relyo_config().daily_reward_emission }
    }

    /// A calculator over the given daily pool.
    pub fn with_pool(daily_pool: u64) -> (c: Self)
        ensures
            c.pool() == daily_pool,
    {
        RewardCalculator { daily_pool }
    }

    /// The daily pool.
    pub fn daily_pool(&self) -> (p: u64)
        ensures
            p == self.pool(),
    {
        self.daily_pool
    }

    /// Split the pool among nodes in order: every node but the last receives its
    /// proposed share, and the last receives what remains, so that exactly the
    /// pool is handed out (nothing when there are no nodes).
    pub fn split_pool(&self, shares: &[u64]) -> (rewards: Vec<u64>)
        requires
            shares@.len() > 0 ==> total(shares@.drop_last()) <= self.pool(),
        ensures
            rewards@.len() == shares@.len(),
            forall|i: int| 0 <= i < shares@.len() - 1 ==> #[trigger] rewards@[i] == shares@[i],
            shares@.len() > 0 ==> total(rewards@) == self.pool(),
    {
        let mut rewards: Vec<u64> = Vec::new();
        let n = shares.len();
        if n == 0 {
            return rewards;
        }
        let mut distributed: u64 = 0;
        let mut i: usize = 0;
        while i + 1 < n
            invariant
                n == shares@.len(),
                n > 0,
                i < n,
                total(shares@.drop_last()) <= self.pool(),
                rewards@ == shares@.take(i as int),
                distributed == total(shares@.take(i as int)),
            decreases n - i,
        {
            proof {
                assert(shares@.take(i as int + 1).drop_last() =~= shares@.take(i as int));
                lemma_total_prefix(shares@.drop_last(), i as int + 1);
                assert(shares@.drop_last().take(i as int + 1) =~= shares@.take(i as int + 1));
            }
            rewards.push(shares[i]);
            distributed = distributed + shares[i];
            i = i + 1;
            proof {
                assert(rewards@ =~= shares@.take(i as int));
            }
        }
        proof {
            assert(shares@.take(i as int) =~= shares@.drop_last());
        }
        rewards.push(self.daily_pool - distributed);
        proof {
            assert(rewards@.drop_last() =~= shares@.drop_last());
        }
        rewards
    }
}

/// A prefix of a list of amounts sums to no more than the whole list.
proof fn lemma_total_prefix(s: Seq<u64>, n: int)
    requires
        0 <= n <= s.len(),
    ensures
        total(s.take(n)) <= total(s),
    decreases s.len() - n,
{
    if n < s.len() {
        lemma_total_prefix(s, n + 1);
        assert(s.take(n + 1).drop_last() =~= s.take(n));
    } else {
        assert(s.take(n) =~= s);
    }
}

impl Default for RewardCalculator {
    fn default() -> (c: Self)
        ensures
            c.pool() == 187_500 * RLY_UNIT,
    {
        Self::new()
    }
}

} // verus!
