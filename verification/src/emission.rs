//! The UTXO-model emission schedule: a per-epoch reward that decays by a fixed
//! number of basis points each epoch, computed in integer arithmetic.
use vstd::prelude::*;
use crate::constants::{DECAY_FACTOR_BPS, EPOCH_DEPTH, TOTAL_SUPPLY};

verus! {

/// The epoch-0 reward of the canonical schedule: `TOTAL_SUPPLY × (1 − 0.999)`
/// as the floating-point derivation of the schedule evaluates it.
pub const INITIAL_EPOCH_REWARD: u64 = 2_500_000_000_000_002;

/// The reward of epoch `n` before it is cut to 64 bits: the epoch-0 reward,
/// multiplied by `decay_bps / 10000` once per epoch and rounded down each time.
pub open spec fn decay_curve(initial: u64, decay_bps: u64, n: nat) -> int
    decreases n,
{
    if n == 0 {
        initial as int
    } else {
        decay_curve(initial, decay_bps, (n - 1) as nat) * decay_bps / 10_000
    }
}

/// The sum of the 64-bit rewards of epochs `0 .. n`.
pub open spec fn emitted_sum(initial: u64, decay_bps: u64, n: nat) -> int
    decreases n,
{
    if n == 0 {
        0
    } else {
        emitted_sum(initial, decay_bps, (n - 1) as nat) + (decay_curve(
            initial,
            decay_bps,
            (n - 1) as nat,
        ) as u64) as int
    }
}

/// The smaller of two integers.
pub open spec fn min_int(a: int, b: int) -> int {
    if a <= b {
        a
    } else {
        b
    }
}

/// The emission schedule: how many coins are minted per epoch.
#[derive(Debug, Clone)]
pub struct EmissionSchedule {
    /// Total supply cap in base units.
    pub total_supply: u64,
    /// Reward for epoch 0 in base units.
    pub initial_reward: u64,
    /// Decay factor per epoch in basis points (9990 = ×0.999).
    pub decay_factor_bps: u64,
    /// Number of DAG-depth levels per epoch.
    pub epoch_depth: u64,
}

impl EmissionSchedule {
    /// The reward of epoch `n`, before the cut to 64 bits.
    pub open spec fn curve(&self, n: nat) -> int {
        decay_curve(self.initial_reward, self.decay_factor_bps, n)
    }

    /// Every step of the 128-bit computation of the rewards of epochs `0 ..= epoch`
    /// fits in 128 bits.
    pub open spec fn fits_through(&self, epoch: nat) -> bool {
        forall|k: nat|
            k < epoch ==> #[trigger] self.curve(k) * self.decay_factor_bps <= u128::MAX
    }

    /// The canonical Relyo emission schedule.
    pub fn new() -> (s: Self)
        ensures
            s.total_supply == TOTAL_SUPPLY,
            s.initial_reward == INITIAL_EPOCH_REWARD,
            s.decay_factor_bps == DECAY_FACTOR_BPS,
            s.epoch_depth == EPOCH_DEPTH,
    {
        EmissionSchedule {
            total_supply: TOTAL_SUPPLY,
            initial_reward: INITIAL_EPOCH_REWARD,
            decay_factor_bps: DECAY_FACTOR_BPS,
            epoch_depth: EPOCH_DEPTH,
        }
    }

    /// Reward for a given epoch (0-indexed).
    pub fn reward_at_epoch(&self, epoch: u64) -> (r: u64)
        requires
            self.fits_through(epoch as nat),
        ensures
            r == self.curve(epoch as nat) as u64,
    {
        if epoch == 0 {
            return self.initial_reward;
        }
        let mut reward: u128 = self.initial_reward as u128;
        let mut i: u64 = 0;
        while i < epoch
            invariant
                i <= epoch,
                self.fits_through(epoch as nat),
                reward == self.curve(i as nat),
            decreases epoch - i,
        {
            assert(self.curve(i as nat) * self.decay_factor_bps <= u128::MAX);
            reward = reward * (self.decay_factor_bps as u128) / 10_000;
            i = i + 1;
            if reward == 0 {
                proof {
                    lemma_curve_stays_zero(self.initial_reward, self.decay_factor_bps, i as nat, epoch as nat);
                }
                return 0;
            }
        }
        reward as u64
    }

    /// Cumulative emission from epoch 0 through `epoch` (inclusive), capped at the supply.
    pub fn total_emitted_through_epoch(&self, epoch: u64) -> (t: u64)
        requires
            self.fits_through(epoch as nat),
        ensures
            t == min_int(
                min_int(
                    emitted_sum(self.initial_reward, self.decay_factor_bps, epoch as nat + 1),
                    u64::MAX as int,
                ),
                self.total_supply as int,
            ),
    {
        let mut total: u64 = 0;
        let mut reward: u128 = self.initial_reward as u128;
        let mut e: u64 = 0;
        loop
            invariant_except_break
                total == min_int(
                    emitted_sum(self.initial_reward, self.decay_factor_bps, e as nat),
                    u64::MAX as int,
                ),
            invariant
                e <= epoch,
                self.fits_through(epoch as nat),
                reward == self.curve(e as nat),
            ensures
                total == min_int(
                    emitted_sum(self.initial_reward, self.decay_factor_bps, epoch as nat + 1),
                    u64::MAX as int,
                ),
            decreases epoch - e,
        {
            proof {
                lemma_emitted_sum_nonneg(self.initial_reward, self.decay_factor_bps, e as nat);
            }
            let r64 = reward as u64;
            total = match total.checked_add(r64) {
                Some(v) => v,
                None => u64::MAX,
            };
            assert(total == min_int(
                emitted_sum(self.initial_reward, self.decay_factor_bps, e as nat + 1),
                u64::MAX as int,
            ));
            if e == epoch {
                break;
            }
            assert(self.curve(e as nat) * self.decay_factor_bps <= u128::MAX);
            reward = reward * (self.decay_factor_bps as u128) / 10_000;
            e = e + 1;
        }
        if total < self.total_supply {
            total
        } else {
            self.total_supply
        }
    }

    /// Whether every step of the 128-bit computation of the rewards of epochs
    /// `0 ..= epoch` fits in 128 bits.
    pub fn schedule_fits(&self, epoch: u64) -> (b: bool)
        ensures
            b == self.fits_through(epoch as nat),
    {
        let mut reward: u128 = self.initial_reward as u128;
        let mut i: u64 = 0;
        while i < epoch
            invariant
                i <= epoch,
                reward == self.curve(i as nat),
                forall|k: nat| k < i ==> #[trigger] self.curve(k) * self.decay_factor_bps <= u128::MAX,
            decreases epoch - i,
        {
            match reward.checked_mul(self.decay_factor_bps as u128) {
                None => {
                    assert(!(self.curve(i as nat) * self.decay_factor_bps <= u128::MAX));
                    return false;
                },
                Some(p) => {
                    reward = p / 10_000;
                },
            }
            i = i + 1;
            if reward == 0 {
                proof {
                    assert forall|k: nat| k < epoch implies #[trigger] self.curve(k) * self.decay_factor_bps
                        <= u128::MAX by {
                        if k >= i {
                            lemma_curve_stays_zero(self.initial_reward, self.decay_factor_bps, i as nat, k);
                        }
                    }
                }
                return true;
            }
        }
        true
    }

    /// The reward of an epoch, or `None` where its computation would overflow
    /// 128 bits (see `reward_at_epoch`).
    pub fn checked_reward_at_epoch(&self, epoch: u64) -> (r: Option<u64>)
        ensures
            r is Some <==> self.fits_through(epoch as nat),
            r matches Some(v) ==> v == self.curve(epoch as nat) as u64,
    {
        if self.schedule_fits(epoch) {
            Some(self.reward_at_epoch(epoch))
        } else {
            None
        }
    }

    /// The capped total emitted through an epoch, or `None` where the computation
    /// would overflow 128 bits (see `total_emitted_through_epoch`).
    pub fn checked_total_emitted_through_epoch(&self, epoch: u64) -> (t: Option<u64>)
        ensures
            t is Some <==> self.fits_through(epoch as nat),
            t matches Some(v) ==> v == min_int(
                min_int(
                    emitted_sum(self.initial_reward, self.decay_factor_bps, epoch as nat + 1),
                    u64::MAX as int,
                ),
                self.total_supply as int,
            ),
    {
        if self.schedule_fits(epoch) {
            Some(self.total_emitted_through_epoch(epoch))
        } else {
            None
        }
    }

    /// The epoch a DAG depth falls in.
    pub fn epoch_at_depth(&self, depth: u64) -> (e: u64)
        requires
            self.epoch_depth > 0,
        ensures
            e == depth / self.epoch_depth,
    {
        depth / self.epoch_depth
    }

    /// Reward for the epoch containing a given DAG depth.
    pub fn reward_at_depth(&self, depth: u64) -> (r: u64)
        requires
            self.epoch_depth > 0,
            self.fits_through((depth / self.epoch_depth) as nat),
        ensures
            r == self.curve((depth / self.epoch_depth) as nat) as u64,
    {
        self.reward_at_epoch(self.epoch_at_depth(depth))
    }
}

impl Default for EmissionSchedule {
    fn default() -> (s: Self)
        ensures
            s.total_supply == TOTAL_SUPPLY,
            s.initial_reward == INITIAL_EPOCH_REWARD,
            s.decay_factor_bps == DECAY_FACTOR_BPS,
            s.epoch_depth == EPOCH_DEPTH,
    {
        Self::new()
    }
}

/// Once the reward reaches zero it stays zero.
proof fn lemma_curve_stays_zero(initial: u64, decay_bps: u64, i: nat, j: nat)
    requires
        i <= j,
        decay_curve(initial, decay_bps, i) == 0,
    ensures
        decay_curve(initial, decay_bps, j) == 0,
    decreases j - i,
{
    if i < j {
        lemma_curve_stays_zero(initial, decay_bps, i, (j - 1) as nat);
    }
}

proof fn lemma_emitted_sum_nonneg(initial: u64, decay_bps: u64, n: nat)
    ensures
        emitted_sum(initial, decay_bps, n) >= 0,
    decreases n,
{
    if n > 0 {
        lemma_emitted_sum_nonneg(initial, decay_bps, (n - 1) as nat);
    }
}

/// With a decay of at most 100%, the reward never grows from one epoch to the
/// next and never exceeds the epoch-0 reward.
pub proof fn law_reward_non_increasing(s: EmissionSchedule, n: nat)
    requires
        s.decay_factor_bps <= 10_000,
    ensures
        0 <= s.curve(n + 1) <= s.curve(n) <= s.initial_reward,
    decreases n,
{
    if n > 0 {
        law_reward_non_increasing(s, (n - 1) as nat);
    }
    let x = s.curve(n);
    let d = s.decay_factor_bps as int;
    assert(0 <= x * d / 10_000 <= x) by (nonlinear_arith)
        requires
            0 <= x,
            0 <= d <= 10_000,
    ;
}

/// With a decay strictly below 100%, a positive reward strictly shrinks each epoch.
pub proof fn law_reward_strictly_decreasing(s: EmissionSchedule, n: nat)
    requires
        s.decay_factor_bps < 10_000,
        s.curve(n) > 0,
    ensures
        s.curve(n + 1) < s.curve(n),
{
    let x = s.curve(n);
    let d = s.decay_factor_bps as int;
    assert(x * d / 10_000 < x) by (nonlinear_arith)
        requires
            0 < x,
            0 <= d < 10_000,
    ;
}

/// With a decay of at most 100% the 128-bit computation never overflows, so
/// every epoch's reward can be asked for.
pub proof fn law_schedule_fits(s: EmissionSchedule, epoch: nat)
    requires
        s.decay_factor_bps <= 10_000,
    ensures
        s.fits_through(epoch),
{
    assert forall|k: nat| k < epoch implies #[trigger] s.curve(k) * s.decay_factor_bps
        <= u128::MAX by {
        law_reward_non_increasing(s, k);
        let x = s.curve(k);
        let d = s.decay_factor_bps as int;
        assert(x * d <= u64::MAX * 10_000) by (nonlinear_arith)
            requires
                0 <= x <= u64::MAX,
                0 <= d <= 10_000,
        ;
    }
}

/// The capped cumulative emission never exceeds the schedule's supply.
pub proof fn law_emission_within_supply(s: EmissionSchedule, epoch: nat)
    ensures
        min_int(
            min_int(emitted_sum(s.initial_reward, s.decay_factor_bps, epoch + 1), u64::MAX as int),
            s.total_supply as int,
        ) <= s.total_supply,
{
}

} // verus!
