//! DAG tips: transactions no newer transaction references yet, with weights for
//! weighted random selection and insertion times for pruning.
use vstd::prelude::*;
use rand::Rng;
use dashmap::DashMap;
use std::collections::hash_map::RandomState;
use crate::dag_tables::{
    hash_numbers, hash_numbers_get, hash_numbers_insert, hash_numbers_keys, hash_numbers_new,
    hash_numbers_remove, lists_keys,
};
use crate::keyorder::lemma_push_to_set;
use crate::primitives::now_ms;
use crate::transaction::TransactionHash;

verus! {

/// How many times a weighted pick is drawn before falling back to the first eligible tip.
pub const PICK_ATTEMPTS: u64 = 100;

/// `rand::thread_rng().gen_range(0..n)`: an index below `n`, drawn at random.
#[verifier::external_body]
fn random_below(n: usize) -> (r: usize)
    requires
        n > 0,
    ensures
        r < n,
{
    rand::thread_rng().gen_range(0..n)
}

/// `rand::thread_rng().gen_range(0..n)` on 64-bit numbers.
#[verifier::external_body]
fn random_below_u64(n: u64) -> (r: u64)
    requires
        n > 0,
    ensures
        r < n,
{
    rand::thread_rng().gen_range(0..n)
}

/// The views of a list of hashes.
pub open spec fn hash_views(v: Seq<TransactionHash>) -> Seq<Seq<u8>> {
    v.map_values(|h: TransactionHash| h@)
}

/// A list of hashes without `x`.
pub open spec fn without_hash(s: Seq<Seq<u8>>, x: Seq<u8>) -> Seq<Seq<u8>> {
    s.filter(|h: Seq<u8>| h != x)
}

/// The weight a tip is selected with: its recorded weight, or 1.
pub open spec fn tip_weight(weights: Map<Seq<u8>, u64>, h: Seq<u8>) -> u64 {
    if weights.contains_key(h) {
        weights[h]
    } else {
        1
    }
}

/// The total selection weight of the first `n` tips.
pub open spec fn weight_prefix(tips: Seq<Seq<u8>>, weights: Map<Seq<u8>, u64>, n: int) -> int
    decreases n,
{
    if n <= 0 {
        0
    } else {
        weight_prefix(tips, weights, n - 1) + tip_weight(weights, tips[n - 1])
    }
}

/// The running weights of a listing of (hash, weight) pairs.
pub open spec fn pair_prefix(ws: Seq<(TransactionHash, u64)>, n: int) -> int
    decreases n,
{
    if n <= 0 {
        0
    } else {
        pair_prefix(ws, n - 1) + ws[n - 1].1
    }
}

proof fn lemma_pair_prefix_mono(ws: Seq<(TransactionHash, u64)>, a: int, b: int)
    requires
        0 <= a <= b <= ws.len(),
    ensures
        0 <= pair_prefix(ws, a) <= pair_prefix(ws, b),
    decreases b - a,
{
    if a < b {
        lemma_pair_prefix_mono(ws, a, b - 1);
    } else {
        lemma_pair_prefix_nonneg(ws, a);
    }
}

proof fn lemma_pair_prefix_nonneg(ws: Seq<(TransactionHash, u64)>, a: int)
    requires
        0 <= a <= ws.len(),
    ensures
        pair_prefix(ws, a) >= 0,
    decreases a,
{
    if a > 0 {
        lemma_pair_prefix_nonneg(ws, a - 1);
    }
}

/// How long before `now` a tip added at `added` was added (ms), zero if `added`
/// is later.
pub open spec fn age_at(added: u64, now: u64) -> u64 {
    if now >= added {
        (now - added) as u64
    } else {
        0
    }
}

/// The recorded tips added more than `max_age_ms` before `now`.
pub open spec fn stale_at(added: Map<Seq<u8>, u64>, now: u64, max_age_ms: u64) -> Set<Seq<u8>> {
    Set::new(|h: Seq<u8>| added.contains_key(h) && age_at(added[h], now) > max_age_ms)
}

/// Whether `f` and `stale` are what pruning `t` at `now` gives: `stale` lists
/// each tip added more than `max_age_ms` before `now` once, and those are gone
/// from the tips, the weights and the times; nothing else changes.
pub open spec fn pruned(t: TipSelector, f: TipSelector, stale: Seq<Seq<u8>>, max_age_ms: u64, now: u64) -> bool {
    let gone = stale_at(t.added_map(), now, max_age_ms);
    &&& f.wf()
    &&& stale.no_duplicates()
    &&& stale.to_set() == gone
    &&& f.tip_set() == t.tip_set().difference(gone)
    &&& f.added_map() == t.added_map().remove_keys(gone)
    &&& f.weight_map() == t.weight_map().remove_keys(gone)
}

/// The current tips of the DAG.
pub struct TipSelector {
    tips: Vec<TransactionHash>,
    weights: DashMap<TransactionHash, u64, RandomState>,
    added_at: DashMap<TransactionHash, u64, RandomState>,
    clock: u64,
}

impl TipSelector {
    /// The tips, in the order they were added.
    pub closed spec fn tip_list(&self) -> Seq<Seq<u8>> {
        hash_views(self.tips@)
    }

    /// Recorded selection weights.
    pub closed spec fn weight_map(&self) -> Map<Seq<u8>, u64> {
        hash_numbers(self.weights)
    }

    /// When each tip was added (ms since the epoch).
    pub closed spec fn added_map(&self) -> Map<Seq<u8>, u64> {
        hash_numbers(self.added_at)
    }

    /// The latest clock reading the tips have used (ms since the UNIX epoch).
    pub closed spec fn clock_view(&self) -> u64 {
        self.clock
    }

    /// No tip is listed twice, and no tip was added after the latest clock reading.
    pub open spec fn wf(&self) -> bool {
        &&& self.tip_list().no_duplicates()
        &&& forall|h: Seq<u8>| #[trigger] self.added_map().contains_key(h) ==> self.added_map()[h] <= self.clock_view()
    }

    /// The clock's reading, never earlier than the latest reading used before:
    /// the system clock, or that latest reading if the system clock is behind it.
    fn reading(&self) -> (now: u64)
        ensures
            now >= self.clock_view(),
    {
        let t = now_ms();
        if t >= self.clock {
            t
        } else {
            self.clock
        }
    }

    /// The tips as a set.
    pub open spec fn tip_set(&self) -> Set<Seq<u8>> {
        self.tip_list().to_set()
    }

    /// No tips.
    pub fn new() -> (t: Self)
        ensures
            t.wf(),
            t.tip_list().len() == 0,
            t.weight_map().dom().len() == 0 && t.weight_map().dom().finite(),
            t.added_map().dom().len() == 0 && t.added_map().dom().finite(),
            t.clock_view() == 0,
    {
        let t = TipSelector { tips: Vec::new(), weights: hash_numbers_new(), added_at: hash_numbers_new(), clock: 0 };
        assert(t.tip_list() =~= Seq::<Seq<u8>>::empty());
        t
    }

    fn position(&self, hash: &TransactionHash) -> (r: Option<usize>)
        ensures
            r is None <==> !self.tip_list().contains(hash@),
            r matches Some(i) ==> i < self.tip_list().len() && self.tip_list()[i as int] == hash@,
    {
        let mut i: usize = 0;
        while i < self.tips.len()
            invariant
                i <= self.tips@.len(),
                forall|j: int| 0 <= j < i ==> self.tip_list()[j] != hash@,
            decreases self.tips@.len() - i,
        {
            if self.tips[i].same(hash) {
                proof {
                    assert(self.tip_list()[i as int] == hash@);
                    assert(self.tip_list().contains(hash@));
                }
                return Some(i);
            }
            i = i + 1;
        }
        None
    }

    fn insert_tip(&mut self, hash: TransactionHash)
        requires
            old(self).wf(),
        ensures
            final(self).wf(),
            final(self).tip_set() == old(self).tip_set().insert(hash@),
            old(self).tip_list().contains(hash@) ==> final(self).tip_list() == old(self).tip_list(),
            !old(self).tip_list().contains(hash@) ==> final(self).tip_list() == old(self).tip_list().push(hash@),
            final(self).weight_map() == old(self).weight_map(),
            final(self).added_map() == old(self).added_map(),
            final(self).clock_view() == old(self).clock_view(),
    {
        if self.position(&hash).is_none() {
            self.tips.push(hash);
            proof {
                let old_list = old(self).tip_list();
                assert(self.tip_list() =~= old_list.push(hash@));
                assert(self.tip_list().no_duplicates()) by {
                    assert forall|i: int, j: int|
                        0 <= i < self.tip_list().len() && 0 <= j < self.tip_list().len() && i != j implies self.tip_list()[i]
                        != self.tip_list()[j] by {
                        if i == old_list.len() as int {
                            assert(!old_list.contains(hash@));
                            assert(old_list[j] == self.tip_list()[j]);
                        } else if j == old_list.len() as int {
                            assert(old_list[i] == self.tip_list()[i]);
                        }
                    }
                }
                lemma_push_to_set(old_list, hash@);
            }
        } else {
            proof {
                assert(self.tip_set() =~= old(self).tip_set().insert(hash@));
            }
        }
        proof {
            assert forall|h: Seq<u8>| #[trigger] self.added_map().contains_key(h) implies self.added_map()[h]
                <= self.clock_view() by {
                assert(old(self).added_map().contains_key(h));
            }
        }
    }

    /// Add a tip with weight 1, stamped with the current time.
    pub fn add(&mut self, hash: TransactionHash)
        requires
            old(self).wf(),
        ensures
            final(self).wf(),
            final(self).tip_set() == old(self).tip_set().insert(hash@),
            !old(self).tip_list().contains(hash@) ==> final(self).tip_list() == old(self).tip_list().push(hash@),
            old(self).tip_list().contains(hash@) ==> final(self).tip_list() == old(self).tip_list(),
            final(self).weight_map() == old(self).weight_map().insert(hash@, 1),
            final(self).added_map() == old(self).added_map().insert(hash@, final(self).clock_view()),
            final(self).clock_view() >= old(self).clock_view(),
    {
        self.add_weighted(hash, 1);
    }

    /// Add a tip with a weight, stamped with the current time.
    pub fn add_weighted(&mut self, hash: TransactionHash, weight: u64)
        requires
            old(self).wf(),
        ensures
            final(self).wf(),
            final(self).tip_set() == old(self).tip_set().insert(hash@),
            !old(self).tip_list().contains(hash@) ==> final(self).tip_list() == old(self).tip_list().push(hash@),
            old(self).tip_list().contains(hash@) ==> final(self).tip_list() == old(self).tip_list(),
            final(self).weight_map() == old(self).weight_map().insert(hash@, weight),
            final(self).added_map() == old(self).added_map().insert(hash@, final(self).clock_view()),
            final(self).clock_view() >= old(self).clock_view(),
    {
        let now = self.reading();
        self.insert_tip(hash);
        hash_numbers_insert(&mut self.weights, hash, weight);
        hash_numbers_insert(&mut self.added_at, hash, now);
        self.clock = now;
    }

    /// Remove a tip together with its weight and time.
    pub fn remove(&mut self, hash: &TransactionHash)
        requires
            old(self).wf(),
        ensures
            final(self).wf(),
            final(self).tip_set() == old(self).tip_set().remove(hash@),
            final(self).tip_list() == without_hash(old(self).tip_list(), hash@),
            final(self).weight_map() == old(self).weight_map().remove(hash@),
            final(self).added_map() == old(self).added_map().remove(hash@),
            final(self).clock_view() == old(self).clock_view(),
    {
        match self.position(hash) {
            None => {
                proof {
                    lemma_filter_absent(old(self).tip_list(), hash@);
                    assert(self.tip_set() =~= old(self).tip_set().remove(hash@));
                }
            },
            Some(i) => {
                let ghost old_list = self.tip_list();
                self.tips.remove(i);
                proof {
                    assert(self.tip_list() =~= old_list.remove(i as int));
                    lemma_filter_remove_unique(old_list, i as int, hash@);
                    assert(self.tip_list().no_duplicates()) by {
                        assert forall|a: int, b: int|
                            0 <= a < self.tip_list().len() && 0 <= b < self.tip_list().len() && a != b implies self.tip_list()[a]
                            != self.tip_list()[b] by {
                            let oa = if a < i { a } else { a + 1 };
                            let ob = if b < i { b } else { b + 1 };
                            assert(self.tip_list()[a] == old_list[oa]);
                            assert(self.tip_list()[b] == old_list[ob]);
                        }
                    }
                    assert forall|h: Seq<u8>| self.tip_set().contains(h) <==> old(self).tip_set().remove(hash@).contains(h) by {
                        if self.tip_list().contains(h) {
                            let a = choose|a: int| 0 <= a < self.tip_list().len() && self.tip_list()[a] == h;
                            let oa = if a < i { a } else { a + 1 };
                            assert(old_list[oa] == h);
                            assert(oa != i as int);
                        }
                        if old_list.contains(h) && h != hash@ {
                            let oa = choose|oa: int| 0 <= oa < old_list.len() && old_list[oa] == h;
                            assert(oa != i as int);
                            let a = if oa < i { oa } else { oa - 1 };
                            assert(self.tip_list()[a] == h);
                        }
                    }
                    assert(self.tip_set() =~= old(self).tip_set().remove(hash@));
                }
            },
        }
        hash_numbers_remove(&mut self.weights, hash);
        hash_numbers_remove(&mut self.added_at, hash);
        proof {
            assert forall|h: Seq<u8>| #[trigger] self.added_map().contains_key(h) implies self.added_map()[h]
                <= self.clock_view() by {
                assert(old(self).added_map().contains_key(h));
            }
        }
    }

    /// Change the weight of a tip that has one.
    pub fn update_weight(&mut self, hash: &TransactionHash, weight: u64)
        requires
            old(self).wf(),
        ensures
            final(self).wf(),
            final(self).tip_list() == old(self).tip_list(),
            old(self).weight_map().contains_key(hash@) ==> final(self).weight_map() == old(
                self,
            ).weight_map().insert(hash@, weight),
            !old(self).weight_map().contains_key(hash@) ==> final(self).weight_map() == old(self).weight_map(),
            final(self).added_map() == old(self).added_map(),
            final(self).clock_view() == old(self).clock_view(),
    {
        if hash_numbers_get(&self.weights, hash).is_some() {
            hash_numbers_insert(&mut self.weights, *hash, weight);
        }
        proof {
            assert forall|h: Seq<u8>| #[trigger] self.added_map().contains_key(h) implies self.added_map()[h]
                <= self.clock_view() by {
                assert(old(self).added_map().contains_key(h));
            }
        }
    }

    /// Two distinct tips drawn uniformly at random, or `None` with fewer than two tips.
    pub fn select_two(&self) -> (r: Option<(TransactionHash, TransactionHash)>)
        requires
            self.wf(),
        ensures
            r is None <==> self.tip_list().len() < 2,
            r matches Some((a, b)) ==> self.tip_set().contains(a@) && self.tip_set().contains(b@) && a@ != b@,
    {
        let n = self.tips.len();
        if n < 2 {
            return None;
        }
        let i = random_below(n);
        let mut j = random_below(n - 1);
        if j >= i {
            j = j + 1;
        }
        let a = self.tips[i];
        let b = self.tips[j];
        proof {
            assert(self.tip_list()[i as int] == a@);
            assert(self.tip_list()[j as int] == b@);
        }
        Some((a, b))
    }

    /// Two distinct tips drawn at random with probability proportional to their
    /// weights (a tip without a recorded weight weighs 1), or `None` with fewer than
    /// two tips. The first pick always has a positive weight when the total is positive.
    pub fn select_weighted(&self) -> (r: Option<(TransactionHash, TransactionHash)>)
        requires
            self.wf(),
            weight_prefix(self.tip_list(), self.weight_map(), self.tip_list().len() as int) <= u64::MAX,
        ensures
            r is None <==> self.tip_list().len() < 2,
            r matches Some((a, b)) ==> self.tip_set().contains(a@) && self.tip_set().contains(b@) && a@ != b@,
            weight_prefix(self.tip_list(), self.weight_map(), self.tip_list().len() as int) > 0 ==> (
            r matches Some((a, b)) ==> tip_weight(self.weight_map(), a@) > 0),
    {
        let n = self.tips.len();
        if n < 2 {
            return None;
        }
        let mut total: u64 = 0;
        let mut weights: Vec<(TransactionHash, u64)> = Vec::new();
        let mut i: usize = 0;
        while i < n
            invariant
                n == self.tips@.len(),
                i <= n,
                weights@.len() == i,
                weight_prefix(self.tip_list(), self.weight_map(), n as int) <= u64::MAX,
                total == weight_prefix(self.tip_list(), self.weight_map(), i as int),
                total == pair_prefix(weights@, i as int),
                forall|k: int| 0 <= k < i ==> #[trigger] weights@[k].0@ == self.tip_list()[k] && weights@[k].1
                    == tip_weight(self.weight_map(), self.tip_list()[k]),
            decreases n - i,
        {
            let h = self.tips[i];
            let w = match hash_numbers_get(&self.weights, &h) {
                Some(v) => v,
                None => 1,
            };
            proof {
                assert(self.tip_list()[i as int] == h@);
                lemma_weight_prefix_mono(self.tip_list(), self.weight_map(), i as int + 1, n as int);
            }
            total = total + w;
            let ghost old_weights = weights@;
            weights.push((h, w));
            proof {
                assert(weights@.drop_last() =~= old_weights);
                lemma_pair_prefix_prefix(weights@, i as int);
                assert forall|k: int| 0 <= k < i + 1 implies #[trigger] weights@[k].0@ == self.tip_list()[k]
                    && weights@[k].1 == tip_weight(self.weight_map(), self.tip_list()[k]) by {
                    if k < i {
                        assert(weights@[k] == old_weights[k]);
                    }
                }
            }
            i = i + 1;
        }
        if total == 0 {
            return self.select_two();
        }
        proof {
            assert forall|a: int, b: int| 0 <= a < b < weights@.len() implies weights@[a].0@ != weights@[b].0@ by {
                assert(weights@[a].0@ == self.tip_list()[a]);
                assert(weights@[b].0@ == self.tip_list()[b]);
            }
        }
        let first = pick_weighted(&weights, total, None);
        let second = pick_weighted(&weights, total, Some(first));
        proof {
            let fi = choose|k: int| 0 <= k < weights@.len() && weights@[k].0 == first;
            let si = choose|k: int| 0 <= k < weights@.len() && weights@[k].0 == second;
            assert(self.tip_list()[fi] == first@);
            assert(self.tip_list()[si] == second@);
        }
        Some((first, second))
    }

    /// How long ago a tip was added (ms), if it is recorded.
    pub fn tip_age(&self, hash: &TransactionHash) -> (r: Option<u64>)
        ensures
            r is Some <==> self.added_map().contains_key(hash@),
    {
        match hash_numbers_get(&self.added_at, hash) {
            None => None,
            Some(t) => {
                let now = self.reading();
                Some(if now >= t { now - t } else { 0 })
            },
        }
    }

    /// Remove every tip added more than `max_age_ms` before `now` (ms since the
    /// UNIX epoch), with its weight and time; return them, each once.
    pub fn prune_stale_at(&mut self, max_age_ms: u64, now: u64) -> (stale: Vec<TransactionHash>)
        requires
            old(self).wf(),
        ensures
            pruned(*old(self), *final(self), hash_views(stale@), max_age_ms, now),
            final(self).clock_view() == old(self).clock_view(),
    {
        let keys = hash_numbers_keys(&self.added_at);
        let ghost start = *self;
        let ghost kv = hash_views(keys@);
        let ghost target = stale_at(start.added_map(), now, max_age_ms);
        let mut stale: Vec<TransactionHash> = Vec::new();
        let mut i: usize = 0;
        while i < keys.len()
            invariant
                i <= keys@.len(),
                kv == hash_views(keys@),
                start.wf(),
                target == stale_at(start.added_map(), now, max_age_ms),
                self.wf(),
                self.clock_view() == start.clock_view(),
                lists_keys(kv, start.added_map()),
                hash_views(stale@).no_duplicates(),
                forall|h: Seq<u8>|
                    #[trigger] hash_views(stale@).contains(h) <==> target.contains(h) && exists|k: int|
                        0 <= k < i && kv[k] == h,
                self.tip_set() == start.tip_set().difference(hash_views(stale@).to_set()),
                self.added_map() == start.added_map().remove_keys(hash_views(stale@).to_set()),
                self.weight_map() == start.weight_map().remove_keys(hash_views(stale@).to_set()),
            decreases keys@.len() - i,
        {
            let h = keys[i];
            proof {
                assert(kv[i as int] == h@);
                assert(start.added_map().contains_key(h@));
                assert(!hash_views(stale@).contains(h@)) by {
                    if hash_views(stale@).contains(h@) {
                        let k = choose|k: int| 0 <= k < i && kv[k] == h@;
                        assert(kv[k] != kv[i as int]);
                    }
                }
                assert(self.added_map().contains_key(h@));
                assert(self.added_map()[h@] == start.added_map()[h@]);
            }
            match hash_numbers_get(&self.added_at, &h) {
                Some(t) => {
                    let age = if now >= t { now - t } else { 0 };
                    if age > max_age_ms {
                        let ghost before_stale = hash_views(stale@);
                        proof {
                            assert(target.contains(h@));
                        }
                        self.remove(&h);
                        stale.push(h);
                        proof {
                            assert(hash_views(stale@) =~= before_stale.push(h@));
                            lemma_push_to_set(before_stale, h@);
                            let sv = hash_views(stale@);
                            assert(sv.no_duplicates()) by {
                                assert forall|x: int, y: int| 0 <= x < y < sv.len() implies sv[x] != sv[y] by {
                                    if y == sv.len() - 1 {
                                        assert(before_stale.contains(sv[x]));
                                    } else {
                                        assert(sv[x] == before_stale[x] && sv[y] == before_stale[y]);
                                    }
                                }
                            }
                            assert forall|g: Seq<u8>|
                                #[trigger] sv.contains(g) <==> target.contains(g) && exists|k: int|
                                    0 <= k < i + 1 && kv[k] == g by {
                                if sv.contains(g) && g != h@ {
                                    let x = choose|x: int| 0 <= x < sv.len() && sv[x] == g;
                                    assert(before_stale[x] == g);
                                    assert(before_stale.contains(g));
                                }
                                if g == h@ {
                                    assert(sv[sv.len() - 1] == g);
                                    assert(kv[i as int] == g);
                                }
                                if target.contains(g) && (exists|k: int| 0 <= k < i + 1 && kv[k] == g) && g != h@ {
                                    let k = choose|k: int| 0 <= k < i + 1 && kv[k] == g;
                                    assert(k != i);
                                    assert(before_stale.contains(g));
                                    let x = choose|x: int| 0 <= x < before_stale.len() && before_stale[x] == g;
                                    assert(sv[x] == g);
                                }
                            }
                            assert(self.tip_set() =~= start.tip_set().difference(sv.to_set()));
                            assert(self.added_map() =~= start.added_map().remove_keys(sv.to_set()));
                            assert(self.weight_map() =~= start.weight_map().remove_keys(sv.to_set()));
                        }
                    } else {
                        proof {
                            assert(!target.contains(h@));
                            let sv = hash_views(stale@);
                            assert forall|g: Seq<u8>|
                                #[trigger] sv.contains(g) <==> target.contains(g) && exists|k: int|
                                    0 <= k < i + 1 && kv[k] == g by {
                                if target.contains(g) && (exists|k: int| 0 <= k < i + 1 && kv[k] == g) {
                                    let k = choose|k: int| 0 <= k < i + 1 && kv[k] == g;
                                    assert(k != i);
                                }
                            }
                        }
                    }
                },
                None => {},
            }
            i = i + 1;
        }
        proof {
            let sv = hash_views(stale@);
            assert forall|g: Seq<u8>| #[trigger] target.contains(g) implies sv.contains(g) by {
                assert(start.added_map().contains_key(g));
                let k = choose|k: int| 0 <= k < kv.len() && kv[k] == g;
            }
            assert(sv.to_set() =~= target);
        }
        stale
    }

    /// Remove every tip added more than `max_age_ms` ago (see `prune_stale_at`),
    /// measured at the clock's reading: never earlier than the reading any earlier
    /// call used, hence never earlier than when any tip was added.
    pub fn prune_stale(&mut self, max_age_ms: u64) -> (stale: Vec<TransactionHash>)
        requires
            old(self).wf(),
        ensures
            final(self).wf(),
            exists|now: u64|
                {
                    &&& #[trigger] pruned(*old(self), *final(self), hash_views(stale@), max_age_ms, now)
                    &&& now >= old(self).clock_view()
                    &&& forall|h: Seq<u8>|
                        #[trigger] old(self).added_map().contains_key(h) ==> old(self).added_map()[h] <= now
                    &&& final(self).clock_view() == now
                },
    {
        let now = self.reading();
        let stale = self.prune_stale_at(max_age_ms, now);
        let ghost mid = *self;
        self.clock = now;
        proof {
            assert forall|h: Seq<u8>| #[trigger] self.added_map().contains_key(h) implies self.added_map()[h]
                <= self.clock_view() by {
                assert(mid.added_map().contains_key(h));
                assert(old(self).added_map().contains_key(h));
            }
            assert(pruned(*old(self), *self, hash_views(stale@), max_age_ms, now));
        }
        stale
    }

    /// The number of tips.
    pub fn len(&self) -> (n: usize)
        ensures
            n == self.tip_list().len(),
    {
        self.tips.len()
    }

    /// Whether there are no tips.
    pub fn is_empty(&self) -> (b: bool)
        ensures
            b == (self.tip_list().len() == 0),
    {
        self.tips.len() == 0
    }

    /// All tips.
    pub fn all(&self) -> (v: Vec<TransactionHash>)
        ensures
            hash_views(v@) == self.tip_list(),
    {
        self.tips.clone()
    }
}

impl Default for TipSelector {
    fn default() -> (t: Self)
        ensures
            t.wf(),
            t.tip_list().len() == 0,
    {
        Self::new()
    }
}

/// The step of a weighted draw that takes the drawn value: the index where the
/// running total of the weights first exceeds `target`.
pub fn scan_weights(weights: &Vec<(TransactionHash, u64)>, target: u64) -> (k: usize)
    requires
        target < pair_prefix(weights@, weights@.len() as int),
        pair_prefix(weights@, weights@.len() as int) <= u64::MAX,
    ensures
        k < weights@.len(),
        pair_prefix(weights@, k as int) <= target < pair_prefix(weights@, k as int + 1),
        weights@[k as int].1 > 0,
{
    let mut cumulative: u64 = 0;
    let mut k: usize = 0;
    while k < weights.len()
        invariant
            k <= weights@.len(),
            target < pair_prefix(weights@, weights@.len() as int),
            pair_prefix(weights@, weights@.len() as int) <= u64::MAX,
            cumulative == pair_prefix(weights@, k as int),
            cumulative <= target,
        decreases weights@.len() - k,
    {
        proof {
            lemma_pair_prefix_mono(weights@, k + 1, weights@.len() as int);
        }
        let next = cumulative + weights[k].1;
        if next > target {
            return k;
        }
        cumulative = next;
        k = k + 1;
    }
    k
}

/// A tip drawn with probability proportional to its weight, other than `exclude`;
/// after `PICK_ATTEMPTS` draws that hit `exclude`, the first listed tip other than it.
pub fn pick_weighted(
    weights: &Vec<(TransactionHash, u64)>,
    total: u64,
    exclude: Option<TransactionHash>,
) -> (h: TransactionHash)
    requires
        weights@.len() >= 2,
        total > 0,
        total == pair_prefix(weights@, weights@.len() as int),
        forall|a: int, b: int| 0 <= a < b < weights@.len() ==> weights@[a].0@ != weights@[b].0@,
    ensures
        exists|k: int| 0 <= k < weights@.len() && weights@[k].0 == h && (exclude is None ==> weights@[k].1 > 0),
        exclude matches Some(e) ==> h@ != e@,
{
    let mut attempt: u64 = 0;
    while attempt < PICK_ATTEMPTS
        invariant
            weights@.len() >= 2,
            total > 0,
            total == pair_prefix(weights@, weights@.len() as int),
            exclude is None ==> attempt == 0,
        decreases PICK_ATTEMPTS - attempt,
    {
        let target = random_below_u64(total);
        let k = scan_weights(weights, target);
        let excluded = match exclude {
            Some(e) => e.same(&weights[k].0),
            None => false,
        };
        if !excluded {
            return weights[k].0;
        }
        attempt = attempt + 1;
    }
    let mut k: usize = 0;
    while k < weights.len()
        invariant
            k <= weights@.len(),
            weights@.len() >= 2,
            exclude is Some,
            forall|a: int, b: int| 0 <= a < b < weights@.len() ==> weights@[a].0@ != weights@[b].0@,
            forall|j: int| 0 <= j < k ==> weights@[j].0@ == exclude.unwrap()@,
        decreases weights@.len() - k,
    {
        let excluded = match exclude {
            Some(e) => e.same(&weights[k].0),
            None => false,
        };
        if !excluded {
            return weights[k].0;
        }
        k = k + 1;
    }
    proof {
        assert(weights@[0].0@ == weights@[1].0@);
    }
    weights[0].0
}

proof fn lemma_pair_prefix_prefix(ws: Seq<(TransactionHash, u64)>, n: int)
    requires
        0 <= n < ws.len(),
    ensures
        pair_prefix(ws, n) == pair_prefix(ws.drop_last(), n),
    decreases n,
{
    if n > 0 {
        lemma_pair_prefix_prefix(ws, n - 1);
    }
}

proof fn lemma_weight_prefix_mono(tips: Seq<Seq<u8>>, weights: Map<Seq<u8>, u64>, a: int, b: int)
    requires
        0 <= a <= b,
    ensures
        weight_prefix(tips, weights, a) <= weight_prefix(tips, weights, b),
    decreases b - a,
{
    if a < b {
        lemma_weight_prefix_mono(tips, weights, a, b - 1);
    }
}

proof fn lemma_filter_absent(s: Seq<Seq<u8>>, x: Seq<u8>)
    requires
        !s.contains(x),
    ensures
        without_hash(s, x) == s,
    decreases s.len(),
{
    reveal_with_fuel(Seq::filter, 1);
    if s.len() > 0 {
        assert(!s.drop_last().contains(x)) by {
            if s.drop_last().contains(x) {
                let i = choose|i: int| 0 <= i < s.drop_last().len() && s.drop_last()[i] == x;
                assert(s[i] == x);
            }
        }
        lemma_filter_absent(s.drop_last(), x);
        assert(s.last() != x) by {
            assert(s[s.len() - 1] == s.last());
        }
        assert(s.drop_last().push(s.last()) =~= s);
    }
}

proof fn lemma_filter_remove_unique(s: Seq<Seq<u8>>, i: int, x: Seq<u8>)
    requires
        0 <= i < s.len(),
        s.no_duplicates(),
        s[i] == x,
    ensures
        without_hash(s, x) == s.remove(i),
    decreases s.len(),
{
    reveal_with_fuel(Seq::filter, 1);
    if i == s.len() - 1 {
        assert(!s.drop_last().contains(x)) by {
            if s.drop_last().contains(x) {
                let j = choose|j: int| 0 <= j < s.drop_last().len() && s.drop_last()[j] == x;
                assert(s[j] == x);
            }
        }
        lemma_filter_absent(s.drop_last(), x);
        assert(without_hash(s, x) == without_hash(s.drop_last(), x));
        assert(s.remove(i) =~= s.drop_last());
    } else {
        let t = s.drop_last();
        assert(t[i] == x);
        assert(t.no_duplicates()) by {
            assert forall|a: int, b: int| 0 <= a < t.len() && 0 <= b < t.len() && a != b implies t[a] != t[b] by {
                assert(t[a] == s[a] && t[b] == s[b]);
            }
        }
        lemma_filter_remove_unique(t, i, x);
        assert(s.last() != x) by {
            assert(s[s.len() - 1] == s.last());
        }
        assert(without_hash(s, x) == without_hash(t, x).push(s.last()));
        assert(s.remove(i) =~= t.remove(i).push(s.last()));
    }
}

/// Removing a tip that was just added gives back the tips as they were, in
/// the same order, when it was not a tip before.
pub proof fn law_add_then_remove(a: TipSelector, b: TipSelector, c: TipSelector, h: Seq<u8>)
    requires
        !a.tip_list().contains(h),
        b.tip_list() == a.tip_list().push(h),
        c.tip_list() == without_hash(b.tip_list(), h),
    ensures
        c.tip_list() == a.tip_list(),
        c.tip_set() == a.tip_set(),
{
    lemma_without_absent(a.tip_list(), h);
    reveal(Seq::filter);
    assert(a.tip_list().push(h).drop_last() =~= a.tip_list());
}

/// Filtering out a hash a list does not hold leaves the list as it was.
proof fn lemma_without_absent(s: Seq<Seq<u8>>, h: Seq<u8>)
    requires
        !s.contains(h),
    ensures
        without_hash(s, h) == s,
    decreases s.len(),
{
    reveal(Seq::filter);
    if s.len() > 0 {
        assert(!s.drop_last().contains(h)) by {
            if s.drop_last().contains(h) {
                let i = choose|i: int| 0 <= i < s.drop_last().len() && s.drop_last()[i] == h;
                assert(s[i] == h);
            }
        }
        lemma_without_absent(s.drop_last(), h);
        assert(s.last() != h) by {
            assert(s[s.len() - 1] == s.last());
        }
        assert(s.drop_last().push(s.last()) =~= s);
    }
}

/// Pruning at a time no earlier than the latest clock reading the tips used
/// (as `prune_stale` does) settles each recorded tip by its true age: a tip
/// added at `a` is returned, and gone from the tips, the weights and the times,
/// exactly when `now - a > max_age_ms`; otherwise it stays, with its time.
pub proof fn law_prune_stale_fate(
    t: TipSelector,
    f: TipSelector,
    stale: Seq<Seq<u8>>,
    max_age_ms: u64,
    now: u64,
    h: Seq<u8>,
)
    requires
        t.wf(),
        now >= t.clock_view(),
        pruned(t, f, stale, max_age_ms, now),
        t.added_map().contains_key(h),
    ensures
        t.added_map()[h] <= now,
        stale.contains(h) <==> now - t.added_map()[h] > max_age_ms,
        stale.contains(h) ==> !f.tip_set().contains(h) && !f.added_map().contains_key(h)
            && !f.weight_map().contains_key(h),
        !stale.contains(h) ==> f.added_map().contains_key(h) && f.added_map()[h] == t.added_map()[h]
            && (t.tip_set().contains(h) ==> f.tip_set().contains(h)),
{
    let gone = stale_at(t.added_map(), now, max_age_ms);
    assert(stale.to_set().contains(h) <==> stale.contains(h));
    assert(gone.contains(h) <==> now - t.added_map()[h] > max_age_ms);
}

} // verus!
