//! A sliding-window rate limiter per address: at most `max_tps` submissions of
//! one address within any one second.
use vstd::prelude::*;
use dashmap::DashMap;
use std::collections::hash_map::RandomState;
use std::time::Instant;
use crate::address::Address;
use crate::tables::{
    empty_windows, window_table, window_table_get, window_table_insert, window_table_keys,
    window_table_new, window_table_remove,
};

verus! {

#[verifier::external_type_specification]
#[verifier::external_body]
pub struct ExInstant(Instant);

/// `Instant::now`: a reading of the monotonic clock. Nothing is promised of it.
#[verifier::external_body]
fn clock_now() -> Instant {
    Instant::now()
}

/// `Instant::elapsed`, in whole milliseconds: the time since `anchor` on the
/// monotonic clock. Nothing is promised of the value.
#[verifier::external_body]
fn millis_since(anchor: &Instant) -> u64 {
    anchor.elapsed().as_millis() as u64
}

/// Length of the sliding window in milliseconds.
pub const WINDOW_MS: u64 = 1000;

/// Whether a submission at `t` (ms) still lies in the window that ends at `now`.
pub open spec fn in_window(t: u64, now: u64) -> bool {
    now < t + WINDOW_MS
}

/// The submissions of a list that still lie in the window ending at `now`, in order.
pub open spec fn recent(s: Seq<u64>, now: u64) -> Seq<u64> {
    s.filter(|t: u64| in_window(t, now))
}

/// The submission times recorded for a key (none when it has no entry).
pub open spec fn window_of(m: Map<Seq<char>, Seq<u64>>, k: Seq<char>) -> Seq<u64> {
    if m.contains_key(k) {
        m[k]
    } else {
        Seq::empty()
    }
}

/// A table after cleanup at `now`: every list cut to its recent submissions, and
/// keys left with none dropped.
pub open spec fn cleaned(m: Map<Seq<char>, Seq<u64>>, now: u64) -> Map<Seq<char>, Seq<u64>> {
    Map::new(|k: Seq<char>| m.contains_key(k) && recent(m[k], now).len() > 0, |k: Seq<char>| recent(m[k], now))
}

/// A table with the keys of `done` cleaned and the others as they were.
pub open spec fn partly_cleaned(m: Map<Seq<char>, Seq<u64>>, done: Set<Seq<char>>, now: u64) -> Map<
    Seq<char>,
    Seq<u64>,
> {
    Map::new(
        |k: Seq<char>| m.contains_key(k) && (done.contains(k) ==> recent(m[k], now).len() > 0),
        |k: Seq<char>| if done.contains(k) { recent(m[k], now) } else { m[k] },
    )
}

/// Every submission time recorded in a table is at most `t`.
pub open spec fn recorded_by(m: Map<Seq<char>, Seq<u64>>, t: u64) -> bool {
    forall|k: Seq<char>, i: int| m.contains_key(k) && 0 <= i < m[k].len() ==> #[trigger] m[k][i] <= t
}

/// Simple sliding-window rate limiter per address.
pub struct RateLimiter {
    windows: DashMap<String, Vec<u64>, RandomState>,
    max_tps: u32,
    clock: Instant,
    latest: u64,
}

/// Filtering a prefix one more element extends the filtered prefix by that
/// element when it is recent.
proof fn lemma_recent_step(s: Seq<u64>, i: int, now: u64)
    requires
        0 <= i < s.len(),
    ensures
        recent(s.take(i + 1), now) == if in_window(s[i], now) {
            recent(s.take(i), now).push(s[i])
        } else {
            recent(s.take(i), now)
        },
{
    reveal(Seq::filter);
    assert(s.take(i + 1).drop_last() =~= s.take(i));
}

/// The recent part of a list holds nothing later than the list does.
proof fn lemma_recent_bounded(s: Seq<u64>, now: u64, t: u64)
    requires
        forall|i: int| 0 <= i < s.len() ==> s[i] <= t,
    ensures
        forall|i: int| 0 <= i < recent(s, now).len() ==> recent(s, now)[i] <= t,
{
    assert forall|i: int| 0 <= i < recent(s, now).len() implies recent(s, now)[i] <= t by {
        let r = recent(s, now);
        assert(r.contains(r[i]));
        s.lemma_filter_contains_rev(|x: u64| in_window(x, now), r[i]);
    }
}

/// The recent part of a list is no longer than the list.
proof fn lemma_recent_len(s: Seq<u64>, now: u64)
    ensures
        recent(s, now).len() <= s.len(),
{
    s.lemma_filter_len(|t: u64| in_window(t, now));
}

/// The recent part of the submission times recorded for `k`, read out of the table.
fn recent_window(windows: &DashMap<String, Vec<u64>, RandomState>, key: &str, now: u64) -> (kept: Vec<u64>)
    ensures
        kept@ == recent(window_of(window_table(*windows), key@), now),
{
    let times = match window_table_get(windows, key) {
        Some(v) => v,
        None => Vec::new(),
    };
    let mut kept: Vec<u64> = Vec::new();
    let mut i: usize = 0;
    while i < times.len()
        invariant
            i <= times@.len(),
            times@ == window_of(window_table(*windows), key@),
            kept@ == recent(times@.take(i as int), now),
        decreases times@.len() - i,
    {
        proof {
            lemma_recent_step(times@, i as int, now);
        }
        let t = times[i];
        if t >= now || now - t < WINDOW_MS {
            kept.push(t);
        }
        i = i + 1;
    }
    proof {
        assert(times@.take(times@.len() as int) =~= times@);
    }
    kept
}

impl RateLimiter {
    /// The recorded submission times (ms on the limiter's clock) by address text.
    pub closed spec fn windows_view(&self) -> Map<Seq<char>, Seq<u64>> {
        window_table(self.windows)
    }

    /// The most submissions an address may make within one window.
    pub closed spec fn limit(&self) -> u32 {
        self.max_tps
    }

    /// The latest time (ms on the limiter's clock) the limiter has used.
    pub closed spec fn latest_view(&self) -> u64 {
        self.latest
    }

    /// No address has more than the limit of submissions recorded, and none was
    /// recorded after the latest time used.
    pub open spec fn wf(&self) -> bool {
        &&& forall|k: Seq<char>| #[trigger] self.windows_view().contains_key(k) ==> self.windows_view()[k].len()
            <= self.limit()
        &&& recorded_by(self.windows_view(), self.latest_view())
    }

    /// Milliseconds on the limiter's monotonic clock since it was made.
    pub fn elapsed_ms(&self) -> u64 {
        millis_since(&self.clock)
    }

    /// The limiter's clock: milliseconds since it was made, never earlier than
    /// the latest time it has used (the monotonic clock does not go back).
    pub fn clock_reading(&self) -> (now: u64)
        ensures
            now >= self.latest_view(),
    {
        let t = self.elapsed_ms();
        if t >= self.latest {
            t
        } else {
            self.latest
        }
    }

    /// A limiter that allows `max_tps` submissions per second per address.
    pub fn new(max_tps: u32) -> (r: Self)
        ensures
            r.wf(),
            r.windows_view() == empty_windows(),
            r.limit() == max_tps,
            r.latest_view() == 0,
    {
        RateLimiter { windows: window_table_new(), max_tps, clock: clock_now(), latest: 0 }
    }

    /// Whether `addr` may submit at time `now` (ms on the limiter's clock). Its
    /// submissions that left the window are forgotten; it is allowed exactly when
    /// fewer than the limit remain, and then `now` is recorded.
    pub fn check_at(&mut self, addr: &Address, now: u64) -> (allowed: bool)
        requires
            old(self).wf(),
        ensures
            final(self).wf(),
            final(self).limit() == old(self).limit(),
            allowed == (recent(window_of(old(self).windows_view(), addr@), now).len() < old(self).limit()),
            final(self).windows_view() == old(self).windows_view().insert(
                addr@,
                if allowed {
                    recent(window_of(old(self).windows_view(), addr@), now).push(now)
                } else {
                    recent(window_of(old(self).windows_view(), addr@), now)
                },
            ),
            final(self).latest_view() == if now >= old(self).latest_view() {
                now
            } else {
                old(self).latest_view()
            },
    {
        let ghost m0 = self.windows_view();
        let ghost w = window_of(m0, addr@);
        let ghost l0 = self.latest;
        let mut kept = recent_window(&self.windows, addr.as_str(), now);
        let allowed = kept.len() < self.max_tps as usize;
        if allowed {
            kept.push(now);
        }
        proof {
            lemma_recent_len(w, now);
            assert forall|i: int| 0 <= i < w.len() implies w[i] <= l0 by {
                assert(m0.contains_key(addr@) ==> m0[addr@][i] <= l0);
            }
            lemma_recent_bounded(w, now, l0);
        }
        window_table_insert(&mut self.windows, String::from_str(addr.as_str()), kept);
        if now > self.latest {
            self.latest = now;
        }
        proof {
            let m = self.windows_view();
            assert forall|k: Seq<char>, i: int| m.contains_key(k) && 0 <= i < m[k].len() implies #[trigger] m[k][i]
                <= self.latest by {
                if k != addr@ {
                    assert(m0.contains_key(k) && m[k] == m0[k]);
                    assert(m0[k][i] <= l0);
                } else {
                    assert(m[k] == kept@);
                }
            }
        }
        allowed
    }

    /// Whether `addr` may submit now (see `check_at`), at the limiter's clock
    /// reading: never earlier than the time any earlier call used, hence never
    /// earlier than any submission it has recorded.
    pub fn check(&mut self, addr: &Address) -> (allowed: bool)
        requires
            old(self).wf(),
        ensures
            final(self).wf(),
            final(self).limit() == old(self).limit(),
            exists|now: u64|
                {
                    &&& allowed == (recent(window_of(old(self).windows_view(), addr@), now).len() < old(
                        self,
                    ).limit())
                    &&& #[trigger] final(self).windows_view() == old(self).windows_view().insert(
                        addr@,
                        if allowed {
                            recent(window_of(old(self).windows_view(), addr@), now).push(now)
                        } else {
                            recent(window_of(old(self).windows_view(), addr@), now)
                        },
                    )
                    &&& now >= old(self).latest_view()
                    &&& recorded_by(old(self).windows_view(), now)
                    &&& final(self).latest_view() == now
                },
    {
        let now = self.clock_reading();
        proof {
            let m = self.windows_view();
            assert forall|k: Seq<char>, i: int| m.contains_key(k) && 0 <= i < m[k].len() implies #[trigger] m[k][i]
                <= now by {
                assert(m[k][i] <= self.latest_view());
            }
        }
        let allowed = self.check_at(addr, now);
        proof {
            assert(recorded_by(old(self).windows_view(), now));
        }
        allowed
    }

    /// Forget every submission that left the window ending at `now` (ms on the
    /// limiter's clock), and drop addresses left with none.
    pub fn cleanup_at(&mut self, now: u64)
        requires
            old(self).wf(),
        ensures
            final(self).wf(),
            final(self).limit() == old(self).limit(),
            final(self).windows_view() == cleaned(old(self).windows_view(), now),
            final(self).latest_view() == if now >= old(self).latest_view() {
                now
            } else {
                old(self).latest_view()
            },
    {
        let ghost m0 = self.windows_view();
        let keys = window_table_keys(&self.windows);
        let ghost mut done: Set<Seq<char>> = Set::empty();
        let mut i: usize = 0;
        while i < keys.len()
            invariant
                i <= keys@.len(),
                self.limit() == old(self).limit(),
                self.latest_view() == old(self).latest_view(),
                m0 == old(self).windows_view(),
                forall|a: int| 0 <= a < keys@.len() ==> #[trigger] m0.contains_key(keys@[a]@),
                forall|a: int, b: int| 0 <= a < b < keys@.len() ==> #[trigger] keys@[a]@ != #[trigger] keys@[b]@,
                forall|k: Seq<char>| #[trigger] m0.contains_key(k) ==> exists|a: int|
                    0 <= a < keys@.len() && keys@[a]@ == k,
                forall|k: Seq<char>| #[trigger] done.contains(k) ==> exists|a: int|
                    0 <= a < i && keys@[a]@ == k,
                forall|a: int| 0 <= a < i ==> #[trigger] done.contains(keys@[a]@),
                self.windows_view() == partly_cleaned(m0, done, now),
            decreases keys@.len() - i,
        {
            let key = &keys[i];
            proof {
                if done.contains(key@) {
                    let a = choose|a: int| 0 <= a < i && keys@[a]@ == key@;
                    assert(keys@[a]@ != keys@[i as int]@);
                }
                assert(m0.contains_key(keys@[i as int]@));
                assert(window_of(self.windows_view(), key@) == m0[key@]);
            }
            let kept = recent_window(&self.windows, key.as_str(), now);
            if kept.len() == 0 {
                window_table_remove(&mut self.windows, key.as_str());
            } else {
                window_table_insert(&mut self.windows, String::from_str(key.as_str()), kept);
            }
            proof {
                let d2 = done.insert(key@);
                assert(self.windows_view() =~= partly_cleaned(m0, d2, now));
                done = d2;
                assert forall|k: Seq<char>| #[trigger] done.contains(k) implies exists|a: int|
                    0 <= a < i + 1 && keys@[a]@ == k by {
                    if k == key@ {
                        assert(keys@[i as int]@ == k);
                    }
                }
            }
            i = i + 1;
        }
        proof {
            assert forall|k: Seq<char>| #[trigger] m0.contains_key(k) implies done.contains(k) by {
                let a = choose|a: int| 0 <= a < keys@.len() && keys@[a]@ == k;
                assert(done.contains(keys@[a]@));
            }
            assert(self.windows_view() =~= cleaned(m0, now));
            assert forall|k: Seq<char>| #[trigger] self.windows_view().contains_key(k) implies self.windows_view()[k].len()
                <= self.limit() by {
                lemma_recent_len(m0[k], now);
            }
        }
        let ghost l0 = self.latest;
        if now > self.latest {
            self.latest = now;
        }
        proof {
            let m = self.windows_view();
            assert forall|k: Seq<char>, i: int| m.contains_key(k) && 0 <= i < m[k].len() implies #[trigger] m[k][i]
                <= self.latest by {
                assert(m0.contains_key(k));
                assert forall|j: int| 0 <= j < m0[k].len() implies m0[k][j] <= l0 by {
                    assert(m0[k][j] <= l0);
                }
                lemma_recent_bounded(m0[k], now, l0);
            }
        }
    }

    /// Forget every submission that left the window ending now (see `cleanup_at`).
    pub fn cleanup(&mut self)
        requires
            old(self).wf(),
        ensures
            final(self).wf(),
            final(self).limit() == old(self).limit(),
            exists|now: u64|
                {
                    &&& #[trigger] cleaned(old(self).windows_view(), now) == final(self).windows_view()
                    &&& now >= old(self).latest_view()
                    &&& recorded_by(old(self).windows_view(), now)
                    &&& final(self).latest_view() == now
                },
    {
        let now = self.clock_reading();
        proof {
            let m = self.windows_view();
            assert forall|k: Seq<char>, i: int| m.contains_key(k) && 0 <= i < m[k].len() implies #[trigger] m[k][i]
                <= now by {
                assert(m[k][i] <= self.latest_view());
            }
        }
        self.cleanup_at(now);
    }
}

/// Measured at a time no earlier than any submission the limiter has recorded,
/// the window of an address holds exactly its submissions made less than
/// `WINDOW_MS` before: one made `WINDOW_MS` or more before is forgotten. So an
/// address with no submission in the last window has none counted against it.
pub proof fn law_window_forgets(l: RateLimiter, key: Seq<char>, now: u64)
    requires
        l.wf(),
        now >= l.latest_view(),
    ensures
        forall|t: u64|
            #![trigger recent(window_of(l.windows_view(), key), now).contains(t)]
            #![trigger window_of(l.windows_view(), key).contains(t)]
            recent(window_of(l.windows_view(), key), now).contains(t) <==> window_of(l.windows_view(), key).contains(t)
                && now - t < WINDOW_MS,
        (forall|i: int|
            0 <= i < window_of(l.windows_view(), key).len() ==> now - #[trigger] window_of(l.windows_view(), key)[i]
                >= WINDOW_MS) ==> recent(window_of(l.windows_view(), key), now).len() == 0,
{
    let m = l.windows_view();
    let w = window_of(m, key);
    let r = recent(w, now);
    let pred = |x: u64| in_window(x, now);
    assert forall|i: int| 0 <= i < w.len() implies w[i] <= now by {
        assert(m.contains_key(key) && m[key][i] <= l.latest_view());
    }
    assert forall|t: u64|
        #![trigger r.contains(t)]
        #![trigger w.contains(t)]
        r.contains(t) <==> w.contains(t) && now - t < WINDOW_MS by {
        if r.contains(t) {
            w.lemma_filter_contains_rev(pred, t);
            let i = choose|i: int| 0 <= i < r.len() && r[i] == t;
            w.lemma_filter_pred(pred, i);
            let j = choose|j: int| 0 <= j < w.len() && w[j] == t;
            assert(w[j] <= now);
        }
        if w.contains(t) && now - t < WINDOW_MS {
            let j = choose|j: int| 0 <= j < w.len() && w[j] == t;
            w.lemma_filter_contains(pred, j);
        }
    }
    if forall|i: int| 0 <= i < w.len() ==> now - #[trigger] w[i] >= WINDOW_MS {
        if r.len() > 0 {
            assert(r.contains(r[0]));
            w.lemma_filter_contains_rev(pred, r[0]);
            w.lemma_filter_pred(pred, 0);
            let j = choose|j: int| 0 <= j < w.len() && w[j] == r[0];
            assert(now - w[j] >= WINDOW_MS);
        }
    }
}

} // verus!
