//! Connected peers: admission limited overall and per network bucket, traffic
//! counters, and random sampling for gossip.
use vstd::prelude::*;
use rand::seq::SliceRandom;
use dashmap::DashMap;
use std::collections::hash_map::RandomState;
use crate::dag_tables::{
    lists_keys, peer_table, peer_table_contains, peer_table_get, peer_table_insert, peer_table_keys,
    peer_table_len, peer_table_new, peer_table_remove,
};
use crate::keyorder::{lemma_same_elements_multiset, lemma_sum_by_permutation, lemma_sum_by_prefix, lemma_sum_by_step, sum_by};
use crate::primitives::now_ms;
use crate::state::amount_of;
use crate::tables::{amount_table, amount_table_get, amount_table_insert, amount_table_new, amount_table_remove};
use crate::textscan::{contains_char, field_after, fields, first_fields, first_fields_of, first_index, position_of};

verus! {

/// The part of an address that names the host: the field after `ip4` (or, when
/// there is no `ip4` field, after `ip6`) of the address split at `/`; the whole
/// address when there is no such field.
pub open spec fn ip_part(address: Seq<char>) -> Seq<char> {
    let parts = fields(address, '/');
    match position_of(parts, "ip4"@) {
        Some(p) => if p + 1 < parts.len() { parts[p + 1] } else { address },
        None => match position_of(parts, "ip6"@) {
            Some(p) => if p + 1 < parts.len() { parts[p + 1] } else { address },
            None => address,
        },
    }
}

/// The network bucket of an address: the first four `:`-fields of an IPv6 host,
/// else the first three `.`-fields.
pub open spec fn bucket_of(address: Seq<char>) -> Seq<char> {
    let ip = ip_part(address);
    if first_index(ip, ':') < ip.len() {
        first_fields(ip, ':', 4)
    } else {
        first_fields(ip, '.', 3)
    }
}

/// The network bucket of an address.
pub fn bucket_for_address(address: &str) -> (b: String)
    ensures
        b@ == bucket_of(address@),
{
    proof {
        reveal_strlit("ip4");
        reveal_strlit("ip6");
    }
    let ip: &str = match field_after(address, '/', "ip4") {
        Some(Some(x)) => x,
        Some(None) => address,
        None => match field_after(address, '/', "ip6") {
            Some(Some(x)) => x,
            Some(None) => address,
            None => address,
        },
    };
    assert(ip@ == ip_part(address@));
    if contains_char(ip, ':') {
        String::from_str(first_fields_of(ip, ':', 4))
    } else {
        String::from_str(first_fields_of(ip, '.', 3))
    }
}

/// Information about a connected peer.
#[derive(Debug)]
pub struct PeerInfo {
    pub peer_id: String,
    pub connected_at: u64,
    pub last_seen: u64,
    pub address: String,
    pub bytes_sent: u64,
    pub bytes_received: u64,
    pub messages_sent: u64,
    pub messages_received: u64,
}

/// What a peer record holds.
pub struct PeerView {
    pub peer_id: Seq<char>,
    pub connected_at: u64,
    pub last_seen: u64,
    pub address: Seq<char>,
    pub bytes_sent: u64,
    pub bytes_received: u64,
    pub messages_sent: u64,
    pub messages_received: u64,
}

impl View for PeerInfo {
    type V = PeerView;

    open spec fn view(&self) -> PeerView {
        PeerView {
            peer_id: self.peer_id@,
            connected_at: self.connected_at,
            last_seen: self.last_seen,
            address: self.address@,
            bytes_sent: self.bytes_sent,
            bytes_received: self.bytes_received,
            messages_sent: self.messages_sent,
            messages_received: self.messages_received,
        }
    }
}

impl Clone for PeerInfo {
    fn clone(&self) -> (c: Self)
        ensures
            c@ == self@,
    {
        PeerInfo {
            peer_id: self.peer_id.clone(),
            connected_at: self.connected_at,
            last_seen: self.last_seen,
            address: self.address.clone(),
            bytes_sent: self.bytes_sent,
            bytes_received: self.bytes_received,
            messages_sent: self.messages_sent,
            messages_received: self.messages_received,
        }
    }
}

/// `rand::seq::SliceRandom::shuffle` with `rand::thread_rng()`: the same ids in a
/// random order.
#[verifier::external_body]
fn shuffle_ids(v: &mut Vec<String>)
    ensures
        final(v)@.len() == old(v)@.len(),
        final(v)@.map_values(|k: String| k@).to_multiset() == old(v)@.map_values(|k: String| k@).to_multiset(),
{
    v.shuffle(&mut rand::thread_rng());
}

/// Whether `f` is `m` with peer `id` stamped as seen at `now`: only that peer's
/// `last_seen` changes, and nothing at all when the peer is unknown.
pub open spec fn touched(m: PeerManager, f: PeerManager, id: Seq<char>, now: u64) -> bool {
    &&& !m.peers_view().contains_key(id) ==> f.peers_view() == m.peers_view()
    &&& m.peers_view().contains_key(id) ==> f.peers_view() == m.peers_view().insert(
        id,
        PeerView { last_seen: now, ..m.peers_view()[id] },
    )
    &&& f.buckets_view() == m.buckets_view()
    &&& f.max_peers_view() == m.max_peers_view()
    &&& f.max_per_bucket_view() == m.max_per_bucket_view()
}

/// Tracks connected peers.
pub struct PeerManager {
    peers: DashMap<String, PeerInfo, RandomState>,
    connections_per_bucket: DashMap<String, u64, RandomState>,
    max_peers: usize,
    max_peers_per_bucket: usize,
}

/// The traffic of a peer: bytes sent plus bytes received.
pub open spec fn traffic(p: PeerView) -> int {
    p.bytes_sent + p.bytes_received
}

impl PeerManager {
    /// Connected peers by id.
    pub closed spec fn peers_view(&self) -> Map<Seq<char>, PeerView> {
        peer_table(self.peers)
    }

    /// Connections per network bucket.
    pub closed spec fn buckets_view(&self) -> Map<Seq<char>, u64> {
        amount_table(self.connections_per_bucket)
    }

    /// The peer limit.
    pub closed spec fn max_peers_view(&self) -> usize {
        self.max_peers
    }

    /// The per-bucket limit.
    pub closed spec fn max_per_bucket_view(&self) -> usize {
        self.max_peers_per_bucket
    }

    /// No bucket holds more connections than the per-bucket limit.
    pub open spec fn buckets_within_limit(&self) -> bool {
        forall|b: Seq<char>| #[trigger] self.buckets_view().contains_key(b) ==> self.buckets_view()[b]
            <= self.max_per_bucket_view()
    }

    /// The total traffic of all peers.
    pub open spec fn total_traffic(&self) -> int {
        sum_by(
            crate::keyorder::sorted_keys(self.peers_view()),
            |k: Seq<char>| traffic(self.peers_view()[k]),
        )
    }

    /// A manager for up to `max_peers` peers, a fifth of them (2 to 16) per bucket.
    pub fn new(max_peers: usize) -> (m: Self)
        ensures
            m.max_peers_view() == max_peers,
            m.max_per_bucket_view() == (if max_peers / 5 < 2 { 2 } else if max_peers / 5 > 16 { 16 } else { max_peers / 5 }),
            m.peers_view().dom().len() == 0 && m.peers_view().dom().finite(),
            m.buckets_view().dom().len() == 0,
            m.buckets_within_limit(),
    {
        let fifth = max_peers / 5;
        let per_bucket = if fifth < 2 { 2 } else if fifth > 16 { 16 } else { fifth };
        Self::with_limits(max_peers, per_bucket)
    }

    /// A manager with explicit limits (the per-bucket limit is at least 1).
    pub fn with_limits(max_peers: usize, max_peers_per_bucket: usize) -> (m: Self)
        ensures
            m.max_peers_view() == max_peers,
            m.max_per_bucket_view() == (if max_peers_per_bucket == 0 { 1 } else { max_peers_per_bucket }),
            m.peers_view().dom().len() == 0 && m.peers_view().dom().finite(),
            m.buckets_view().dom().len() == 0,
            m.buckets_within_limit(),
    {
        let m = PeerManager {
            peers: peer_table_new(),
            connections_per_bucket: amount_table_new(),
            max_peers,
            max_peers_per_bucket: if max_peers_per_bucket == 0 { 1 } else { max_peers_per_bucket },
        };
        m
    }

    /// Register a peer connection. A known peer is accepted as is; a new one is
    /// refused when the manager is full or its bucket is; else it is recorded with
    /// zero counters and its bucket's count rises by one.
    pub fn add_peer(&mut self, peer_id: String, address: String) -> (accepted: bool)
        ensures
            old(self).buckets_within_limit() ==> final(self).buckets_within_limit(),
            ({
                let known = old(self).peers_view().contains_key(peer_id@);
                let full = old(self).peers_view().dom().len() >= old(self).max_peers_view();
                let b = bucket_of(address@);
                let count = amount_of(old(self).buckets_view(), b);
                let bucket_full = count >= old(self).max_per_bucket_view();
                &&& known ==> accepted && *final(self) == *old(self)
                &&& !known && full ==> !accepted && *final(self) == *old(self)
                &&& !known && !full && bucket_full ==> !accepted && *final(self) == *old(self)
                &&& !known && !full && !bucket_full ==> {
                    &&& accepted
                    &&& final(self).peers_view().dom() == old(self).peers_view().dom().insert(peer_id@)
                    &&& final(self).peers_view()[peer_id@].peer_id == peer_id@
                    &&& final(self).peers_view()[peer_id@].address == address@
                    &&& final(self).peers_view()[peer_id@].bytes_sent == 0
                    &&& final(self).peers_view()[peer_id@].bytes_received == 0
                    &&& final(self).peers_view()[peer_id@].messages_sent == 0
                    &&& final(self).peers_view()[peer_id@].messages_received == 0
                    &&& forall|k: Seq<char>| #[trigger] old(self).peers_view().contains_key(k) ==> final(self).peers_view()[k]
                        == old(self).peers_view()[k]
                    &&& final(self).buckets_view() == old(self).buckets_view().insert(b, (count + 1) as u64)
                    &&& final(self).max_peers_view() == old(self).max_peers_view()
                    &&& final(self).max_per_bucket_view() == old(self).max_per_bucket_view()
                }
            }),
    {
        if peer_table_contains(&self.peers, peer_id.as_str()) {
            return true;
        }
        if peer_table_len(&self.peers) >= self.max_peers {
            return false;
        }
        let bucket = bucket_for_address(address.as_str());
        let bucket_count = match amount_table_get(&self.connections_per_bucket, bucket.as_str()) {
            Some(v) => v,
            None => 0,
        };
        if bucket_count >= self.max_peers_per_bucket as u64 {
            return false;
        }
        let now = now_ms();
        let info = PeerInfo {
            peer_id: peer_id.clone(),
            connected_at: now,
            last_seen: now,
            address,
            bytes_sent: 0,
            bytes_received: 0,
            messages_sent: 0,
            messages_received: 0,
        };
        let ghost b = bucket@;
        peer_table_insert(&mut self.peers, peer_id, info);
        amount_table_insert(&mut self.connections_per_bucket, bucket, bucket_count + 1);
        proof {
            if old(self).buckets_within_limit() {
                assert forall|k: Seq<char>| #[trigger] self.buckets_view().contains_key(k) implies self.buckets_view()[k]
                    <= self.max_per_bucket_view() by {
                    if k != b {
                        assert(old(self).buckets_view().contains_key(k));
                    }
                }
            }
        }
        true
    }

    /// Remove a disconnected peer; its bucket's count drops by one (the bucket goes
    /// when it would drop to zero).
    pub fn remove_peer(&mut self, peer_id: &str)
        ensures
            old(self).buckets_within_limit() ==> final(self).buckets_within_limit(),
            !old(self).peers_view().contains_key(peer_id@) ==> final(self).peers_view() == old(self).peers_view()
                && final(self).buckets_view() == old(self).buckets_view(),
            old(self).peers_view().contains_key(peer_id@) ==> {
                let b = bucket_of(old(self).peers_view()[peer_id@].address);
                &&& final(self).peers_view() == old(self).peers_view().remove(peer_id@)
                &&& !old(self).buckets_view().contains_key(b) ==> final(self).buckets_view() == old(
                    self,
                ).buckets_view()
                &&& old(self).buckets_view().contains_key(b) && old(self).buckets_view()[b] <= 1
                    ==> final(self).buckets_view() == old(self).buckets_view().remove(b)
                &&& old(self).buckets_view().contains_key(b) && old(self).buckets_view()[b] > 1
                    ==> final(self).buckets_view() == old(self).buckets_view().insert(
                    b,
                    (old(self).buckets_view()[b] - 1) as u64,
                )
            },
            final(self).max_peers_view() == old(self).max_peers_view(),
            final(self).max_per_bucket_view() == old(self).max_per_bucket_view(),
    {
        match peer_table_remove(&mut self.peers, peer_id) {
            None => {
                proof {
                    if old(self).buckets_within_limit() {
                        assert forall|k: Seq<char>| #[trigger] self.buckets_view().contains_key(k) implies self.buckets_view()[k]
                            <= self.max_per_bucket_view() by {
                            assert(old(self).buckets_view().contains_key(k));
                        }
                    }
                }
            },
            Some(info) => {
                let bucket = bucket_for_address(info.address.as_str());
                match amount_table_get(&self.connections_per_bucket, bucket.as_str()) {
                    None => {
                        proof {
                            if old(self).buckets_within_limit() {
                                assert forall|k: Seq<char>| #[trigger] self.buckets_view().contains_key(k) implies self.buckets_view()[k]
                                    <= self.max_per_bucket_view() by {
                                    assert(old(self).buckets_view().contains_key(k));
                                }
                            }
                        }
                    },
                    Some(count) => {
                        let ghost b = bucket@;
                        if count <= 1 {
                            amount_table_remove(&mut self.connections_per_bucket, bucket.as_str());
                        } else {
                            amount_table_insert(&mut self.connections_per_bucket, bucket, count - 1);
                        }
                        proof {
                            if old(self).buckets_within_limit() {
                                assert forall|k: Seq<char>| #[trigger] self.buckets_view().contains_key(k) implies self.buckets_view()[k]
                                    <= self.max_per_bucket_view() by {
                                    assert(old(self).buckets_view().contains_key(k));
                                }
                            }
                        }
                    },
                }
            },
        }
    }

    /// Stamp a peer as seen at `now` (ms since the UNIX epoch); an unknown peer
    /// changes nothing.
    pub fn touch_at(&mut self, peer_id: &str, now: u64)
        ensures
            touched(*old(self), *final(self), peer_id@, now),
    {
        match peer_table_get(&self.peers, peer_id) {
            None => {},
            Some(mut info) => {
                info.last_seen = now;
                peer_table_insert(&mut self.peers, String::from_str(peer_id), info);
            },
        }
    }

    /// Stamp a peer as seen now (see `touch_at`), at the system clock's reading,
    /// of which nothing is promised.
    pub fn touch(&mut self, peer_id: &str)
        ensures
            exists|now: u64| #[trigger] touched(*old(self), *final(self), peer_id@, now),
    {
        let now = now_ms();
        self.touch_at(peer_id, now);
    }

    /// Count bytes sent to a peer and one more message.
    pub fn record_sent(&mut self, peer_id: &str, bytes: u64)
        requires
            old(self).peers_view().contains_key(peer_id@) ==> old(self).peers_view()[peer_id@].bytes_sent + bytes
                <= u64::MAX && old(self).peers_view()[peer_id@].messages_sent < u64::MAX,
        ensures
            !old(self).peers_view().contains_key(peer_id@) ==> *final(self) == *old(self),
            old(self).peers_view().contains_key(peer_id@) ==> final(self).peers_view() == old(self).peers_view().insert(
                peer_id@,
                PeerView {
                    bytes_sent: (old(self).peers_view()[peer_id@].bytes_sent + bytes) as u64,
                    messages_sent: (old(self).peers_view()[peer_id@].messages_sent + 1) as u64,
                    ..old(self).peers_view()[peer_id@]
                },
            ),
            final(self).buckets_view() == old(self).buckets_view(),
            final(self).max_peers_view() == old(self).max_peers_view(),
            final(self).max_per_bucket_view() == old(self).max_per_bucket_view(),
    {
        match peer_table_get(&self.peers, peer_id) {
            None => {},
            Some(mut info) => {
                info.bytes_sent = info.bytes_sent + bytes;
                info.messages_sent = info.messages_sent + 1;
                peer_table_insert(&mut self.peers, String::from_str(peer_id), info);
            },
        }
    }

    /// Count bytes received from a peer and one more message, and stamp it as seen now.
    pub fn record_received(&mut self, peer_id: &str, bytes: u64)
        requires
            old(self).peers_view().contains_key(peer_id@) ==> old(self).peers_view()[peer_id@].bytes_received
                + bytes <= u64::MAX && old(self).peers_view()[peer_id@].messages_received < u64::MAX,
        ensures
            !old(self).peers_view().contains_key(peer_id@) ==> *final(self) == *old(self),
            old(self).peers_view().contains_key(peer_id@) ==> final(self).peers_view() == old(self).peers_view().insert(
                peer_id@,
                PeerView {
                    bytes_received: (old(self).peers_view()[peer_id@].bytes_received + bytes) as u64,
                    messages_received: (old(self).peers_view()[peer_id@].messages_received + 1) as u64,
                    last_seen: final(self).peers_view()[peer_id@].last_seen,
                    ..old(self).peers_view()[peer_id@]
                },
            ),
            final(self).buckets_view() == old(self).buckets_view(),
            final(self).max_peers_view() == old(self).max_peers_view(),
            final(self).max_per_bucket_view() == old(self).max_per_bucket_view(),
    {
        match peer_table_get(&self.peers, peer_id) {
            None => {},
            Some(mut info) => {
                info.bytes_received = info.bytes_received + bytes;
                info.messages_received = info.messages_received + 1;
                info.last_seen = now_ms();
                peer_table_insert(&mut self.peers, String::from_str(peer_id), info);
            },
        }
    }

    /// The ids of all connected peers, each once.
    pub fn connected_peers(&self) -> (v: Vec<String>)
        ensures
            lists_keys(v@.map_values(|k: String| k@), self.peers_view()),
    {
        peer_table_keys(&self.peers)
    }

    /// The number of connected peers.
    pub fn peer_count(&self) -> (n: usize)
        ensures
            n == self.peers_view().dom().len(),
    {
        peer_table_len(&self.peers)
    }

    /// Whether a peer is connected.
    pub fn is_connected(&self, peer_id: &str) -> (b: bool)
        ensures
            b == self.peers_view().contains_key(peer_id@),
    {
        peer_table_contains(&self.peers, peer_id)
    }

    /// A copy of a peer's information.
    pub fn get_peer(&self, peer_id: &str) -> (r: Option<PeerInfo>)
        ensures
            r is Some <==> self.peers_view().contains_key(peer_id@),
            r matches Some(p) ==> p@ == self.peers_view()[peer_id@],
    {
        peer_table_get(&self.peers, peer_id)
    }

    /// Bytes sent plus received over all peers.
    pub fn total_bandwidth(&self) -> (t: u64)
        requires
            self.peers_view().dom().finite(),
            self.total_traffic() <= u64::MAX,
        ensures
            t == self.total_traffic(),
    {
        let keys = peer_table_keys(&self.peers);
        let ghost m = self.peers_view();
        let ghost kv = keys@.map_values(|k: String| k@);
        let ghost g = |k: Seq<char>| traffic(m[k]);
        proof {
            crate::keyorder::lemma_sorted_keys(m);
            assert(kv.no_duplicates()) by {
                assert forall|i: int, j: int| 0 <= i < kv.len() && 0 <= j < kv.len() && i != j implies kv[i] != kv[j] by {
                    if i < j {
                        assert(kv[i] != kv[j]);
                    } else {
                        assert(kv[j] != kv[i]);
                    }
                }
            }
            assert forall|k: Seq<char>| kv.contains(k) <==> crate::keyorder::sorted_keys(m).contains(k) by {
                if kv.contains(k) {
                    let i = choose|i: int| 0 <= i < kv.len() && kv[i] == k;
                    assert(m.contains_key(kv[i]));
                }
                if m.contains_key(k) {
                    let i = choose|i: int| 0 <= i < kv.len() && kv[i] == k;
                    assert(kv[i] == k);
                }
            }
            lemma_same_elements_multiset(kv, crate::keyorder::sorted_keys(m));
            lemma_sum_by_permutation(kv, crate::keyorder::sorted_keys(m), g);
            assert forall|k: Seq<char>| #[trigger] g(k) >= 0 by {}
        }
        let mut total: u64 = 0;
        let mut i: usize = 0;
        while i < keys.len()
            invariant
                i <= keys@.len(),
                m == self.peers_view(),
                kv == keys@.map_values(|k: String| k@),
                lists_keys(kv, m),
                g == (|k: Seq<char>| traffic(m[k])),
                forall|k: Seq<char>| #[trigger] g(k) >= 0,
                sum_by(kv, g) <= u64::MAX,
                total == sum_by(kv.take(i as int), g),
            decreases keys@.len() - i,
        {
            proof {
                lemma_sum_by_step(kv, g, i as int);
                lemma_sum_by_prefix(kv, g, i + 1);
                assert(kv[i as int] == keys@[i as int]@);
                assert(m.contains_key(kv[i as int]));
            }
            match peer_table_get(&self.peers, keys[i].as_str()) {
                Some(info) => {
                    total = total + info.bytes_sent + info.bytes_received;
                },
                None => {
                    proof {
                        assert(false);
                    }
                },
            }
            i = i + 1;
        }
        assert(kv.take(kv.len() as int) =~= kv);
        total
    }

    /// Up to `count` distinct connected peers, chosen at random; all of them when
    /// there are no more than `count`.
    pub fn sample_peers(&self, count: usize) -> (v: Vec<String>)
        ensures
            v@.len() == (if self.peers_view().dom().len() <= count { self.peers_view().dom().len() as int } else { count as int }),
            forall|i: int| 0 <= i < v@.len() ==> self.peers_view().contains_key(#[trigger] v@[i]@),
            forall|i: int, j: int| 0 <= i < j < v@.len() ==> #[trigger] v@[i]@ != #[trigger] v@[j]@,
    {
        let mut all = self.connected_peers();
        let ghost before = all@.map_values(|k: String| k@);
        if all.len() <= count {
            proof {
                assert forall|i: int, j: int| 0 <= i < j < all@.len() implies #[trigger] all@[i]@ != #[trigger] all@[j]@ by {
                    assert(before[i] == all@[i]@ && before[j] == all@[j]@);
                }
                assert forall|i: int| 0 <= i < all@.len() implies self.peers_view().contains_key(#[trigger] all@[i]@) by {
                    assert(before[i] == all@[i]@);
                }
            }
            return all;
        }
        shuffle_ids(&mut all);
        let ghost after = all@.map_values(|k: String| k@);
        proof {
            broadcast use vstd::seq_lib::group_to_multiset_ensures;
            assert(before.no_duplicates()) by {
                assert forall|i: int, j: int| 0 <= i < before.len() && 0 <= j < before.len() && i != j implies before[i] != before[j] by {
                    if i < j {
                        assert(before[i] != before[j]);
                    } else {
                        assert(before[j] != before[i]);
                    }
                }
            }
            before.lemma_multiset_has_no_duplicates();
            assert forall|x: Seq<char>| after.to_multiset().contains(x) implies after.to_multiset().count(x) == 1 by {
                assert(before.to_multiset().contains(x));
            }
            after.lemma_multiset_has_no_duplicates_conv();
            assert forall|i: int| 0 <= i < after.len() implies self.peers_view().contains_key(after[i]) by {
                assert(after.to_multiset().contains(after[i]));
                assert(before.to_multiset().contains(after[i]));
                let j = choose|j: int| 0 <= j < before.len() && before[j] == after[i];
                assert(self.peers_view().contains_key(before[j]));
            }
        }
        all.truncate(count);
        proof {
            assert forall|i: int, j: int| 0 <= i < j < all@.len() implies #[trigger] all@[i]@ != #[trigger] all@[j]@ by {
                assert(after[i] == all@[i]@ && after[j] == all@[j]@);
            }
            assert forall|i: int| 0 <= i < all@.len() implies self.peers_view().contains_key(#[trigger] all@[i]@) by {
                assert(after[i] == all@[i]@);
            }
        }
        all
    }
}

impl Default for PeerManager {
    fn default() -> (m: Self)
        ensures
            m.max_peers_view() == 50,
            m.max_per_bucket_view() == 10,
    {
        Self::new(50)
    }
}

} // verus!
