//! The concurrent hash maps (`dashmap::DashMap`) of the DAG, the conflict
//! detector, the tip selector and the mempool: names for what each holds and one
//! wrapper per method used.
use vstd::prelude::*;
use dashmap::DashMap;
use std::collections::hash_map::RandomState;
use crate::graph::{DagNode, NodeView};
use crate::transaction::{Transaction, TransactionHash, TxView};
use crate::vote::{TallyView, VoteTally};
use crate::peers::{PeerInfo, PeerView};

verus! {

/// Whether `v` lists the keys of `m`, each once.
pub open spec fn lists_keys<K, V>(v: Seq<K>, m: Map<K, V>) -> bool {
    &&& m.dom().finite()
    &&& v.len() == m.dom().len()
    &&& forall|i: int| 0 <= i < v.len() ==> #[trigger] m.contains_key(v[i])
    &&& forall|i: int, j: int| 0 <= i < j < v.len() ==> #[trigger] v[i] != #[trigger] v[j]
    &&& forall|k: K| #[trigger] m.contains_key(k) ==> exists|i: int| 0 <= i < v.len() && v[i] == k
}

// ─── Committed (sender, nonce) pairs ────────────────────────────────────────

/// What a map from (sender text, nonce) to a transaction hash holds.
pub uninterp spec fn nonce_table(
    m: DashMap<(String, u64), TransactionHash, RandomState>,
) -> Map<(Seq<char>, u64), Seq<u8>>;

/// `DashMap::new`: an empty map.
#[verifier::external_body]
pub(crate) fn nonce_table_new() -> (m: DashMap<(String, u64), TransactionHash, RandomState>)
    ensures
        nonce_table(m).dom().len() == 0,
        nonce_table(m).dom().finite(),
{
    DashMap::new()
}

/// `DashMap::get`, the hash copied out.
#[verifier::external_body]
pub(crate) fn nonce_table_get(
    m: &DashMap<(String, u64), TransactionHash, RandomState>,
    key: &(String, u64),
) -> (r: Option<TransactionHash>)
    ensures
        r is Some <==> nonce_table(*m).contains_key((key.0@, key.1)),
        r matches Some(h) ==> h@ == nonce_table(*m)[(key.0@, key.1)],
{
    m.get(key).map(|e| *e.value())
}

/// `DashMap::insert`: the key now maps to the hash; nothing else changes.
#[verifier::external_body]
pub(crate) fn nonce_table_insert(
    m: &mut DashMap<(String, u64), TransactionHash, RandomState>,
    key: (String, u64),
    value: TransactionHash,
)
    ensures
        nonce_table(*final(m)) == nonce_table(*old(m)).insert((key.0@, key.1), value@),
{
    m.insert(key, value);
}

/// `DashMap::remove`: the key no longer maps to anything; nothing else changes.
#[verifier::external_body]
pub(crate) fn nonce_table_remove(
    m: &mut DashMap<(String, u64), TransactionHash, RandomState>,
    key: &(String, u64),
)
    ensures
        nonce_table(*final(m)) == nonce_table(*old(m)).remove((key.0@, key.1)),
{
    m.remove(key);
}

// ─── Conflict sets ──────────────────────────────────────────────────────────

/// What a map from conflict id to the hashes in conflict holds.
pub uninterp spec fn conflict_table(
    m: DashMap<u64, Vec<TransactionHash>, RandomState>,
) -> Map<u64, Seq<TransactionHash>>;

/// `DashMap::new`: an empty map.
#[verifier::external_body]
pub(crate) fn conflict_table_new() -> (m: DashMap<u64, Vec<TransactionHash>, RandomState>)
    ensures
        conflict_table(m).dom().len() == 0,
        conflict_table(m).dom().finite(),
{
    DashMap::new()
}

/// `DashMap::get`, the hashes cloned out.
#[verifier::external_body]
pub(crate) fn conflict_table_get(m: &DashMap<u64, Vec<TransactionHash>, RandomState>, key: u64) -> (r:
    Option<Vec<TransactionHash>>)
    ensures
        r is Some <==> conflict_table(*m).contains_key(key),
        r matches Some(v) ==> v@ == conflict_table(*m)[key],
{
    m.get(&key).map(|e| e.value().clone())
}

/// `DashMap::insert`: the id now maps to the hashes; nothing else changes.
#[verifier::external_body]
pub(crate) fn conflict_table_insert(
    m: &mut DashMap<u64, Vec<TransactionHash>, RandomState>,
    key: u64,
    value: Vec<TransactionHash>,
)
    ensures
        conflict_table(*final(m)) == conflict_table(*old(m)).insert(key, value@),
{
    m.insert(key, value);
}

/// `DashMap::remove`: the entry of the id, if any, taken out of the map.
#[verifier::external_body]
pub(crate) fn conflict_table_remove(m: &mut DashMap<u64, Vec<TransactionHash>, RandomState>, key: u64) -> (r:
    Option<Vec<TransactionHash>>)
    ensures
        r is Some <==> conflict_table(*old(m)).contains_key(key),
        r matches Some(v) ==> v@ == conflict_table(*old(m))[key],
        conflict_table(*final(m)) == conflict_table(*old(m)).remove(key),
{
    m.remove(&key).map(|(_, v)| v)
}

/// `DashMap::len`: the number of entries.
#[verifier::external_body]
pub(crate) fn conflict_table_len(m: &DashMap<u64, Vec<TransactionHash>, RandomState>) -> (n: usize)
    ensures
        n == conflict_table(*m).dom().len(),
{
    m.len()
}

// ─── Maps from a transaction hash to a number ───────────────────────────────

/// What a map from transaction hash to a number holds.
pub uninterp spec fn hash_numbers(m: DashMap<TransactionHash, u64, RandomState>) -> Map<Seq<u8>, u64>;

/// `DashMap::new`: an empty map.
#[verifier::external_body]
pub(crate) fn hash_numbers_new() -> (m: DashMap<TransactionHash, u64, RandomState>)
    ensures
        hash_numbers(m).dom().len() == 0,
        hash_numbers(m).dom().finite(),
{
    DashMap::new()
}

/// `DashMap::get`, the number copied out.
#[verifier::external_body]
pub(crate) fn hash_numbers_get(m: &DashMap<TransactionHash, u64, RandomState>, key: &TransactionHash) -> (r:
    Option<u64>)
    ensures
        r is Some <==> hash_numbers(*m).contains_key(key@),
        r matches Some(v) ==> v == hash_numbers(*m)[key@],
{
    m.get(key).map(|e| *e.value())
}

/// `DashMap::insert`: the hash now maps to the number; nothing else changes.
#[verifier::external_body]
pub(crate) fn hash_numbers_insert(m: &mut DashMap<TransactionHash, u64, RandomState>, key: TransactionHash, value: u64)
    ensures
        hash_numbers(*final(m)) == hash_numbers(*old(m)).insert(key@, value),
{
    m.insert(key, value);
}

/// `DashMap::remove`: the hash no longer maps to anything; nothing else changes.
#[verifier::external_body]
pub(crate) fn hash_numbers_remove(m: &mut DashMap<TransactionHash, u64, RandomState>, key: &TransactionHash)
    ensures
        hash_numbers(*final(m)) == hash_numbers(*old(m)).remove(key@),
{
    m.remove(key);
}

/// `DashMap::iter`, the keys copied out: every key once, in an order the map's
/// hashing decides (not stated).
#[verifier::external_body]
pub(crate) fn hash_numbers_keys(m: &DashMap<TransactionHash, u64, RandomState>) -> (v: Vec<TransactionHash>)
    ensures
        lists_keys(v@.map_values(|h: TransactionHash| h@), hash_numbers(*m)),
{
    m.iter().map(|e| *e.key()).collect()
}

// ─── DAG vertices ───────────────────────────────────────────────────────────

/// What a map from transaction hash to DAG vertex holds, each vertex as its view.
pub uninterp spec fn node_table(m: DashMap<TransactionHash, DagNode, RandomState>) -> Map<Seq<u8>, NodeView>;

/// `DashMap::new`: an empty map.
#[verifier::external_body]
pub(crate) fn node_table_new() -> (m: DashMap<TransactionHash, DagNode, RandomState>)
    ensures
        node_table(m).dom().len() == 0,
        node_table(m).dom().finite(),
{
    DashMap::new()
}

/// `DashMap::get`, the vertex cloned out.
#[verifier::external_body]
pub(crate) fn node_table_get(m: &DashMap<TransactionHash, DagNode, RandomState>, key: &TransactionHash) -> (r:
    Option<DagNode>)
    ensures
        r is Some <==> node_table(*m).contains_key(key@),
        r matches Some(n) ==> n@ == node_table(*m)[key@],
{
    m.get(key).map(|e| e.value().clone())
}

/// `DashMap::contains_key`.
#[verifier::external_body]
pub(crate) fn node_table_contains(m: &DashMap<TransactionHash, DagNode, RandomState>, key: &TransactionHash) -> (b:
    bool)
    ensures
        b == node_table(*m).contains_key(key@),
{
    m.contains_key(key)
}

/// `DashMap::insert`: the hash now maps to the vertex; nothing else changes.
#[verifier::external_body]
pub(crate) fn node_table_insert(m: &mut DashMap<TransactionHash, DagNode, RandomState>, key: TransactionHash, value: DagNode)
    ensures
        node_table(*final(m)) == node_table(*old(m)).insert(key@, value@),
{
    m.insert(key, value);
}

/// `DashMap::remove`: the hash no longer maps to anything; nothing else changes.
#[verifier::external_body]
pub(crate) fn node_table_remove(m: &mut DashMap<TransactionHash, DagNode, RandomState>, key: &TransactionHash)
    ensures
        node_table(*final(m)) == node_table(*old(m)).remove(key@),
{
    m.remove(key);
}

/// `DashMap::iter`, the keys copied out: every key once, in an order the map's
/// hashing decides (not stated).
#[verifier::external_body]
pub(crate) fn node_table_keys(m: &DashMap<TransactionHash, DagNode, RandomState>) -> (v: Vec<TransactionHash>)
    ensures
        lists_keys(v@.map_values(|h: TransactionHash| h@), node_table(*m)),
{
    m.iter().map(|e| *e.key()).collect()
}

// ─── Pending transactions ───────────────────────────────────────────────────

/// What a map from transaction hash to transaction holds, each as its view.
pub uninterp spec fn tx_table(m: DashMap<TransactionHash, Transaction, RandomState>) -> Map<Seq<u8>, TxView>;

/// `DashMap::new`: an empty map.
#[verifier::external_body]
pub(crate) fn tx_table_new() -> (m: DashMap<TransactionHash, Transaction, RandomState>)
    ensures
        tx_table(m).dom().len() == 0,
        tx_table(m).dom().finite(),
{
    DashMap::new()
}

/// `DashMap::get`, the transaction cloned out.
#[verifier::external_body]
pub(crate) fn tx_table_get(m: &DashMap<TransactionHash, Transaction, RandomState>, key: &TransactionHash) -> (r:
    Option<Transaction>)
    ensures
        r is Some <==> tx_table(*m).contains_key(key@),
        r matches Some(t) ==> t@ == tx_table(*m)[key@],
{
    m.get(key).map(|e| e.value().clone())
}

/// `DashMap::contains_key`.
#[verifier::external_body]
pub(crate) fn tx_table_contains(m: &DashMap<TransactionHash, Transaction, RandomState>, key: &TransactionHash) -> (b:
    bool)
    ensures
        b == tx_table(*m).contains_key(key@),
{
    m.contains_key(key)
}

/// `DashMap::insert`: the hash now maps to the transaction; nothing else changes.
#[verifier::external_body]
pub(crate) fn tx_table_insert(m: &mut DashMap<TransactionHash, Transaction, RandomState>, key: TransactionHash, value: Transaction)
    ensures
        tx_table(*final(m)) == tx_table(*old(m)).insert(key@, value@),
{
    m.insert(key, value);
}

/// `DashMap::remove`: the transaction of the hash, if any, taken out of the map.
#[verifier::external_body]
pub(crate) fn tx_table_remove(m: &mut DashMap<TransactionHash, Transaction, RandomState>, key: &TransactionHash) -> (r:
    Option<Transaction>)
    ensures
        r is Some <==> tx_table(*old(m)).contains_key(key@),
        r matches Some(t) ==> t@ == tx_table(*old(m))[key@],
        tx_table(*final(m)) == tx_table(*old(m)).remove(key@),
{
    m.remove(key).map(|(_, t)| t)
}

/// `DashMap::len`: the number of entries.
#[verifier::external_body]
pub(crate) fn tx_table_len(m: &DashMap<TransactionHash, Transaction, RandomState>) -> (n: usize)
    ensures
        n == tx_table(*m).dom().len(),
{
    m.len()
}

/// `DashMap::iter`, the keys copied out: every key once, in an order the map's
/// hashing decides (not stated).
#[verifier::external_body]
pub(crate) fn tx_table_keys(m: &DashMap<TransactionHash, Transaction, RandomState>) -> (v: Vec<TransactionHash>)
    ensures
        lists_keys(v@.map_values(|h: TransactionHash| h@), tx_table(*m)),
{
    m.iter().map(|e| *e.key()).collect()
}

// ─── Pending hashes by sender ───────────────────────────────────────────────

/// What a map from sender text to pending hashes holds (the hashes as bytes).
pub uninterp spec fn sender_table(
    m: DashMap<String, Vec<TransactionHash>, RandomState>,
) -> Map<Seq<char>, Seq<Seq<u8>>>;

/// `DashMap::new`: an empty map.
#[verifier::external_body]
pub(crate) fn sender_table_new() -> (m: DashMap<String, Vec<TransactionHash>, RandomState>)
    ensures
        sender_table(m).dom().len() == 0,
        sender_table(m).dom().finite(),
{
    DashMap::new()
}

/// `DashMap::get`, the hashes cloned out.
#[verifier::external_body]
pub(crate) fn sender_table_get(m: &DashMap<String, Vec<TransactionHash>, RandomState>, key: &str) -> (r: Option<
    Vec<TransactionHash>,
>)
    ensures
        r is Some <==> sender_table(*m).contains_key(key@),
        r matches Some(v) ==> v@.map_values(|h: TransactionHash| h@) == sender_table(*m)[key@],
{
    m.get(key).map(|e| e.value().clone())
}

/// `DashMap::insert`: the sender now maps to the hashes; nothing else changes.
#[verifier::external_body]
pub(crate) fn sender_table_insert(
    m: &mut DashMap<String, Vec<TransactionHash>, RandomState>,
    key: String,
    value: Vec<TransactionHash>,
)
    ensures
        sender_table(*final(m)) == sender_table(*old(m)).insert(
            key@,
            value@.map_values(|h: TransactionHash| h@),
        ),
{
    m.insert(key, value);
}

/// `DashMap::remove`: the sender no longer maps to anything; nothing else changes.
#[verifier::external_body]
pub(crate) fn sender_table_remove(m: &mut DashMap<String, Vec<TransactionHash>, RandomState>, key: &str)
    ensures
        sender_table(*final(m)) == sender_table(*old(m)).remove(key@),
{
    m.remove(key);
}

// ─── Vote tallies ───────────────────────────────────────────────────────────

/// What a map from transaction hash to vote tally holds, each tally as its view.
pub uninterp spec fn tally_table(m: DashMap<TransactionHash, VoteTally, RandomState>) -> Map<Seq<u8>, TallyView>;

/// `DashMap::new`: an empty map.
#[verifier::external_body]
pub(crate) fn tally_table_new() -> (m: DashMap<TransactionHash, VoteTally, RandomState>)
    ensures
        tally_table(m).dom().len() == 0,
        tally_table(m).dom().finite(),
{
    DashMap::new()
}

/// `DashMap::get`, the tally cloned out.
#[verifier::external_body]
pub(crate) fn tally_table_get(m: &DashMap<TransactionHash, VoteTally, RandomState>, key: &TransactionHash) -> (r:
    Option<VoteTally>)
    ensures
        r is Some <==> tally_table(*m).contains_key(key@),
        r matches Some(t) ==> t@ == tally_table(*m)[key@],
{
    m.get(key).map(|e| e.value().clone())
}

/// `DashMap::insert`: the hash now maps to the tally; nothing else changes.
#[verifier::external_body]
pub(crate) fn tally_table_insert(m: &mut DashMap<TransactionHash, VoteTally, RandomState>, key: TransactionHash, value: VoteTally)
    ensures
        tally_table(*final(m)) == tally_table(*old(m)).insert(key@, value@),
{
    m.insert(key, value);
}

/// `DashMap::remove`: the hash no longer maps to anything; nothing else changes.
#[verifier::external_body]
pub(crate) fn tally_table_remove(m: &mut DashMap<TransactionHash, VoteTally, RandomState>, key: &TransactionHash)
    ensures
        tally_table(*final(m)) == tally_table(*old(m)).remove(key@),
{
    m.remove(key);
}

/// `DashMap::len`: the number of entries.
#[verifier::external_body]
pub(crate) fn tally_table_len(m: &DashMap<TransactionHash, VoteTally, RandomState>) -> (n: usize)
    ensures
        n == tally_table(*m).dom().len(),
{
    m.len()
}

// ─── Connected peers ────────────────────────────────────────────────────────

/// What a map from peer id text to peer information holds, each as its view.
pub uninterp spec fn peer_table(m: DashMap<String, PeerInfo, RandomState>) -> Map<Seq<char>, PeerView>;

/// `DashMap::new`: an empty map.
#[verifier::external_body]
pub(crate) fn peer_table_new() -> (m: DashMap<String, PeerInfo, RandomState>)
    ensures
        peer_table(m).dom().len() == 0,
        peer_table(m).dom().finite(),
{
    DashMap::new()
}

/// `DashMap::get`, the information cloned out.
#[verifier::external_body]
pub(crate) fn peer_table_get(m: &DashMap<String, PeerInfo, RandomState>, key: &str) -> (r: Option<PeerInfo>)
    ensures
        r is Some <==> peer_table(*m).contains_key(key@),
        r matches Some(p) ==> p@ == peer_table(*m)[key@],
{
    m.get(key).map(|e| e.value().clone())
}

/// `DashMap::contains_key`.
#[verifier::external_body]
pub(crate) fn peer_table_contains(m: &DashMap<String, PeerInfo, RandomState>, key: &str) -> (b: bool)
    ensures
        b == peer_table(*m).contains_key(key@),
{
    m.contains_key(key)
}

/// `DashMap::insert`: the id now maps to the information; nothing else changes.
#[verifier::external_body]
pub(crate) fn peer_table_insert(m: &mut DashMap<String, PeerInfo, RandomState>, key: String, value: PeerInfo)
    ensures
        peer_table(*final(m)) == peer_table(*old(m)).insert(key@, value@),
{
    m.insert(key, value);
}

/// `DashMap::remove`: the information of the id, if any, taken out of the map.
#[verifier::external_body]
pub(crate) fn peer_table_remove(m: &mut DashMap<String, PeerInfo, RandomState>, key: &str) -> (r: Option<PeerInfo>)
    ensures
        r is Some <==> peer_table(*old(m)).contains_key(key@),
        r matches Some(p) ==> p@ == peer_table(*old(m))[key@],
        peer_table(*final(m)) == peer_table(*old(m)).remove(key@),
{
    m.remove(key).map(|(_, p)| p)
}

/// `DashMap::len`: the number of entries.
#[verifier::external_body]
pub(crate) fn peer_table_len(m: &DashMap<String, PeerInfo, RandomState>) -> (n: usize)
    ensures
        n == peer_table(*m).dom().len(),
{
    m.len()
}

/// `DashMap::iter`, the keys cloned out: every key once, in an order the map's
/// hashing decides (not stated).
#[verifier::external_body]
pub(crate) fn peer_table_keys(m: &DashMap<String, PeerInfo, RandomState>) -> (v: Vec<String>)
    ensures
        lists_keys(v@.map_values(|k: String| k@), peer_table(*m)),
{
    m.iter().map(|e| e.key().clone()).collect()
}

} // verus!
