//! Concurrent hash maps (`dashmap::DashMap`) as the ledger and the DAG hold them:
//! the type, names for what each map holds, and one wrapper per method used.
use vstd::prelude::*;
use dashmap::DashMap;
use std::collections::hash_map::RandomState;
use crate::state::UnstakeRequest;

verus! {

#[verifier::external_type_specification]
#[verifier::external_body]
#[verifier::reject_recursive_types(K)]
#[verifier::reject_recursive_types(V)]
#[verifier::reject_recursive_types(S)]
pub struct ExDashMap<K, V, S>(DashMap<K, V, S>);

/// Whether `v` lists the entries of `m`: each key once, with its value.
pub open spec fn lists_entries<V>(v: Seq<(String, V)>, m: Map<Seq<char>, V>) -> bool {
    &&& m.dom().finite()
    &&& v.len() == m.dom().len()
    &&& forall|i: int|
        0 <= i < v.len() ==> #[trigger] m.contains_key(v[i].0@) && m[v[i].0@] == v[i].1
    &&& forall|i: int, j: int| 0 <= i < j < v.len() ==> #[trigger] v[i].0@ != #[trigger] v[j].0@
    &&& forall|k: Seq<char>| #[trigger] m.contains_key(k) ==> exists|i: int| 0 <= i < v.len() && v[i].0@ == k
}

// ─── Maps from address text to an amount ────────────────────────────────────

/// The empty amount table.
pub open spec fn empty_amounts() -> Map<Seq<char>, u64> {
    Map::empty()
}

/// The empty request table.
pub open spec fn empty_requests() -> Map<Seq<char>, Seq<UnstakeRequest>> {
    Map::empty()
}

/// What a map from address text to an amount holds.
pub uninterp spec fn amount_table(m: DashMap<String, u64, RandomState>) -> Map<Seq<char>, u64>;

/// `DashMap::new`: an empty map.
#[verifier::external_body]
pub(crate) fn amount_table_new() -> (m: DashMap<String, u64, RandomState>)
    ensures
        amount_table(m) == empty_amounts(),
{
    DashMap::new()
}

/// `DashMap::get`, the value copied out: the value stored under `key`, if any.
#[verifier::external_body]
pub(crate) fn amount_table_get(m: &DashMap<String, u64, RandomState>, key: &str) -> (r: Option<u64>)
    ensures
        r == (if amount_table(*m).contains_key(key@) { Some(amount_table(*m)[key@]) } else { None }),
{
    m.get(key).map(|e| *e.value())
}

/// `DashMap::insert`: `key` now maps to `value`; nothing else changes.
#[verifier::external_body]
pub(crate) fn amount_table_insert(m: &mut DashMap<String, u64, RandomState>, key: String, value: u64)
    ensures
        amount_table(*final(m)) == amount_table(*old(m)).insert(key@, value),
{
    m.insert(key, value);
}

/// `DashMap::remove`: the key no longer maps to anything; nothing else changes.
#[verifier::external_body]
pub(crate) fn amount_table_remove(m: &mut DashMap<String, u64, RandomState>, key: &str)
    ensures
        amount_table(*final(m)) == amount_table(*old(m)).remove(key@),
{
    m.remove(key);
}

/// `DashMap::len`: the number of entries.
#[verifier::external_body]
pub(crate) fn amount_table_len(m: &DashMap<String, u64, RandomState>) -> (n: usize)
    ensures
        n == amount_table(*m).dom().len(),
{
    m.len()
}

/// `DashMap::clear`: the map is empty afterwards.
#[verifier::external_body]
pub(crate) fn amount_table_clear(m: &mut DashMap<String, u64, RandomState>)
    ensures
        amount_table(*final(m)) == empty_amounts(),
{
    m.clear();
}

/// `DashMap::iter`, each entry copied out: every entry once, in an order the
/// map's hashing decides (not stated).
#[verifier::external_body]
pub(crate) fn amount_table_entries(m: &DashMap<String, u64, RandomState>) -> (v: Vec<(String, u64)>)
    ensures
        lists_entries(v@, amount_table(*m)),
{
    m.iter().map(|e| (e.key().clone(), *e.value())).collect()
}

// ─── Maps from address text to pending unstake requests ─────────────────────

/// What a map from address text to unstake requests holds.
pub uninterp spec fn unstake_table(
    m: DashMap<String, Vec<UnstakeRequest>, RandomState>,
) -> Map<Seq<char>, Seq<UnstakeRequest>>;

/// `DashMap::new`: an empty map.
#[verifier::external_body]
pub(crate) fn unstake_table_new() -> (m: DashMap<String, Vec<UnstakeRequest>, RandomState>)
    ensures
        unstake_table(m) == empty_requests(),
{
    DashMap::new()
}

/// `DashMap::get`, the requests cloned out: those stored under `key`, if any.
#[verifier::external_body]
pub(crate) fn unstake_table_get(
    m: &DashMap<String, Vec<UnstakeRequest>, RandomState>,
    key: &str,
) -> (r: Option<Vec<UnstakeRequest>>)
    ensures
        r is Some <==> unstake_table(*m).contains_key(key@),
        r matches Some(v) ==> v@ == unstake_table(*m)[key@],
{
    m.get(key).map(|e| e.value().clone())
}

/// `DashMap::insert`: `key` now maps to `value`; nothing else changes.
#[verifier::external_body]
pub(crate) fn unstake_table_insert(
    m: &mut DashMap<String, Vec<UnstakeRequest>, RandomState>,
    key: String,
    value: Vec<UnstakeRequest>,
)
    ensures
        unstake_table(*final(m)) == unstake_table(*old(m)).insert(key@, value@),
{
    m.insert(key, value);
}

/// `DashMap::clear`: the map is empty afterwards.
#[verifier::external_body]
pub(crate) fn unstake_table_clear(m: &mut DashMap<String, Vec<UnstakeRequest>, RandomState>)
    ensures
        unstake_table(*final(m)) == empty_requests(),
{
    m.clear();
}

/// `DashMap::iter`, each entry cloned out: every entry once, in an order the map's
/// hashing decides (not stated).
#[verifier::external_body]
pub(crate) fn unstake_table_entries(
    m: &DashMap<String, Vec<UnstakeRequest>, RandomState>,
) -> (v: Vec<(String, Vec<UnstakeRequest>)>)
    ensures
        m_lists_requests(v@, unstake_table(*m)),
{
    m.iter().map(|e| (e.key().clone(), e.value().clone())).collect()
}

/// Whether `v` lists the entries of `m` (each key once, with its requests).
pub open spec fn m_lists_requests(
    v: Seq<(String, Vec<UnstakeRequest>)>,
    m: Map<Seq<char>, Seq<UnstakeRequest>>,
) -> bool {
    lists_entries(v.map_values(|e: (String, Vec<UnstakeRequest>)| (e.0, e.1@)), m)
}

// ─── Maps from address text to recent submission times ──────────────────────

/// The empty window table.
pub open spec fn empty_windows() -> Map<Seq<char>, Seq<u64>> {
    Map::empty()
}

/// What a map from address text to submission times (ms) holds.
pub uninterp spec fn window_table(m: DashMap<String, Vec<u64>, RandomState>) -> Map<Seq<char>, Seq<u64>>;

/// `DashMap::new`: an empty map.
#[verifier::external_body]
pub(crate) fn window_table_new() -> (m: DashMap<String, Vec<u64>, RandomState>)
    ensures
        window_table(m) == empty_windows(),
{
    DashMap::new()
}

/// `DashMap::get`, the times cloned out: those stored under `key`, if any.
#[verifier::external_body]
pub(crate) fn window_table_get(m: &DashMap<String, Vec<u64>, RandomState>, key: &str) -> (r: Option<Vec<u64>>)
    ensures
        r is Some <==> window_table(*m).contains_key(key@),
        r matches Some(v) ==> v@ == window_table(*m)[key@],
{
    m.get(key).map(|e| e.value().clone())
}

/// `DashMap::insert`: `key` now maps to `value`; nothing else changes.
#[verifier::external_body]
pub(crate) fn window_table_insert(m: &mut DashMap<String, Vec<u64>, RandomState>, key: String, value: Vec<u64>)
    ensures
        window_table(*final(m)) == window_table(*old(m)).insert(key@, value@),
{
    m.insert(key, value);
}

/// `DashMap::remove`: the key no longer maps to anything; nothing else changes.
#[verifier::external_body]
pub(crate) fn window_table_remove(m: &mut DashMap<String, Vec<u64>, RandomState>, key: &str)
    ensures
        window_table(*final(m)) == window_table(*old(m)).remove(key@),
{
    m.remove(key);
}

/// `DashMap::iter`, each key cloned out: every key once, in an order the map's
/// hashing decides (not stated).
#[verifier::external_body]
pub(crate) fn window_table_keys(m: &DashMap<String, Vec<u64>, RandomState>) -> (v: Vec<String>)
    ensures
        v@.len() == window_table(*m).dom().len(),
        forall|i: int| 0 <= i < v@.len() ==> #[trigger] window_table(*m).contains_key(v@[i]@),
        forall|i: int, j: int| 0 <= i < j < v@.len() ==> #[trigger] v@[i]@ != #[trigger] v@[j]@,
        forall|k: Seq<char>| #[trigger] window_table(*m).contains_key(k) ==> exists|i: int|
            0 <= i < v@.len() && v@[i]@ == k,
{
    m.iter().map(|e| e.key().clone()).collect()
}

} // verus!
