//! The account ledger: balances, nonces, stakes and pending unstake requests of
//! every address, with a deterministic state hash and snapshots.
use vstd::prelude::*;
use dashmap::DashMap;
use std::collections::hash_map::RandomState;
use crate::address::{address_text_valid, Address};
use crate::bytes::{extend_bytes, push_u64_le, u64_le};
use crate::crypto::{sha3_256, sha3_digest};
use crate::keyorder::{
    lemma_listing_permutes_canonical, lemma_same_elements_multiset, lemma_sorted_keys,
    lemma_sorted_listing_is_canonical, lemma_sum_by_permutation, lemma_sum_by_prefix,
    lemma_sum_by_push, lemma_sum_by_step, lemma_sum_by_update, sort_listing, sorted_entries,
    sorted_keys, sum_by,
};
use crate::primitives::now_ms;
use vstd::utf8::encode_utf8;
use crate::error::{RelyoError, Result};
use crate::tables::{
    amount_table, amount_table_clear, amount_table_entries, amount_table_get, amount_table_insert,
    amount_table_new, lists_entries, m_lists_requests, unstake_table, unstake_table_clear,
    unstake_table_entries, unstake_table_get, unstake_table_insert, unstake_table_new,
};

verus! {

/// Milliseconds of the unstaking lock period: 30 days.
pub const UNSTAKE_LOCK_MS: u64 = 2_592_000_000;

/// Epochs of the unstaking lock period.
pub const UNSTAKE_LOCK_EPOCHS: u64 = 10;

/// A pending unstake: the amount and when it unlocks.
#[derive(Debug, Clone, Copy, PartialEq, Eq)]
pub struct UnstakeRequest {
    pub amount: u64,
    pub unlock_time_ms: u64,
    pub unlock_epoch: u64,
}

/// The amount stored under `k`, zero when there is none.
pub open spec fn amount_of(m: Map<Seq<char>, u64>, k: Seq<char>) -> u64 {
    if m.contains_key(k) {
        m[k]
    } else {
        0
    }
}

/// Whether a request has unlocked at the given time and epoch: the lock is
/// strict, so both its 30-day time bound and its 10-epoch bound must be reached.
pub open spec fn unlocked(r: UnstakeRequest, now_ms: u64, epoch: u64) -> bool {
    now_ms >= r.unlock_time_ms && epoch >= r.unlock_epoch
}

/// The requests still locked at the given time and epoch, in their order.
pub open spec fn still_locked(reqs: Seq<UnstakeRequest>, now_ms: u64, epoch: u64) -> Seq<
    UnstakeRequest,
> {
    reqs.filter(|r: UnstakeRequest| !unlocked(r, now_ms, epoch))
}

/// The total amount of the requests unlocked at the given time and epoch.
pub open spec fn unlocked_total(reqs: Seq<UnstakeRequest>, now_ms: u64, epoch: u64) -> int
    decreases reqs.len(),
{
    if reqs.len() == 0 {
        0
    } else {
        unlocked_total(reqs.drop_last(), now_ms, epoch) + if unlocked(reqs.last(), now_ms, epoch) {
            reqs.last().amount as int
        } else {
            0
        }
    }
}


/// The bytes of a list of amount entries: each key's UTF-8 text, then the amount
/// in little-endian order.
pub open spec fn amount_entries_bytes(s: Seq<(Seq<char>, u64)>) -> Seq<u8>
    decreases s.len(),
{
    if s.len() == 0 {
        Seq::empty()
    } else {
        amount_entries_bytes(s.drop_last()) + encode_utf8(s.last().0) + u64_le(s.last().1)
    }
}

/// The bytes of a list of requests: amount, unlock time and unlock epoch of each.
pub open spec fn requests_bytes(r: Seq<UnstakeRequest>) -> Seq<u8>
    decreases r.len(),
{
    if r.len() == 0 {
        Seq::empty()
    } else {
        requests_bytes(r.drop_last()) + u64_le(r.last().amount) + u64_le(r.last().unlock_time_ms)
            + u64_le(r.last().unlock_epoch)
    }
}

/// The bytes of a list of request entries: each key's UTF-8 text, then its requests.
pub open spec fn request_entries_bytes(s: Seq<(Seq<char>, Seq<UnstakeRequest>)>) -> Seq<u8>
    decreases s.len(),
{
    if s.len() == 0 {
        Seq::empty()
    } else {
        request_entries_bytes(s.drop_last()) + encode_utf8(s.last().0) + requests_bytes(s.last().1)
    }
}

/// The bytes a state hash commits to: balances, nonces, stakes and unstake requests,
/// each table in ascending address order.
pub open spec fn state_bytes(
    balances: Map<Seq<char>, u64>,
    nonces: Map<Seq<char>, u64>,
    stakes: Map<Seq<char>, u64>,
    unstakes: Map<Seq<char>, Seq<UnstakeRequest>>,
) -> Seq<u8> {
    amount_entries_bytes(sorted_entries(balances)) + amount_entries_bytes(sorted_entries(nonces))
        + amount_entries_bytes(sorted_entries(stakes)) + request_entries_bytes(
        sorted_entries(unstakes),
    )
}

/// The sum of the amounts of a list of entries.
pub open spec fn amounts_sum(s: Seq<(Seq<char>, u64)>) -> int {
    sum_by(s, |e: (Seq<char>, u64)| e.1 as int)
}

/// The sum of the amounts of a list of requests.
pub open spec fn requests_sum(r: Seq<UnstakeRequest>) -> int
    decreases r.len(),
{
    if r.len() == 0 {
        0
    } else {
        requests_sum(r.drop_last()) + r.last().amount
    }
}

/// The sum of all requested amounts of a list of request entries.
pub open spec fn request_entries_sum(s: Seq<(Seq<char>, Seq<UnstakeRequest>)>) -> int {
    sum_by(s, |e: (Seq<char>, Seq<UnstakeRequest>)| requests_sum(e.1))
}

/// The number of entries of a list with a positive amount.
pub open spec fn positive_count(s: Seq<(Seq<char>, u64)>) -> int {
    sum_by(s, |e: (Seq<char>, u64)| if e.1 > 0 { 1int } else { 0int })
}

/// Everything in circulation: all balances, stakes and pending unstakes.
pub open spec fn circulating(
    balances: Map<Seq<char>, u64>,
    stakes: Map<Seq<char>, u64>,
    unstakes: Map<Seq<char>, Seq<UnstakeRequest>>,
) -> int {
    amounts_sum(sorted_entries(balances)) + amounts_sum(sorted_entries(stakes))
        + request_entries_sum(sorted_entries(unstakes))
}

/// A state snapshot: every table listed in ascending address order.
#[derive(Debug, Clone)]
pub struct StateSnapshot {
    pub balances: Vec<(String, u64)>,
    pub nonces: Vec<(String, u64)>,
    pub stakes: Vec<(String, u64)>,
    pub unstake_requests: Vec<(String, Vec<UnstakeRequest>)>,
    /// Fees collected for the validators and not yet paid out.
    pub validator_fees: u64,
    pub state_hash: [u8; 32],
    pub timestamp: u64,
}

/// The view of an amount listing: keys' texts and amounts.
pub open spec fn amount_listing(v: Seq<(String, u64)>) -> Seq<(Seq<char>, u64)> {
    v.map_values(|e: (String, u64)| (e.0@, e.1))
}

/// The view of a request listing: keys' texts and the requests.
pub open spec fn request_listing(v: Seq<(String, Vec<UnstakeRequest>)>) -> Seq<
    (Seq<char>, Seq<UnstakeRequest>),
> {
    v.map_values(|e: (String, Vec<UnstakeRequest>)| (e.0@, e.1@))
}

/// An amount table in ascending key order.
fn sorted_amount_table(m: &DashMap<String, u64, RandomState>) -> (out: Vec<(String, u64)>)
    ensures
        amount_listing(out@) == sorted_entries(amount_table(*m)),
{
    let listing = amount_table_entries(m);
    let out = sort_listing(listing);
    proof {
        let f = |x: u64| x;
        assert(listing@.map_values(|e: (String, u64)| (e.0, f(e.1))) =~= listing@);
        lemma_sorted_listing_is_canonical(listing@, out@, amount_table(*m), f);
        assert(amount_listing(out@) =~= out@.map_values(|e: (String, u64)| (e.0@, f(e.1))));
    }
    out
}

/// A request table in ascending key order.
fn sorted_request_table(m: &DashMap<String, Vec<UnstakeRequest>, RandomState>) -> (out: Vec<
    (String, Vec<UnstakeRequest>),
>)
    ensures
        request_listing(out@) == sorted_entries(unstake_table(*m)),
{
    let listing = unstake_table_entries(m);
    let out = sort_listing(listing);
    proof {
        let f = |x: Vec<UnstakeRequest>| x@;
        assert(listing@.map_values(|e: (String, Vec<UnstakeRequest>)| (e.0, f(e.1)))
            =~= listing@.map_values(|e: (String, Vec<UnstakeRequest>)| (e.0, e.1@)));
        lemma_sorted_listing_is_canonical(listing@, out@, unstake_table(*m), f);
        assert(request_listing(out@) =~= out@.map_values(
            |e: (String, Vec<UnstakeRequest>)| (e.0@, f(e.1)),
        ));
    }
    out
}

/// Append the bytes of an amount listing.
fn push_amount_entries(buf: &mut Vec<u8>, v: &Vec<(String, u64)>)
    ensures
        final(buf)@ == old(buf)@ + amount_entries_bytes(amount_listing(v@)),
{
    let mut i: usize = 0;
    while i < v.len()
        invariant
            i <= v@.len(),
            buf@ == old(buf)@ + amount_entries_bytes(amount_listing(v@.take(i as int))),
        decreases v@.len() - i,
    {
        let ghost before = buf@;
        extend_bytes(buf, v[i].0.as_str().as_bytes());
        push_u64_le(buf, v[i].1);
        proof {
            let s = amount_listing(v@.take(i + 1));
            assert(s.drop_last() =~= amount_listing(v@.take(i as int)));
            assert(s.last() == (v@[i as int].0@, v@[i as int].1));
            assert(buf@ =~= old(buf)@ + amount_entries_bytes(s));
        }
        i = i + 1;
    }
    assert(v@.take(v@.len() as int) =~= v@);
}

/// Append the bytes of a request list.
fn push_requests(buf: &mut Vec<u8>, r: &Vec<UnstakeRequest>)
    ensures
        final(buf)@ == old(buf)@ + requests_bytes(r@),
{
    let mut i: usize = 0;
    while i < r.len()
        invariant
            i <= r@.len(),
            buf@ == old(buf)@ + requests_bytes(r@.take(i as int)),
        decreases r@.len() - i,
    {
        push_u64_le(buf, r[i].amount);
        push_u64_le(buf, r[i].unlock_time_ms);
        push_u64_le(buf, r[i].unlock_epoch);
        proof {
            let s = r@.take(i + 1);
            assert(s.drop_last() =~= r@.take(i as int));
            assert(buf@ =~= old(buf)@ + requests_bytes(s));
        }
        i = i + 1;
    }
    assert(r@.take(r@.len() as int) =~= r@);
}

/// Append the bytes of a request listing.
fn push_request_entries(buf: &mut Vec<u8>, v: &Vec<(String, Vec<UnstakeRequest>)>)
    ensures
        final(buf)@ == old(buf)@ + request_entries_bytes(request_listing(v@)),
{
    let mut i: usize = 0;
    while i < v.len()
        invariant
            i <= v@.len(),
            buf@ == old(buf)@ + request_entries_bytes(request_listing(v@.take(i as int))),
        decreases v@.len() - i,
    {
        extend_bytes(buf, v[i].0.as_str().as_bytes());
        push_requests(buf, &v[i].1);
        proof {
            let s = request_listing(v@.take(i + 1));
            assert(s.drop_last() =~= request_listing(v@.take(i as int)));
            assert(s.last() == (v@[i as int].0@, v@[i as int].1@));
            assert(buf@ =~= old(buf)@ + request_entries_bytes(s));
        }
        i = i + 1;
    }
    assert(v@.take(v@.len() as int) =~= v@);
}


/// The table a listing restores to: its entries whose key is a valid address
/// text, later entries replacing earlier ones.
pub open spec fn restore_entries<V>(s: Seq<(Seq<char>, V)>) -> Map<Seq<char>, V>
    decreases s.len(),
{
    if s.len() == 0 {
        Map::empty()
    } else {
        let m = restore_entries(s.drop_last());
        if address_text_valid(s.last().0) {
            m.insert(s.last().0, s.last().1)
        } else {
            m
        }
    }
}

/// Whether a table is finite and every key of it is a valid address text.
pub open spec fn table_keys_valid<V>(m: Map<Seq<char>, V>) -> bool {
    &&& m.dom().finite()
    &&& forall|k: Seq<char>| #[trigger] m.contains_key(k) ==> address_text_valid(k)
}

/// A copy of a list of requests.
fn copy_requests(r: &Vec<UnstakeRequest>) -> (c: Vec<UnstakeRequest>)
    ensures
        c@ == r@,
{
    let mut c: Vec<UnstakeRequest> = Vec::new();
    let mut i: usize = 0;
    while i < r.len()
        invariant
            i <= r@.len(),
            c@ == r@.take(i as int),
        decreases r@.len() - i,
    {
        c.push(r[i]);
        assert(r@.take(i + 1) =~= r@.take(i as int).push(r@[i as int]));
        i = i + 1;
    }
    assert(r@.take(r@.len() as int) =~= r@);
    c
}

/// The sum of a list of requests.
fn sum_requests(r: &Vec<UnstakeRequest>) -> (t: u64)
    requires
        requests_sum(r@) <= u64::MAX,
    ensures
        t == requests_sum(r@),
{
    let mut t: u64 = 0;
    let mut i: usize = 0;
    while i < r.len()
        invariant
            i <= r@.len(),
            requests_sum(r@) <= u64::MAX,
            t == requests_sum(r@.take(i as int)),
        decreases r@.len() - i,
    {
        proof {
            assert(r@.take(i + 1).drop_last() =~= r@.take(i as int));
            lemma_requests_sum_prefix(r@, i + 1);
        }
        t = t + r[i].amount;
        i = i + 1;
    }
    assert(r@.take(r@.len() as int) =~= r@);
    t
}

proof fn lemma_requests_sum_prefix(r: Seq<UnstakeRequest>, n: int)
    requires
        0 <= n <= r.len(),
    ensures
        0 <= requests_sum(r.take(n)) <= requests_sum(r),
    decreases r.len() - n,
{
    if n < r.len() {
        lemma_requests_sum_prefix(r, n + 1);
        assert(r.take(n + 1).drop_last() =~= r.take(n));
    } else {
        assert(r.take(n) =~= r);
    }
    lemma_requests_sum_nonneg(r.take(n));
}

proof fn lemma_requests_sum_nonneg(r: Seq<UnstakeRequest>)
    ensures
        requests_sum(r) >= 0,
    decreases r.len(),
{
    if r.len() > 0 {
        lemma_requests_sum_nonneg(r.drop_last());
    }
}

/// The ledger state of every address.
pub struct LedgerState {
    balances: DashMap<String, u64, RandomState>,
    nonces: DashMap<String, u64, RandomState>,
    stakes: DashMap<String, u64, RandomState>,
    unstake_requests: DashMap<String, Vec<UnstakeRequest>, RandomState>,
    validator_fees: u64,
}

/// Everything in circulation in a ledger: what its accounts hold and the fees
/// collected for the validators.
pub open spec fn ledger_circulating(l: LedgerState) -> int {
    circulating(l.balances(), l.stakes(), l.unstakes()) + l.fees()
}

impl LedgerState {
    /// Transaction fees collected for the validators and not yet paid out.
    pub closed spec fn fees(&self) -> u64 {
        self.validator_fees
    }

    /// Balances by address text.
    pub closed spec fn balances(&self) -> Map<Seq<char>, u64> {
        amount_table(self.balances)
    }

    /// Nonces by address text.
    pub closed spec fn nonces(&self) -> Map<Seq<char>, u64> {
        amount_table(self.nonces)
    }

    /// Stakes by address text.
    pub closed spec fn stakes(&self) -> Map<Seq<char>, u64> {
        amount_table(self.stakes)
    }

    /// Pending unstake requests by address text.
    pub closed spec fn unstakes(&self) -> Map<Seq<char>, Seq<UnstakeRequest>> {
        unstake_table(self.unstake_requests)
    }

    /// An empty ledger.
    pub fn new() -> (s: Self)
        ensures
            s.balances() == Map::<Seq<char>, u64>::empty(),
            s.nonces() == Map::<Seq<char>, u64>::empty(),
            s.stakes() == Map::<Seq<char>, u64>::empty(),
            s.unstakes() == Map::<Seq<char>, Seq<UnstakeRequest>>::empty(),
            s.fees() == 0,
    {
        LedgerState {
            balances: amount_table_new(),
            nonces: amount_table_new(),
            stakes: amount_table_new(),
            unstake_requests: unstake_table_new(),
            validator_fees: 0,
        }
    }

    /// The fees collected for the validators and not yet paid out.
    pub fn validator_fees(&self) -> (f: u64)
        ensures
            f == self.fees(),
    {
        self.validator_fees
    }

    /// Collect a transaction fee for the validators; no account changes.
    pub fn collect_fee(&mut self, fee: u64)
        requires
            old(self).fees() + fee <= u64::MAX,
        ensures
            final(self).fees() == old(self).fees() + fee,
            final(self).balances() == old(self).balances(),
            final(self).nonces() == old(self).nonces(),
            final(self).stakes() == old(self).stakes(),
            final(self).unstakes() == old(self).unstakes(),
    {
        self.validator_fees = self.validator_fees + fee;
    }

    /// Pay every collected fee to a validator's balance and return the amount;
    /// nothing leaves circulation.
    pub fn pay_fees_to(&mut self, validator: &Address) -> (paid: u64)
        requires
            amount_of(old(self).balances(), validator@) + old(self).fees() <= u64::MAX,
        ensures
            paid == old(self).fees(),
            final(self).fees() == 0,
            final(self).balances() == old(self).balances().insert(
                validator@,
                (amount_of(old(self).balances(), validator@) + paid) as u64,
            ),
            final(self).nonces() == old(self).nonces(),
            final(self).stakes() == old(self).stakes(),
            final(self).unstakes() == old(self).unstakes(),
    {
        let paid = self.validator_fees;
        let current = self.balance(validator);
        amount_table_insert(&mut self.balances, String::from_str(validator.as_str()), current + paid);
        self.validator_fees = 0;
        paid
    }

    /// The balance of an address (zero if it has none).
    pub fn balance(&self, addr: &Address) -> (b: u64)
        ensures
            b == amount_of(self.balances(), addr@),
    {
        match amount_table_get(&self.balances, addr.as_str()) {
            Some(v) => v,
            None => 0,
        }
    }

    /// The nonce of an address (zero if it has none).
    pub fn nonce(&self, addr: &Address) -> (n: u64)
        ensures
            n == amount_of(self.nonces(), addr@),
    {
        match amount_table_get(&self.nonces, addr.as_str()) {
            Some(v) => v,
            None => 0,
        }
    }

    /// The stake of an address (zero if it has none).
    pub fn stake_balance(&self, addr: &Address) -> (s: u64)
        ensures
            s == amount_of(self.stakes(), addr@),
    {
        match amount_table_get(&self.stakes, addr.as_str()) {
            Some(v) => v,
            None => 0,
        }
    }

    /// Add to a balance; the 64-bit balance wraps around as an atomic add does.
    pub fn credit(&mut self, addr: &Address, amount: u64)
        ensures
            final(self).balances() == old(self).balances().insert(
                addr@,
                vstd::wrapping::u64_specs::wrapping_add(amount_of(old(self).balances(), addr@), amount),
            ),
            final(self).nonces() == old(self).nonces(),
            final(self).stakes() == old(self).stakes(),
            final(self).unstakes() == old(self).unstakes(),
            final(self).fees() == old(self).fees(),
    {
        let current = self.balance(addr);
        amount_table_insert(&mut self.balances, String::from_str(addr.as_str()), current.wrapping_add(amount));
    }

    /// Subtract from a balance. Fails, leaving the balance as it was, when it is
    /// smaller than `amount`; an address without a balance then gets a zero balance.
    pub fn debit(&mut self, addr: &Address, amount: u64) -> (res: Result<()>)
        ensures
            ({
                let have = amount_of(old(self).balances(), addr@);
                &&& have >= amount ==> res is Ok && final(self).balances() == old(
                    self,
                ).balances().insert(addr@, (have - amount) as u64)
                &&& have < amount ==> res == Err::<(), RelyoError>(
                    RelyoError::InsufficientBalance { have, need: amount },
                ) && final(self).balances() == old(self).balances().insert(addr@, have)
            }),
            final(self).nonces() == old(self).nonces(),
            final(self).stakes() == old(self).stakes(),
            final(self).unstakes() == old(self).unstakes(),
            final(self).fees() == old(self).fees(),
    {
        let current = self.balance(addr);
        if current < amount {
            amount_table_insert(&mut self.balances, String::from_str(addr.as_str()), current);
            return Err(RelyoError::InsufficientBalance { have: current, need: amount });
        }
        amount_table_insert(&mut self.balances, String::from_str(addr.as_str()), current - amount);
        Ok(())
    }

    /// Advance an address's nonce by one (wrapping as an atomic add does).
    pub fn increment_nonce(&mut self, addr: &Address)
        ensures
            final(self).nonces() == old(self).nonces().insert(
                addr@,
                vstd::wrapping::u64_specs::wrapping_add(amount_of(old(self).nonces(), addr@), 1),
            ),
            final(self).balances() == old(self).balances(),
            final(self).stakes() == old(self).stakes(),
            final(self).unstakes() == old(self).unstakes(),
            final(self).fees() == old(self).fees(),
    {
        let current = self.nonce(addr);
        amount_table_insert(&mut self.nonces, String::from_str(addr.as_str()), current.wrapping_add(1));
    }

    /// Set a balance.
    pub fn set_balance(&mut self, addr: &Address, amount: u64)
        ensures
            final(self).balances() == old(self).balances().insert(addr@, amount),
            final(self).nonces() == old(self).nonces(),
            final(self).stakes() == old(self).stakes(),
            final(self).unstakes() == old(self).unstakes(),
            final(self).fees() == old(self).fees(),
    {
        amount_table_insert(&mut self.balances, String::from_str(addr.as_str()), amount);
    }

    /// Set a nonce.
    pub fn set_nonce(&mut self, addr: &Address, nonce: u64)
        ensures
            final(self).nonces() == old(self).nonces().insert(addr@, nonce),
            final(self).balances() == old(self).balances(),
            final(self).stakes() == old(self).stakes(),
            final(self).unstakes() == old(self).unstakes(),
            final(self).fees() == old(self).fees(),
    {
        amount_table_insert(&mut self.nonces, String::from_str(addr.as_str()), nonce);
    }

    /// Add to a stake (wrapping as an atomic add does).
    pub fn add_stake(&mut self, addr: &Address, amount: u64)
        ensures
            final(self).stakes() == old(self).stakes().insert(
                addr@,
                vstd::wrapping::u64_specs::wrapping_add(amount_of(old(self).stakes(), addr@), amount),
            ),
            final(self).balances() == old(self).balances(),
            final(self).nonces() == old(self).nonces(),
            final(self).unstakes() == old(self).unstakes(),
            final(self).fees() == old(self).fees(),
    {
        let current = self.stake_balance(addr);
        amount_table_insert(&mut self.stakes, String::from_str(addr.as_str()), current.wrapping_add(amount));
    }

    /// Set a stake.
    pub fn set_stake(&mut self, addr: &Address, amount: u64)
        ensures
            final(self).stakes() == old(self).stakes().insert(addr@, amount),
            final(self).balances() == old(self).balances(),
            final(self).nonces() == old(self).nonces(),
            final(self).unstakes() == old(self).unstakes(),
            final(self).fees() == old(self).fees(),
    {
        amount_table_insert(&mut self.stakes, String::from_str(addr.as_str()), amount);
    }

    /// Subtract from a stake. Fails, leaving the stake as it was, when it is smaller
    /// than `amount`; an address without a stake then gets a zero stake.
    pub fn remove_stake(&mut self, addr: &Address, amount: u64) -> (res: Result<()>)
        ensures
            ({
                let have = amount_of(old(self).stakes(), addr@);
                &&& have >= amount ==> res is Ok && final(self).stakes() == old(self).stakes().insert(
                    addr@,
                    (have - amount) as u64,
                )
                &&& have < amount ==> res == Err::<(), RelyoError>(
                    RelyoError::InsufficientBalance { have, need: amount },
                ) && final(self).stakes() == old(self).stakes().insert(addr@, have)
            }),
            final(self).balances() == old(self).balances(),
            final(self).nonces() == old(self).nonces(),
            final(self).unstakes() == old(self).unstakes(),
            final(self).fees() == old(self).fees(),
    {
        let current = self.stake_balance(addr);
        if current < amount {
            amount_table_insert(&mut self.stakes, String::from_str(addr.as_str()), current);
            return Err(RelyoError::InsufficientBalance { have: current, need: amount });
        }
        amount_table_insert(&mut self.stakes, String::from_str(addr.as_str()), current - amount);
        Ok(())
    }

    /// The pending unstake requests of an address (none if it has none).
    pub fn unbond_requests(&self, addr: &Address) -> (reqs: Vec<UnstakeRequest>)
        ensures
            reqs@ == (if self.unstakes().contains_key(addr@) {
                self.unstakes()[addr@]
            } else {
                Seq::empty()
            }),
    {
        match unstake_table_get(&self.unstake_requests, addr.as_str()) {
            Some(v) => v,
            None => Vec::new(),
        }
    }

    /// Move `amount` from the stake into a new unstake request that unlocks once
    /// both 30 days and 10 epochs have passed.
    pub fn request_unstake(
        &mut self,
        addr: &Address,
        amount: u64,
        current_time_ms: u64,
        current_epoch: u64,
    ) -> (res: Result<()>)
        requires
            current_time_ms + UNSTAKE_LOCK_MS <= u64::MAX,
            current_epoch + UNSTAKE_LOCK_EPOCHS <= u64::MAX,
        ensures
            ({
                let have = amount_of(old(self).stakes(), addr@);
                let before = if old(self).unstakes().contains_key(addr@) {
                    old(self).unstakes()[addr@]
                } else {
                    Seq::empty()
                };
                &&& have >= amount ==> {
                    &&& res is Ok
                    &&& final(self).stakes() == old(self).stakes().insert(addr@, (have - amount) as u64)
                    &&& final(self).unstakes() == old(self).unstakes().insert(
                        addr@,
                        before.push(
                            UnstakeRequest {
                                amount,
                                unlock_time_ms: (current_time_ms + UNSTAKE_LOCK_MS) as u64,
                                unlock_epoch: (current_epoch + UNSTAKE_LOCK_EPOCHS) as u64,
                            },
                        ),
                    )
                }
                &&& have < amount ==> {
                    &&& res == Err::<(), RelyoError>(RelyoError::InsufficientBalance { have, need: amount })
                    &&& final(self).stakes() == old(self).stakes().insert(addr@, have)
                    &&& final(self).unstakes() == old(self).unstakes()
                }
            }),
            final(self).balances() == old(self).balances(),
            final(self).nonces() == old(self).nonces(),
            final(self).fees() == old(self).fees(),
    {
        self.remove_stake(addr, amount)?;
        let mut reqs = self.unbond_requests(addr);
        reqs.push(
            UnstakeRequest {
                amount,
                unlock_time_ms: current_time_ms + UNSTAKE_LOCK_MS,
                unlock_epoch: current_epoch + UNSTAKE_LOCK_EPOCHS,
            },
        );
        unstake_table_insert(&mut self.unstake_requests, String::from_str(addr.as_str()), reqs);
        Ok(())
    }

    /// Whether every address the ledger holds is a valid address text.
    pub open spec fn keys_valid(&self) -> bool {
        &&& table_keys_valid(self.balances())
        &&& table_keys_valid(self.nonces())
        &&& table_keys_valid(self.stakes())
        &&& table_keys_valid(self.unstakes())
    }

    /// The number of addresses with a positive balance.
    pub fn address_count(&self) -> (c: usize)
        ensures
            c == positive_count(sorted_entries(self.balances())),
    {
        let listing = amount_table_entries(&self.balances);
        let ghost lv = amount_listing(listing@);
        let ghost g = |e: (Seq<char>, u64)| if e.1 > 0 { 1int } else { 0int };
        let mut c: usize = 0;
        let mut i: usize = 0;
        while i < listing.len()
            invariant
                i <= listing@.len(),
                lv == amount_listing(listing@),
                g == (|e: (Seq<char>, u64)| if e.1 > 0 { 1int } else { 0int }),
                c == sum_by(lv.take(i as int), g),
                c <= i,
            decreases listing@.len() - i,
        {
            proof {
                lemma_sum_by_step(lv, g, i as int);
            }
            if listing[i].1 > 0 {
                c = c + 1;
            }
            i = i + 1;
        }
        proof {
            assert(lv.take(lv.len() as int) =~= lv);
            lemma_listing_permutes_canonical(listing@, self.balances());
            lemma_sum_by_permutation(lv, sorted_entries(self.balances()), g);
        }
        c
    }

    /// Everything in circulation: all balances, stakes and pending unstakes, and
    /// the fees collected for the validators.
    pub fn total_circulating(&self) -> (t: u64)
        requires
            ledger_circulating(*self) <= u64::MAX,
        ensures
            t == ledger_circulating(*self),
            self.balances().dom().finite(),
    {
        proof {
            assert forall|e: (Seq<char>, Seq<UnstakeRequest>)| #[trigger] requests_sum(e.1) >= 0 by {
                lemma_requests_sum_nonneg(e.1);
            }
            lemma_sum_by_prefix(sorted_entries(self.balances()), |e: (Seq<char>, u64)| e.1 as int, 0);
            lemma_sum_by_prefix(sorted_entries(self.stakes()), |e: (Seq<char>, u64)| e.1 as int, 0);
            lemma_sum_by_prefix(
                sorted_entries(self.unstakes()),
                |e: (Seq<char>, Seq<UnstakeRequest>)| requests_sum(e.1),
                0,
            );
        }
        let b = sum_amount_listing(&self.balances);
        let s = sum_amount_listing(&self.stakes);
        let u = sum_request_listing(&self.unstake_requests);
        b + s + u + self.validator_fees
    }

    /// Everything in circulation (see `total_circulating`), or `None` when it
    /// exceeds 64 bits.
    pub fn checked_total_circulating(&self) -> (t: Option<u64>)
        ensures
            t is Some <==> ledger_circulating(*self) <= u64::MAX,
            t matches Some(v) ==> v == ledger_circulating(*self),
    {
        proof {
            assert forall|e: (Seq<char>, Seq<UnstakeRequest>)| #[trigger] requests_sum(e.1) >= 0 by {
                lemma_requests_sum_nonneg(e.1);
            }
            lemma_sum_by_prefix(sorted_entries(self.balances()), |e: (Seq<char>, u64)| e.1 as int, 0);
            lemma_sum_by_prefix(sorted_entries(self.stakes()), |e: (Seq<char>, u64)| e.1 as int, 0);
            lemma_sum_by_prefix(
                sorted_entries(self.unstakes()),
                |e: (Seq<char>, Seq<UnstakeRequest>)| requests_sum(e.1),
                0,
            );
        }
        let b = match checked_sum_amount_listing(&self.balances) {
            Some(v) => v,
            None => return None,
        };
        let s = match checked_sum_amount_listing(&self.stakes) {
            Some(v) => v,
            None => return None,
        };
        let u = match checked_sum_request_listing(&self.unstake_requests) {
            Some(v) => v,
            None => return None,
        };
        match b.checked_add(s) {
            None => None,
            Some(bs) => match bs.checked_add(u) {
                None => None,
                Some(bsu) => bsu.checked_add(self.validator_fees),
            },
        }
    }

    /// A deterministic hash of the whole state: SHA3-256 of every table in
    /// ascending address order.
    pub fn state_hash(&self) -> (h: [u8; 32])
        ensures
            h@ == sha3_digest(state_bytes(self.balances(), self.nonces(), self.stakes(), self.unstakes())),
    {
        let b = sorted_amount_table(&self.balances);
        let n = sorted_amount_table(&self.nonces);
        let s = sorted_amount_table(&self.stakes);
        let u = sorted_request_table(&self.unstake_requests);
        let mut data: Vec<u8> = Vec::new();
        push_amount_entries(&mut data, &b);
        push_amount_entries(&mut data, &n);
        push_amount_entries(&mut data, &s);
        push_request_entries(&mut data, &u);
        proof {
            assert(data@ =~= state_bytes(self.balances(), self.nonces(), self.stakes(), self.unstakes()));
        }
        sha3_256(data.as_slice())
    }

    /// A snapshot of the current state: every table in ascending address order,
    /// the state hash, and the time it was taken.
    pub fn create_snapshot(&self) -> (snap: StateSnapshot)
        ensures
            amount_listing(snap.balances@) == sorted_entries(self.balances()),
            amount_listing(snap.nonces@) == sorted_entries(self.nonces()),
            amount_listing(snap.stakes@) == sorted_entries(self.stakes()),
            request_listing(snap.unstake_requests@) == sorted_entries(self.unstakes()),
            snap.validator_fees == self.fees(),
            snap.state_hash@ == sha3_digest(
                state_bytes(self.balances(), self.nonces(), self.stakes(), self.unstakes()),
            ),
    {
        let balances = sorted_amount_table(&self.balances);
        let nonces = sorted_amount_table(&self.nonces);
        let stakes = sorted_amount_table(&self.stakes);
        let unstake_requests = sorted_request_table(&self.unstake_requests);
        let state_hash = self.state_hash();
        StateSnapshot {
            balances,
            nonces,
            stakes,
            unstake_requests,
            validator_fees: self.validator_fees,
            state_hash,
            timestamp: now_ms(),
        }
    }

    /// Replace the state by a snapshot's tables; entries whose address does not
    /// parse are skipped.
    pub fn restore_from_snapshot(&mut self, snapshot: &StateSnapshot)
        ensures
            final(self).balances() == restore_entries(amount_listing(snapshot.balances@)),
            final(self).nonces() == restore_entries(amount_listing(snapshot.nonces@)),
            final(self).stakes() == restore_entries(amount_listing(snapshot.stakes@)),
            final(self).unstakes() == restore_entries(request_listing(snapshot.unstake_requests@)),
            final(self).fees() == snapshot.validator_fees,
    {
        amount_table_clear(&mut self.balances);
        amount_table_clear(&mut self.nonces);
        amount_table_clear(&mut self.stakes);
        unstake_table_clear(&mut self.unstake_requests);
        restore_amounts(&mut self.balances, &snapshot.balances);
        restore_amounts(&mut self.nonces, &snapshot.nonces);
        restore_amounts(&mut self.stakes, &snapshot.stakes);
        restore_requests(&mut self.unstake_requests, &snapshot.unstake_requests);
        self.validator_fees = snapshot.validator_fees;
    }

    /// Release the requests of an address that have unlocked: they leave the
    /// pending list and their total is credited to the balance and returned.
    pub fn process_unstakes(&mut self, addr: &Address, current_time_ms: u64, current_epoch: u64) -> (unlocked_amount: u64)
        requires
            old(self).unstakes().contains_key(addr@) ==> unlocked_total(
                old(self).unstakes()[addr@],
                current_time_ms,
                current_epoch,
            ) <= u64::MAX,
        ensures
            ({
                let present = old(self).unstakes().contains_key(addr@);
                let reqs = old(self).unstakes()[addr@];
                &&& !present ==> unlocked_amount == 0 && final(self).unstakes() == old(self).unstakes()
                &&& present ==> unlocked_amount == unlocked_total(reqs, current_time_ms, current_epoch)
                    && final(self).unstakes() == old(self).unstakes().insert(
                    addr@,
                    still_locked(reqs, current_time_ms, current_epoch),
                )
                &&& unlocked_amount > 0 ==> final(self).balances() == old(self).balances().insert(
                    addr@,
                    vstd::wrapping::u64_specs::wrapping_add(
                        amount_of(old(self).balances(), addr@),
                        unlocked_amount,
                    ),
                )
                &&& unlocked_amount == 0 ==> final(self).balances() == old(self).balances()
            }),
            final(self).nonces() == old(self).nonces(),
            final(self).stakes() == old(self).stakes(),
            final(self).fees() == old(self).fees(),
    {
        let mut unlocked_amount: u64 = 0;
        match unstake_table_get(&self.unstake_requests, addr.as_str()) {
            None => {},
            Some(reqs) => {
                let ghost all = reqs@;
                let mut kept: Vec<UnstakeRequest> = Vec::new();
                let mut i: usize = 0;
                while i < reqs.len()
                    invariant
                        i <= reqs@.len(),
                        all == reqs@,
                        unlocked_total(all, current_time_ms, current_epoch) <= u64::MAX,
                        unlocked_amount == unlocked_total(all.take(i as int), current_time_ms, current_epoch),
                        kept@ == still_locked(all.take(i as int), current_time_ms, current_epoch),
                    decreases reqs@.len() - i,
                {
                    let r = reqs[i];
                    proof {
                        assert(all.take(i + 1).drop_last() =~= all.take(i as int));
                        lemma_unlocked_total_prefix(all, current_time_ms, current_epoch, i + 1);
                        reveal_with_fuel(Seq::filter, 1);
                    }
                    if current_time_ms >= r.unlock_time_ms && current_epoch >= r.unlock_epoch {
                        unlocked_amount = unlocked_amount + r.amount;
                    } else {
                        kept.push(r);
                    }
                    proof {
                        assert(all.take(i + 1).last() == r);
                    }
                    i = i + 1;
                }
                proof {
                    assert(all.take(all.len() as int) =~= all);
                }
                unstake_table_insert(&mut self.unstake_requests, String::from_str(addr.as_str()), kept);
            },
        }
        if unlocked_amount > 0 {
            self.credit(addr, unlocked_amount);
        }
        unlocked_amount
    }
}

/// The sum of an amount table's values.
fn sum_amount_listing(m: &DashMap<String, u64, RandomState>) -> (t: u64)
    requires
        amounts_sum(sorted_entries(amount_table(*m))) <= u64::MAX,
    ensures
        t == amounts_sum(sorted_entries(amount_table(*m))),
        amount_table(*m).dom().finite(),
{
    let listing = amount_table_entries(m);
    let ghost lv = amount_listing(listing@);
    let ghost g = |e: (Seq<char>, u64)| e.1 as int;
    proof {
        lemma_listing_permutes_canonical(listing@, amount_table(*m));
        lemma_sum_by_permutation(lv, sorted_entries(amount_table(*m)), g);
    }
    let mut t: u64 = 0;
    let mut i: usize = 0;
    while i < listing.len()
        invariant
            i <= listing@.len(),
            lv == amount_listing(listing@),
            g == (|e: (Seq<char>, u64)| e.1 as int),
            sum_by(lv, g) <= u64::MAX,
            t == sum_by(lv.take(i as int), g),
        decreases listing@.len() - i,
    {
        proof {
            lemma_sum_by_step(lv, g, i as int);
            lemma_sum_by_prefix(lv, g, i + 1);
        }
        t = t + listing[i].1;
        i = i + 1;
    }
    assert(lv.take(lv.len() as int) =~= lv);
    t
}

/// The sum of all amounts requested in a request table.
fn sum_request_listing(m: &DashMap<String, Vec<UnstakeRequest>, RandomState>) -> (t: u64)
    requires
        request_entries_sum(sorted_entries(unstake_table(*m))) <= u64::MAX,
    ensures
        t == request_entries_sum(sorted_entries(unstake_table(*m))),
{
    let listing = unstake_table_entries(m);
    let ghost lv = request_listing(listing@);
    let ghost g = |e: (Seq<char>, Seq<UnstakeRequest>)| requests_sum(e.1);
    proof {
        let mid = listing@.map_values(|e: (String, Vec<UnstakeRequest>)| (e.0, e.1@));
        lemma_listing_permutes_canonical(mid, unstake_table(*m));
        assert(mid.map_values(|e: (String, Seq<UnstakeRequest>)| (e.0@, e.1)) =~= lv);
        lemma_sum_by_permutation(lv, sorted_entries(unstake_table(*m)), g);
        assert forall|e: (Seq<char>, Seq<UnstakeRequest>)| #[trigger] g(e) >= 0 by {
            lemma_requests_sum_nonneg(e.1);
        }
    }
    let mut t: u64 = 0;
    let mut i: usize = 0;
    while i < listing.len()
        invariant
            i <= listing@.len(),
            lv == request_listing(listing@),
            g == (|e: (Seq<char>, Seq<UnstakeRequest>)| requests_sum(e.1)),
            forall|e: (Seq<char>, Seq<UnstakeRequest>)| #[trigger] g(e) >= 0,
            sum_by(lv, g) <= u64::MAX,
            t == sum_by(lv.take(i as int), g),
        decreases listing@.len() - i,
    {
        proof {
            lemma_sum_by_step(lv, g, i as int);
            lemma_sum_by_prefix(lv, g, i + 1);
            assert(lv[i as int].1 == listing@[i as int].1@);
        }
        let r = sum_requests(&listing[i].1);
        t = t + r;
        i = i + 1;
    }
    assert(lv.take(lv.len() as int) =~= lv);
    t
}

/// The sum of a list of requests, or `None` when it exceeds 64 bits.
fn checked_sum_requests(r: &Vec<UnstakeRequest>) -> (t: Option<u64>)
    ensures
        t is Some <==> requests_sum(r@) <= u64::MAX,
        t matches Some(v) ==> v == requests_sum(r@),
{
    let mut t: u64 = 0;
    let mut i: usize = 0;
    while i < r.len()
        invariant
            i <= r@.len(),
            t == requests_sum(r@.take(i as int)),
        decreases r@.len() - i,
    {
        proof {
            assert(r@.take(i + 1).drop_last() =~= r@.take(i as int));
            lemma_requests_sum_prefix(r@, i + 1);
        }
        match t.checked_add(r[i].amount) {
            Some(v) => {
                t = v;
            },
            None => {
                return None;
            },
        }
        i = i + 1;
    }
    assert(r@.take(r@.len() as int) =~= r@);
    Some(t)
}

/// The sum of an amount table, or `None` when it exceeds 64 bits.
fn checked_sum_amount_listing(m: &DashMap<String, u64, RandomState>) -> (t: Option<u64>)
    ensures
        t is Some <==> amounts_sum(sorted_entries(amount_table(*m))) <= u64::MAX,
        t matches Some(v) ==> v == amounts_sum(sorted_entries(amount_table(*m))),
{
    let listing = amount_table_entries(m);
    let ghost lv = amount_listing(listing@);
    let ghost g = |e: (Seq<char>, u64)| e.1 as int;
    proof {
        lemma_listing_permutes_canonical(listing@, amount_table(*m));
        lemma_sum_by_permutation(lv, sorted_entries(amount_table(*m)), g);
    }
    let mut t: u64 = 0;
    let mut i: usize = 0;
    while i < listing.len()
        invariant
            i <= listing@.len(),
            lv == amount_listing(listing@),
            g == (|e: (Seq<char>, u64)| e.1 as int),
            sum_by(lv, g) == amounts_sum(sorted_entries(amount_table(*m))),
            t == sum_by(lv.take(i as int), g),
        decreases listing@.len() - i,
    {
        proof {
            lemma_sum_by_step(lv, g, i as int);
            lemma_sum_by_prefix(lv, g, i + 1);
        }
        match t.checked_add(listing[i].1) {
            Some(v) => {
                t = v;
            },
            None => {
                return None;
            },
        }
        i = i + 1;
    }
    assert(lv.take(lv.len() as int) =~= lv);
    Some(t)
}

/// The sum of all amounts requested in a request table, or `None` when it
/// exceeds 64 bits.
fn checked_sum_request_listing(m: &DashMap<String, Vec<UnstakeRequest>, RandomState>) -> (t: Option<u64>)
    ensures
        t is Some <==> request_entries_sum(sorted_entries(unstake_table(*m))) <= u64::MAX,
        t matches Some(v) ==> v == request_entries_sum(sorted_entries(unstake_table(*m))),
{
    let listing = unstake_table_entries(m);
    let ghost lv = request_listing(listing@);
    let ghost g = |e: (Seq<char>, Seq<UnstakeRequest>)| requests_sum(e.1);
    proof {
        let mid = listing@.map_values(|e: (String, Vec<UnstakeRequest>)| (e.0, e.1@));
        lemma_listing_permutes_canonical(mid, unstake_table(*m));
        assert(mid.map_values(|e: (String, Seq<UnstakeRequest>)| (e.0@, e.1)) =~= lv);
        lemma_sum_by_permutation(lv, sorted_entries(unstake_table(*m)), g);
        assert forall|e: (Seq<char>, Seq<UnstakeRequest>)| #[trigger] g(e) >= 0 by {
            lemma_requests_sum_nonneg(e.1);
        }
    }
    let mut t: u64 = 0;
    let mut i: usize = 0;
    while i < listing.len()
        invariant
            i <= listing@.len(),
            lv == request_listing(listing@),
            g == (|e: (Seq<char>, Seq<UnstakeRequest>)| requests_sum(e.1)),
            forall|e: (Seq<char>, Seq<UnstakeRequest>)| #[trigger] g(e) >= 0,
            sum_by(lv, g) == request_entries_sum(sorted_entries(unstake_table(*m))),
            t == sum_by(lv.take(i as int), g),
        decreases listing@.len() - i,
    {
        proof {
            lemma_sum_by_step(lv, g, i as int);
            lemma_sum_by_prefix(lv, g, i + 1);
            assert(lv[i as int].1 == listing@[i as int].1@);
        }
        let r = match checked_sum_requests(&listing[i].1) {
            Some(v) => v,
            None => {
                return None;
            },
        };
        match t.checked_add(r) {
            Some(v) => {
                t = v;
            },
            None => {
                return None;
            },
        }
        i = i + 1;
    }
    assert(lv.take(lv.len() as int) =~= lv);
    Some(t)
}

/// Set the amounts of the listed entries whose address parses.
fn restore_amounts(m: &mut DashMap<String, u64, RandomState>, v: &Vec<(String, u64)>)
    requires
        amount_table(*old(m)) == Map::<Seq<char>, u64>::empty(),
    ensures
        amount_table(*final(m)) == restore_entries(amount_listing(v@)),
{
    let mut i: usize = 0;
    assert(v@.take(0) =~= Seq::<(String, u64)>::empty());
    assert(amount_listing(v@.take(0)) =~= Seq::<(Seq<char>, u64)>::empty());
    while i < v.len()
        invariant
            i <= v@.len(),
            amount_table(*m) == restore_entries(amount_listing(v@.take(i as int))),
        decreases v@.len() - i,
    {
        proof {
            let s = amount_listing(v@.take(i + 1));
            assert(s.drop_last() =~= amount_listing(v@.take(i as int)));
            assert(s.last() == (v@[i as int].0@, v@[i as int].1));
        }
        match Address::parse(v[i].0.as_str()) {
            Ok(addr) => {
                amount_table_insert(m, String::from_str(addr.as_str()), v[i].1);
            },
            Err(_) => {},
        }
        i = i + 1;
    }
    assert(v@.take(v@.len() as int) =~= v@);
}

/// Set the requests of the listed entries whose address parses.
fn restore_requests(
    m: &mut DashMap<String, Vec<UnstakeRequest>, RandomState>,
    v: &Vec<(String, Vec<UnstakeRequest>)>,
)
    requires
        unstake_table(*old(m)) == Map::<Seq<char>, Seq<UnstakeRequest>>::empty(),
    ensures
        unstake_table(*final(m)) == restore_entries(request_listing(v@)),
{
    let mut i: usize = 0;
    assert(request_listing(v@.take(0)) =~= Seq::<(Seq<char>, Seq<UnstakeRequest>)>::empty());
    while i < v.len()
        invariant
            i <= v@.len(),
            unstake_table(*m) == restore_entries(request_listing(v@.take(i as int))),
        decreases v@.len() - i,
    {
        proof {
            let s = request_listing(v@.take(i + 1));
            assert(s.drop_last() =~= request_listing(v@.take(i as int)));
            assert(s.last() == (v@[i as int].0@, v@[i as int].1@));
        }
        match Address::parse(v[i].0.as_str()) {
            Ok(addr) => {
                let reqs = copy_requests(&v[i].1);
                unstake_table_insert(m, String::from_str(addr.as_str()), reqs);
            },
            Err(_) => {},
        }
        i = i + 1;
    }
    assert(v@.take(v@.len() as int) =~= v@);
}

impl Default for LedgerState {
    fn default() -> (s: Self)
        ensures
            s.balances() == Map::<Seq<char>, u64>::empty(),
            s.nonces() == Map::<Seq<char>, u64>::empty(),
            s.stakes() == Map::<Seq<char>, u64>::empty(),
            s.unstakes() == Map::<Seq<char>, Seq<UnstakeRequest>>::empty(),
    {
        Self::new()
    }
}

/// Restoring a listing of distinct valid keys gives back exactly its entries.
proof fn lemma_restore_distinct<V>(s: Seq<(Seq<char>, V)>)
    requires
        forall|i: int| 0 <= i < s.len() ==> address_text_valid(#[trigger] s[i].0),
        forall|i: int, j: int| 0 <= i < j < s.len() ==> #[trigger] s[i].0 != #[trigger] s[j].0,
    ensures
        forall|k: Seq<char>|
            #[trigger] restore_entries(s).contains_key(k) <==> exists|i: int| 0 <= i < s.len() && s[i].0 == k,
        forall|i: int| 0 <= i < s.len() ==> #[trigger] restore_entries(s)[s[i].0] == s[i].1,
    decreases s.len(),
{
    if s.len() > 0 {
        let n = s.len() - 1;
        let t = s.drop_last();
        lemma_restore_distinct(t);
        assert(address_text_valid(s[n].0));
        let rt = restore_entries(t);
        let r = restore_entries(s);
        assert(r == rt.insert(s[n].0, s[n].1));
        assert forall|k: Seq<char>| #[trigger] r.contains_key(k) <==> exists|i: int| 0 <= i < s.len() && s[i].0 == k by {
            if r.contains_key(k) {
                if k == s[n].0 {
                    assert(0 <= n < s.len() && s[n].0 == k);
                } else {
                    assert(rt.contains_key(k));
                    let i = choose|i: int| 0 <= i < t.len() && t[i].0 == k;
                    assert(t[i] == s[i]);
                    assert(0 <= i < s.len() && s[i].0 == k);
                }
            }
            if exists|i: int| 0 <= i < s.len() && s[i].0 == k {
                let i = choose|i: int| 0 <= i < s.len() && s[i].0 == k;
                if i < n {
                    assert(t[i] == s[i]);
                    assert(exists|j: int| 0 <= j < t.len() && t[j].0 == k);
                    assert(rt.contains_key(k));
                }
            }
        }
        assert forall|i: int| 0 <= i < s.len() implies #[trigger] r[s[i].0] == s[i].1 by {
            if i < n {
                assert(t[i] == s[i]);
                assert(s[i].0 != s[n].0);
                assert(rt[t[i].0] == t[i].1);
            }
        }
    }
}

/// Restoring a table's sorted entries gives back the table, when its keys are valid.
proof fn lemma_restore_sorted<V>(m: Map<Seq<char>, V>)
    requires
        table_keys_valid(m),
    ensures
        restore_entries(sorted_entries(m)) == m,
{
    crate::keyorder::lemma_sorted_keys(m);
    let s = sorted_entries(m);
    let ks = crate::keyorder::sorted_keys(m);
    assert forall|i: int| 0 <= i < s.len() implies address_text_valid(#[trigger] s[i].0) by {
        assert(ks.contains(ks[i]));
    }
    assert forall|i: int, j: int| 0 <= i < j < s.len() implies #[trigger] s[i].0 != #[trigger] s[j].0 by {
        assert(ks[i] != ks[j]);
    }
    lemma_restore_distinct(s);
    let r = restore_entries(s);
    assert forall|k: Seq<char>| r.contains_key(k) <==> m.contains_key(k) by {
        if m.contains_key(k) {
            assert(ks.contains(k));
            let i = choose|i: int| 0 <= i < ks.len() && ks[i] == k;
            assert(s[i].0 == k);
        }
        if r.contains_key(k) {
            let i = choose|i: int| 0 <= i < s.len() && s[i].0 == k;
            assert(ks.contains(ks[i]));
        }
    }
    assert forall|k: Seq<char>| #[trigger] r.contains_key(k) implies r[k] == m[k] by {
        let i = choose|i: int| 0 <= i < s.len() && s[i].0 == k;
        assert(r[s[i].0] == s[i].1);
    }
    assert(r =~= m);
}

/// Restoring a snapshot of a ledger whose addresses are all valid gives back the
/// same tables, hence the same state hash.
pub proof fn law_snapshot_roundtrip(s: LedgerState)
    requires
        s.keys_valid(),
    ensures
        restore_entries(sorted_entries(s.balances())) == s.balances(),
        restore_entries(sorted_entries(s.nonces())) == s.nonces(),
        restore_entries(sorted_entries(s.stakes())) == s.stakes(),
        restore_entries(sorted_entries(s.unstakes())) == s.unstakes(),
        state_bytes(
            restore_entries(sorted_entries(s.balances())),
            restore_entries(sorted_entries(s.nonces())),
            restore_entries(sorted_entries(s.stakes())),
            restore_entries(sorted_entries(s.unstakes())),
        ) == state_bytes(s.balances(), s.nonces(), s.stakes(), s.unstakes()),
{
    lemma_restore_sorted(s.balances());
    lemma_restore_sorted(s.nonces());
    lemma_restore_sorted(s.stakes());
    lemma_restore_sorted(s.unstakes());
}

/// Debiting what was just credited gives back the balance held before, when the
/// credit did not wrap around.
pub proof fn law_credit_then_debit(balances: Map<Seq<char>, u64>, addr: Seq<char>, amount: u64)
    requires
        amount_of(balances, addr) + amount <= u64::MAX,
    ensures
        ({
            let credited = balances.insert(
                addr,
                vstd::wrapping::u64_specs::wrapping_add(amount_of(balances, addr), amount),
            );
            &&& amount_of(credited, addr) >= amount
            &&& credited.insert(addr, (amount_of(credited, addr) - amount) as u64) == balances.insert(
                addr,
                amount_of(balances, addr),
            )
        }),
{
    let credited = balances.insert(
        addr,
        vstd::wrapping::u64_specs::wrapping_add(amount_of(balances, addr), amount),
    );
    assert(credited.insert(addr, (amount_of(credited, addr) - amount) as u64) =~= balances.insert(
        addr,
        amount_of(balances, addr),
    ));
}

/// Storing `v` under `k` changes the sum of a finite table's amounts by `v`
/// less what `k` held before.
pub proof fn lemma_amounts_sum_insert(m: Map<Seq<char>, u64>, k: Seq<char>, v: u64)
    requires
        m.dom().finite(),
    ensures
        amounts_sum(sorted_entries(m.insert(k, v))) + amount_of(m, k) == amounts_sum(sorted_entries(m))
            + v,
{
    let g = |e: (Seq<char>, u64)| e.1 as int;
    let m2 = m.insert(k, v);
    let a = sorted_entries(m);
    let b = sorted_entries(m2);
    lemma_sorted_keys(m);
    lemma_sorted_keys(m2);
    let ks = sorted_keys(m);
    let ks2 = sorted_keys(m2);
    if m.contains_key(k) {
        assert(m2.dom() =~= m.dom());
        assert(ks2 == ks);
        let i = ks.index_of(k);
        assert(b =~= a.update(i, (k, v)));
        lemma_sum_by_update(a, g, i, (k, v));
    } else {
        let c = a.push((k, v));
        assert forall|x: (Seq<char>, u64)| c.contains(x) <==> b.contains(x) by {
            if c.contains(x) {
                let j = choose|j: int| 0 <= j < c.len() && c[j] == x;
                if j < a.len() {
                    assert(ks.contains(ks[j]));
                    assert(m2.contains_key(ks[j]));
                    assert(ks2.contains(ks[j]));
                    let j2 = ks2.index_of(ks[j]);
                    assert(b[j2] == x);
                } else {
                    assert(ks2.contains(k));
                    let j2 = ks2.index_of(k);
                    assert(b[j2] == x);
                }
            }
            if b.contains(x) {
                let j = choose|j: int| 0 <= j < b.len() && b[j] == x;
                assert(ks2.contains(ks2[j]));
                if ks2[j] == k {
                    assert(c[a.len() as int] == x);
                } else {
                    assert(ks.contains(ks2[j]));
                    let j2 = ks.index_of(ks2[j]);
                    assert(c[j2] == x);
                }
            }
        }
        assert(c.no_duplicates()) by {
            assert forall|i: int, j: int| 0 <= i < c.len() && 0 <= j < c.len() && i != j implies c[i]
                != c[j] by {
                if i < a.len() && j < a.len() {
                    assert(ks[i] != ks[j]);
                } else if i < a.len() {
                    assert(ks.contains(ks[i]));
                } else {
                    assert(ks.contains(ks[j]));
                }
            }
        }
        assert(b.no_duplicates()) by {
            assert forall|i: int, j: int| 0 <= i < b.len() && 0 <= j < b.len() && i != j implies b[i]
                != b[j] by {
                assert(ks2[i] != ks2[j]);
            }
        }
        lemma_same_elements_multiset(c, b);
        lemma_sum_by_permutation(c, b, g);
        lemma_sum_by_push(a, g, (k, v));
    }
}

/// The balances' sum is a non-negative part of the circulating supply.
pub proof fn lemma_balances_within_circulating(
    balances: Map<Seq<char>, u64>,
    stakes: Map<Seq<char>, u64>,
    unstakes: Map<Seq<char>, Seq<UnstakeRequest>>,
)
    ensures
        0 <= amounts_sum(sorted_entries(balances)) <= circulating(balances, stakes, unstakes),
{
    assert forall|e: (Seq<char>, Seq<UnstakeRequest>)| #[trigger] requests_sum(e.1) >= 0 by {
        lemma_requests_sum_nonneg(e.1);
    }
    lemma_sum_by_prefix(sorted_entries(balances), |e: (Seq<char>, u64)| e.1 as int, 0);
    lemma_sum_by_prefix(sorted_entries(stakes), |e: (Seq<char>, u64)| e.1 as int, 0);
    lemma_sum_by_prefix(
        sorted_entries(unstakes),
        |e: (Seq<char>, Seq<UnstakeRequest>)| requests_sum(e.1),
        0,
    );
}

/// The unlocked total of a prefix never exceeds that of the whole list.
proof fn lemma_unlocked_total_prefix(reqs: Seq<UnstakeRequest>, now_ms: u64, epoch: u64, n: int)
    requires
        0 <= n <= reqs.len(),
    ensures
        0 <= unlocked_total(reqs.take(n), now_ms, epoch) <= unlocked_total(reqs, now_ms, epoch),
    decreases reqs.len() - n,
{
    if n < reqs.len() {
        lemma_unlocked_total_prefix(reqs, now_ms, epoch, n + 1);
        assert(reqs.take(n + 1).drop_last() =~= reqs.take(n));
    } else {
        assert(reqs.take(n) =~= reqs);
    }
    lemma_unlocked_total_nonneg(reqs.take(n), now_ms, epoch);
}

proof fn lemma_unlocked_total_nonneg(reqs: Seq<UnstakeRequest>, now_ms: u64, epoch: u64)
    ensures
        unlocked_total(reqs, now_ms, epoch) >= 0,
    decreases reqs.len(),
{
    if reqs.len() > 0 {
        lemma_unlocked_total_nonneg(reqs.drop_last(), now_ms, epoch);
    }
}

} // verus!
