//! The DAG: vertices keyed by transaction hash, with the ledger, the tips and the
//! conflict detector it updates as transactions are inserted.
use vstd::prelude::*;
use dashmap::DashMap;
use std::collections::hash_map::RandomState;
use crate::address::Address;
use crate::codec::hex_text;
use crate::conflict::{ConflictDetector, ConflictResult};
use crate::constants::RLY_UNIT;
use crate::dag_tables::{
    lists_keys, node_table, node_table_contains, node_table_get, node_table_insert, node_table_keys,
    node_table_new, node_table_remove,
};
use crate::error::{RelyoError, Result};
use crate::state::{
    amount_of, amounts_sum, circulating, ledger_circulating, lemma_amounts_sum_insert,
    lemma_balances_within_circulating, LedgerState,
};
use crate::keyorder::sorted_entries;
use crate::tips::{hash_views, TipSelector};
use crate::token::{decimal, decimal_string};
use crate::transaction::{
    is_genesis_tx, tx_hash_of, tx_valid, Transaction, TransactionHash, TransactionStatus, TxView,
};

verus! {

/// The supply cap: 25 billion RLY.
pub const SUPPLY_CAP: u64 = 25_000_000_000 * RLY_UNIT;

/// A vertex of the DAG.
#[derive(Debug)]
pub struct DagNode {
    pub tx: Transaction,
    pub hash: TransactionHash,
    pub status: TransactionStatus,
    pub children: Vec<TransactionHash>,
    pub weight: u64,
    pub depth: u64,
}

/// What a vertex holds, as plain values.
pub struct NodeView {
    pub tx: TxView,
    pub hash: Seq<u8>,
    pub status: TransactionStatus,
    pub children: Seq<Seq<u8>>,
    pub weight: u64,
    pub depth: u64,
}

impl View for DagNode {
    type V = NodeView;

    open spec fn view(&self) -> NodeView {
        NodeView {
            tx: self.tx@,
            hash: self.hash@,
            status: self.status,
            children: hash_views(self.children@),
            weight: self.weight,
            depth: self.depth,
        }
    }
}

impl Clone for DagNode {
    fn clone(&self) -> (c: Self)
        ensures
            c@ == self@,
    {
        DagNode {
            tx: self.tx.clone(),
            hash: self.hash,
            status: self.status,
            children: self.children.clone(),
            weight: self.weight,
            depth: self.depth,
        }
    }
}

/// `nodes` with `child` appended to the children of `parent`, if it is present.
pub open spec fn with_child(nodes: Map<Seq<u8>, NodeView>, parent: Seq<u8>, child: Seq<u8>) -> Map<
    Seq<u8>,
    NodeView,
> {
    if nodes.contains_key(parent) {
        nodes.insert(parent, NodeView { children: nodes[parent].children.push(child), ..nodes[parent] })
    } else {
        nodes
    }
}

/// `nodes` with the weight of `h` raised by one, if it is present.
pub open spec fn with_heavier(nodes: Map<Seq<u8>, NodeView>, h: Seq<u8>) -> Map<Seq<u8>, NodeView> {
    if nodes.contains_key(h) {
        nodes.insert(h, NodeView { weight: (nodes[h].weight + 1) as u64, ..nodes[h] })
    } else {
        nodes
    }
}

/// The depth of a new vertex: 0 for genesis, else one more than its deeper parent
/// (a missing parent counts as depth 0).
pub open spec fn new_depth(nodes: Map<Seq<u8>, NodeView>, tx: TxView, genesis: bool) -> int {
    if genesis {
        0
    } else {
        let d1 = if nodes.contains_key(tx.parent_1) { nodes[tx.parent_1].depth as int } else { 0 };
        let d2 = if nodes.contains_key(tx.parent_2) { nodes[tx.parent_2].depth as int } else { 0 };
        (if d1 >= d2 { d1 } else { d2 }) + 1
    }
}


/// `a + b` saturated at `u64::MAX`.
pub open spec fn sat_sum(a: int, b: int) -> int {
    if a + b > u64::MAX {
        u64::MAX as int
    } else {
        a + b
    }
}

/// The circulating supply of a DAG's ledger, validator fees included.
pub open spec fn graph_circulating(g: DagGraph) -> int {
    ledger_circulating(g.ledger())
}

/// Whether `insert` accepts a transaction in a given DAG: it validates, amount
/// plus fee fits, the supply cap holds, the sender can pay it, it is new, its
/// parents are present (unless genesis), and its nonce is fresh and next.
pub open spec fn insert_accepted(g: DagGraph, tx: Transaction) -> bool {
    let debit = tx.amount + tx.fee;
    &&& tx_valid(tx)
    &&& debit <= u64::MAX
    &&& amount_of(g.ledger().balances(), tx.sender@) >= debit
    &&& !g.nodes_view().contains_key(tx_hash_of(tx))
    &&& (!is_genesis_tx(tx) ==> g.nodes_view().contains_key(tx.parent_1@) && g.nodes_view().contains_key(
        tx.parent_2@,
    ))
    &&& sat_sum(graph_circulating(g), tx.amount as int) <= SUPPLY_CAP
    &&& !g.detector().committed().contains_key((tx.sender@, tx.nonce))
    &&& tx.nonce == amount_of(g.ledger().nonces(), tx.sender@) + 1
}

/// The error `insert` reports: that of the first check that fails, in the order
/// of `insert_accepted`.
pub open spec fn insert_error(g: DagGraph, tx: Transaction, e: RelyoError) -> bool {
    let debit = tx.amount + tx.fee;
    let have = amount_of(g.ledger().balances(), tx.sender@);
    if !tx_valid(tx) {
        e is InvalidTransaction || e is Crypto || e is InvalidSignature
    } else if debit > u64::MAX {
        e is InvalidTransaction
    } else if sat_sum(graph_circulating(g), tx.amount as int) > SUPPLY_CAP {
        e matches RelyoError::SupplyCapExceeded(m) && m@ == "Transaction amount "@ + decimal(
            tx.amount as nat,
        ) + " violates 25B max supply limit."@
    } else if have < debit {
        e == RelyoError::InsufficientBalance { have, need: debit as u64 }
    } else if g.nodes_view().contains_key(tx_hash_of(tx)) {
        e is InvalidTransaction
    } else if !is_genesis_tx(tx) && !g.nodes_view().contains_key(tx.parent_1@) {
        e matches RelyoError::InvalidParent(m) && m@ == hex_text(tx.parent_1@)
    } else if !is_genesis_tx(tx) && !g.nodes_view().contains_key(tx.parent_2@) {
        e matches RelyoError::InvalidParent(m) && m@ == hex_text(tx.parent_2@)
    } else {
        e == RelyoError::DuplicateNonce(tx.nonce)
    }
}

/// The DAG after `insert` applied a transaction.
pub open spec fn insert_applied(g: DagGraph, f: DagGraph, tx: Transaction) -> bool {
    let h = tx_hash_of(tx);
    let debit = (tx.amount + tx.fee) as u64;
    let b = g.ledger().balances();
    let b1 = b.insert(tx.sender@, (amount_of(b, tx.sender@) - debit) as u64);
    let b2 = b1.insert(
        tx.receiver@,
        vstd::wrapping::u64_specs::wrapping_add(amount_of(b1, tx.receiver@), tx.amount),
    );
    let genesis = is_genesis_tx(tx);
    let d = new_depth(g.nodes_view(), tx@, genesis);
    let p1 = tx.parent_1@;
    let p2 = tx.parent_2@;
    let linked = if genesis {
        g.nodes_view()
    } else {
        with_heavier(with_heavier(with_child(with_child(g.nodes_view(), p1, h), p2, h), p1), p2)
    };
    &&& f.ledger().balances() == b2
    &&& f.ledger().nonces() == g.ledger().nonces().insert(
        tx.sender@,
        vstd::wrapping::u64_specs::wrapping_add(amount_of(g.ledger().nonces(), tx.sender@), 1),
    )
    &&& f.ledger().stakes() == g.ledger().stakes()
    &&& f.ledger().unstakes() == g.ledger().unstakes()
    &&& f.ledger().fees() == g.ledger().fees() + tx.fee
    &&& f.detector().committed() == g.detector().committed().insert((tx.sender@, tx.nonce), h)
    &&& f.nodes_view() == linked.insert(
        h,
        NodeView {
            tx: tx@,
            hash: h,
            status: TransactionStatus::Pending,
            children: Seq::empty(),
            weight: 1,
            depth: d as u64,
        },
    )
    &&& f.depth_reached() == (if d > g.depth_reached() { d as u64 } else { g.depth_reached() })
    &&& f.tip_selector().tip_set() == g.tip_selector().tip_set().remove(p1).remove(p2).insert(h)
    &&& f.count() == vstd::wrapping::u64_specs::wrapping_add(g.count(), 1)
}

/// Whether the parents' weights can grow by what inserting `tx` adds: one per
/// parent, two when both parents are the same vertex.
pub open spec fn parents_have_room(g: DagGraph, tx: Transaction) -> bool {
    let n = g.nodes_view();
    let p1 = tx.parent_1@;
    let p2 = tx.parent_2@;
    if p1 == p2 {
        n.contains_key(p1) ==> n[p1].weight + 2 <= u64::MAX
    } else {
        &&& n.contains_key(p1) ==> n[p1].weight + 1 <= u64::MAX
        &&& n.contains_key(p2) ==> n[p2].weight + 1 <= u64::MAX
    }
}

/// Whether the DAG's counters have room for inserting `tx`: the deepest depth
/// and the weights of its parents can still grow.
pub open spec fn counters_fit(g: DagGraph, tx: Transaction) -> bool {
    &&& g.depth_reached() < u64::MAX
    &&& parents_have_room(g, tx)
}

/// How many depth levels lie above a depth, given the deepest depth (0 when none).
pub open spec fn levels_above(deepest: u64, depth: u64) -> u64 {
    if deepest >= depth {
        (deepest - depth) as u64
    } else {
        0
    }
}

/// Whether pruning at `min_confirmation_depth` removes the vertex under `h`: it is
/// confirmed and more than that many levels lie above it.
pub open spec fn prunable(g: DagGraph, h: Seq<u8>, min_confirmation_depth: u64) -> bool {
    &&& g.nodes_view().contains_key(h)
    &&& g.nodes_view()[h].status == TransactionStatus::Confirmed
    &&& levels_above(g.depth_reached(), g.nodes_view()[h].depth) > min_confirmation_depth
}

/// The vertices that pruning keeps.
pub open spec fn pruned_nodes(g: DagGraph, min_confirmation_depth: u64) -> Map<Seq<u8>, NodeView> {
    g.nodes_view().restrict(Set::new(|h: Seq<u8>| !prunable(g, h, min_confirmation_depth)))
}

/// The in-memory DAG.
pub struct DagGraph {
    nodes: DashMap<TransactionHash, DagNode, RandomState>,
    state: LedgerState,
    tips: TipSelector,
    conflicts: ConflictDetector,
    total_count: u64,
    max_depth: u64,
}

impl DagGraph {
    /// The vertices by hash.
    pub closed spec fn nodes_view(&self) -> Map<Seq<u8>, NodeView> {
        node_table(self.nodes)
    }

    /// The ledger.
    pub closed spec fn ledger(&self) -> LedgerState {
        self.state
    }

    /// The tip selector.
    pub closed spec fn tip_selector(&self) -> TipSelector {
        self.tips
    }

    /// The conflict detector.
    pub closed spec fn detector(&self) -> ConflictDetector {
        self.conflicts
    }

    /// The number of inserted transactions.
    pub closed spec fn count(&self) -> u64 {
        self.total_count
    }

    /// The deepest depth reached.
    pub closed spec fn depth_reached(&self) -> u64 {
        self.max_depth
    }

    /// The graph is consistent: no tip twice, every vertex stored under its own
    /// hash, and no vertex deeper than the deepest depth.
    pub open spec fn wf(&self) -> bool {
        &&& self.tip_selector().wf()
        &&& forall|h: Seq<u8>| #[trigger] self.nodes_view().contains_key(h) ==> self.nodes_view()[h].depth
            <= self.depth_reached() && self.nodes_view()[h].hash == h
    }

    /// A DAG with no vertices over the given ledger, tips and conflict detector.
    pub fn new(state: LedgerState, tips: TipSelector, conflicts: ConflictDetector) -> (g: Self)
        requires
            tips.wf(),
        ensures
            g.wf(),
            g.nodes_view().dom().len() == 0 && g.nodes_view().dom().finite(),
            g.ledger() == state,
            g.tip_selector() == tips,
            g.detector() == conflicts,
            g.count() == 0,
            g.depth_reached() == 0,
    {
        DagGraph { nodes: node_table_new(), state, tips, conflicts, total_count: 0, max_depth: 0 }
    }

    /// Insert a genesis transaction without validation: its receiver is credited
    /// and it becomes a confirmed tip at depth 0.
    pub fn insert_genesis(&mut self, tx: Transaction) -> (res: Result<TransactionHash>)
        requires
            old(self).wf(),
        ensures
            final(self).wf(),
            !is_genesis_tx(tx) ==> (res matches Err(e) && e is InvalidTransaction) && *final(self) == *old(self),
            is_genesis_tx(tx) ==> {
                &&& res matches Ok(h) && h@ == tx_hash_of(tx)
                &&& final(self).ledger().balances() == old(self).ledger().balances().insert(
                    tx.receiver@,
                    vstd::wrapping::u64_specs::wrapping_add(
                        amount_of(old(self).ledger().balances(), tx.receiver@),
                        tx.amount,
                    ),
                )
                &&& final(self).ledger().nonces() == old(self).ledger().nonces()
                &&& final(self).ledger().stakes() == old(self).ledger().stakes()
                &&& final(self).ledger().unstakes() == old(self).ledger().unstakes()
                &&& final(self).ledger().fees() == old(self).ledger().fees()
                &&& final(self).nodes_view() == old(self).nodes_view().insert(
                    tx_hash_of(tx),
                    NodeView {
                        tx: tx@,
                        hash: tx_hash_of(tx),
                        status: TransactionStatus::Confirmed,
                        children: Seq::empty(),
                        weight: 1,
                        depth: 0,
                    },
                )
                &&& final(self).tip_selector().tip_set() == old(self).tip_selector().tip_set().insert(tx_hash_of(tx))
                &&& final(self).count() == vstd::wrapping::u64_specs::wrapping_add(old(self).count(), 1)
                &&& final(self).depth_reached() == old(self).depth_reached()
                &&& final(self).detector() == old(self).detector()
            },
    {
        if !tx.is_genesis() {
            return Err(RelyoError::InvalidTransaction(String::from_str("not a genesis transaction")));
        }
        let hash = tx.hash();
        self.state.credit(&tx.receiver, tx.amount);
        let node = DagNode {
            tx,
            hash,
            status: TransactionStatus::Confirmed,
            children: Vec::new(),
            weight: 1,
            depth: 0,
        };
        proof {
            assert(node@.children =~= Seq::<Seq<u8>>::empty());
        }
        node_table_insert(&mut self.nodes, hash, node);
        self.tips.add(hash);
        self.total_count = self.total_count.wrapping_add(1);
        Ok(hash)
    }

    /// Check a transaction against the DAG and the ledger as `insert` does,
    /// without applying it: its hash exactly when `insert` would accept it, else
    /// the error `insert` would report.
    pub fn check_transaction(&self, tx: &Transaction) -> (res: Result<TransactionHash>)
        requires
            self.wf(),
            graph_circulating(*self) <= u64::MAX,
        ensures
            res is Ok <==> insert_accepted(*self, *tx),
            res matches Err(e) ==> insert_error(*self, *tx, e),
            res matches Ok(h) ==> h@ == tx_hash_of(*tx),
            res is Ok ==> self.ledger().balances().dom().finite(),
    {
        match tx.validate() {
            Err(e) => return Err(e),
            Ok(()) => {},
        }
        let total_debit = match tx.amount.checked_add(tx.fee) {
            Some(v) => v,
            None => return Err(RelyoError::InvalidTransaction(String::from_str("amount overflow"))),
        };
        let circulating_now = self.state.total_circulating();
        if circulating_now.saturating_add(tx.amount) > SUPPLY_CAP {
            let mut msg = String::from_str("Transaction amount ");
            msg.append(decimal_string(tx.amount).as_str());
            msg.append(" violates 25B max supply limit.");
            return Err(RelyoError::SupplyCapExceeded(msg));
        }
        let pre_balance = self.state.balance(&tx.sender);
        if pre_balance < total_debit {
            return Err(RelyoError::InsufficientBalance { have: pre_balance, need: total_debit });
        }
        let hash = tx.hash();
        if node_table_contains(&self.nodes, &hash) {
            return Err(RelyoError::InvalidTransaction(String::from_str("duplicate transaction")));
        }
        let genesis = tx.is_genesis();
        if !genesis {
            if !node_table_contains(&self.nodes, &tx.parent_1) {
                return Err(RelyoError::InvalidParent(tx.parent_1.to_hex()));
            }
            if !node_table_contains(&self.nodes, &tx.parent_2) {
                return Err(RelyoError::InvalidParent(tx.parent_2.to_hex()));
            }
        }
        match self.conflicts.check_transaction(tx, pre_balance, 0) {
            ConflictResult::NoConflict => {},
            ConflictResult::NonceConflict { .. } => {
                return Err(RelyoError::DuplicateNonce(tx.nonce));
            },
            ConflictResult::DoubleSpend { .. } => {
                return Err(RelyoError::DoubleSpend(hash.to_hex()));
            },
        }
        let current_nonce = self.state.nonce(&tx.sender);
        if current_nonce == u64::MAX || tx.nonce != current_nonce + 1 {
            return Err(RelyoError::DuplicateNonce(tx.nonce));
        }
        Ok(hash)
    }

    /// Validate a transaction against the DAG and the ledger and, when it passes,
    /// apply it: the sender pays amount and fee, the receiver gets the amount, the
    /// fee is collected for the validators, the
    /// sender's nonce advances, its parents gain it as a child and one unit of
    /// weight, it replaces them as a tip, and it is stored pending at one more than
    /// its deeper parent's depth.
    pub fn insert(&mut self, tx: Transaction) -> (res: Result<TransactionHash>)
        requires
            old(self).wf(),
            graph_circulating(*old(self)) <= u64::MAX,
            old(self).depth_reached() < u64::MAX,
            parents_have_room(*old(self), tx),
        ensures
            final(self).wf(),
            res is Ok <==> insert_accepted(*old(self), tx),
            !tx_valid(tx) ==> res is Err,
            res is Err ==> *final(self) == *old(self),
            res matches Err(e) ==> insert_error(*old(self), tx, e),
            res matches Ok(h) ==> h@ == tx_hash_of(tx) && insert_applied(*old(self), *final(self), tx),
    {
        let hash = match self.check_transaction(&tx) {
            Err(e) => return Err(e),
            Ok(h) => h,
        };
        let total_debit = tx.amount + tx.fee;
        let genesis = tx.is_genesis();
        let ghost before = *self;
        match self.state.debit(&tx.sender, total_debit) {
            Ok(()) => {},
            Err(e) => {
                proof {
                    assert(false);
                }
                return Err(e);
            },
        }
        self.state.credit(&tx.receiver, tx.amount);
        proof {
            let b = before.ledger().balances();
            lemma_amounts_sum_insert(b, tx.sender@, 0);
            lemma_balances_within_circulating(b.insert(tx.sender@, 0), before.ledger().stakes(), before.ledger().unstakes());
            lemma_balances_within_circulating(b, before.ledger().stakes(), before.ledger().unstakes());
        }
        self.state.collect_fee(tx.fee);
        self.state.increment_nonce(&tx.sender);
        self.conflicts.commit_transaction(&tx);
        let depth = if genesis {
            0
        } else {
            let d1 = match node_table_get(&self.nodes, &tx.parent_1) {
                Some(n) => n.depth,
                None => 0,
            };
            let d2 = match node_table_get(&self.nodes, &tx.parent_2) {
                Some(n) => n.depth,
                None => 0,
            };
            (if d1 >= d2 { d1 } else { d2 }) + 1
        };
        if depth > self.max_depth {
            self.max_depth = depth;
        }
        if !genesis {
            self.add_child(&tx.parent_1, &hash);
            self.add_child(&tx.parent_2, &hash);
            self.propagate_weight(&tx.parent_1);
            self.propagate_weight(&tx.parent_2);
        }
        self.tips.remove(&tx.parent_1);
        self.tips.remove(&tx.parent_2);
        let node = DagNode {
            tx,
            hash,
            status: TransactionStatus::Pending,
            children: Vec::new(),
            weight: 1,
            depth,
        };
        proof {
            assert(node@.children =~= Seq::<Seq<u8>>::empty());
        }
        self.tips.add(hash);
        node_table_insert(&mut self.nodes, hash, node);
        self.total_count = self.total_count.wrapping_add(1);
        proof {
            assert forall|h: Seq<u8>| #[trigger] self.nodes_view().contains_key(h) implies self.nodes_view()[h].depth
                <= self.depth_reached() by {
                if h != hash@ {
                    assert(before.nodes_view().contains_key(h));
                }
            }
        }
        Ok(hash)
    }

    fn add_child(&mut self, parent: &TransactionHash, child: &TransactionHash)
        ensures
            final(self).nodes_view() == with_child(old(self).nodes_view(), parent@, child@),
            final(self).ledger() == old(self).ledger(),
            final(self).tip_selector() == old(self).tip_selector(),
            final(self).detector() == old(self).detector(),
            final(self).count() == old(self).count(),
            final(self).depth_reached() == old(self).depth_reached(),
    {
        match node_table_get(&self.nodes, parent) {
            Some(mut n) => {
                let ghost before_n = n@;
                let ghost before_children = n.children@;
                n.children.push(*child);
                proof {
                    assert(hash_views(n.children@) =~= hash_views(before_children).push(child@));
                    assert(n@ == NodeView { children: before_n.children.push(child@), ..before_n });
                }
                node_table_insert(&mut self.nodes, *parent, n);
            },
            None => {},
        }
    }

    fn propagate_weight(&mut self, h: &TransactionHash)
        requires
            old(self).nodes_view().contains_key(h@) ==> old(self).nodes_view()[h@].weight < u64::MAX,
        ensures
            final(self).nodes_view() == with_heavier(old(self).nodes_view(), h@),
            final(self).ledger() == old(self).ledger(),
            final(self).tip_selector() == old(self).tip_selector(),
            final(self).detector() == old(self).detector(),
            final(self).count() == old(self).count(),
            final(self).depth_reached() == old(self).depth_reached(),
    {
        match node_table_get(&self.nodes, h) {
            Some(mut n) => {
                n.weight = n.weight + 1;
                node_table_insert(&mut self.nodes, *h, n);
            },
            None => {},
        }
    }

    /// Set the status of a vertex, if it is present.
    pub fn set_status(&mut self, hash: &TransactionHash, status: TransactionStatus)
        requires
            old(self).wf(),
        ensures
            final(self).wf(),
            old(self).nodes_view().contains_key(hash@) ==> final(self).nodes_view() == old(self).nodes_view().insert(
                hash@,
                NodeView { status, ..old(self).nodes_view()[hash@] },
            ),
            !old(self).nodes_view().contains_key(hash@) ==> final(self).nodes_view() == old(self).nodes_view(),
            final(self).ledger() == old(self).ledger(),
            final(self).tip_selector() == old(self).tip_selector(),
            final(self).detector() == old(self).detector(),
            final(self).count() == old(self).count(),
            final(self).depth_reached() == old(self).depth_reached(),
    {
        match node_table_get(&self.nodes, hash) {
            Some(mut n) => {
                n.status = status;
                node_table_insert(&mut self.nodes, *hash, n);
                proof {
                    assert forall|h: Seq<u8>| #[trigger] self.nodes_view().contains_key(h) implies self.nodes_view()[h].depth
                        <= self.depth_reached() by {
                        assert(old(self).nodes_view().contains_key(h));
                    }
                }
            },
            None => {},
        }
    }

    /// Whether the DAG's counters have room for inserting `tx`.
    pub fn has_room_for(&self, tx: &Transaction) -> (b: bool)
        ensures
            b == counters_fit(*self, *tx),
    {
        if self.max_depth == u64::MAX {
            return false;
        }
        let same = tx.parent_1.same(&tx.parent_2);
        let growth: u64 = if same { 2 } else { 1 };
        match node_table_get(&self.nodes, &tx.parent_1) {
            Some(n) => {
                if n.weight > u64::MAX - growth {
                    return false;
                }
            },
            None => {},
        }
        match node_table_get(&self.nodes, &tx.parent_2) {
            Some(n) => {
                if n.weight > u64::MAX - growth {
                    return false;
                }
            },
            None => {},
        }
        true
    }

    /// Drop from memory every confirmed vertex with more than
    /// `min_confirmation_depth` levels above it. Returns their hashes, each once,
    /// in an order the map's hashing decides.
    pub fn prune_confirmed(&mut self, min_confirmation_depth: u64) -> (pruned: Vec<TransactionHash>)
        requires
            old(self).wf(),
        ensures
            final(self).wf(),
            final(self).nodes_view() == pruned_nodes(*old(self), min_confirmation_depth),
            forall|i: int| 0 <= i < pruned@.len() ==> prunable(*old(self), #[trigger] pruned@[i]@, min_confirmation_depth),
            forall|h: Seq<u8>| prunable(*old(self), h, min_confirmation_depth) ==> #[trigger] hash_views(pruned@).contains(h),
            hash_views(pruned@).no_duplicates(),
            final(self).ledger() == old(self).ledger(),
            final(self).tip_selector() == old(self).tip_selector(),
            final(self).detector() == old(self).detector(),
            final(self).count() == old(self).count(),
            final(self).depth_reached() == old(self).depth_reached(),
    {
        let ghost g0 = *self;
        let keys = node_table_keys(&self.nodes);
        let ghost kv = hash_views(keys@);
        let current_max = self.max_depth;
        let mut pruned: Vec<TransactionHash> = Vec::new();
        let mut i: usize = 0;
        while i < keys.len()
            invariant
                i <= keys@.len(),
                kv == hash_views(keys@),
                lists_keys(kv, g0.nodes_view()),
                current_max == g0.depth_reached(),
                self.wf(),
                self.state == g0.state,
                self.tips == g0.tips,
                self.conflicts == g0.conflicts,
                self.total_count == g0.total_count,
                self.max_depth == g0.max_depth,
                self.nodes_view() == g0.nodes_view().restrict(
                    Set::new(|h: Seq<u8>| !(kv.take(i as int).contains(h) && prunable(g0, h, min_confirmation_depth))),
                ),
                forall|a: int| 0 <= a < pruned@.len() ==> prunable(g0, #[trigger] pruned@[a]@, min_confirmation_depth),
                forall|h: Seq<u8>| kv.take(i as int).contains(h) && prunable(g0, h, min_confirmation_depth) ==> #[trigger] hash_views(pruned@).contains(h),
                forall|h: Seq<u8>| #[trigger] hash_views(pruned@).contains(h) ==> kv.take(i as int).contains(h),
                hash_views(pruned@).no_duplicates(),
            decreases keys@.len() - i,
        {
            let key = keys[i];
            proof {
                assert(kv[i as int] == key@);
                assert(g0.nodes_view().contains_key(key@));
                assert(!kv.take(i as int).contains(key@)) by {
                    let prev = kv.take(i as int);
                    if prev.contains(key@) {
                        let a = choose|a: int| 0 <= a < prev.len() && prev[a] == key@;
                        assert(kv[a] == kv[i as int]);
                    }
                }
                assert(kv.take(i as int + 1) =~= kv.take(i as int).push(key@));
            }
            let mut remove = false;
            match node_table_get(&self.nodes, &key) {
                Some(n) => {
                    if n.status == TransactionStatus::Confirmed {
                        let conf_depth = current_max.saturating_sub(n.depth);
                        if conf_depth > min_confirmation_depth {
                            remove = true;
                        }
                    }
                },
                None => {},
            }
            let ghost before = hash_views(pruned@);
            proof {
                assert(self.nodes_view().contains_key(key@));
                assert(self.nodes_view()[key@] == g0.nodes_view()[key@]);
                assert(remove == prunable(g0, key@, min_confirmation_depth));
            }
            if remove {
                node_table_remove(&mut self.nodes, &key);
                pruned.push(key);
                proof {
                    assert(hash_views(pruned@) =~= before.push(key@));
                    assert forall|a: int, b: int| 0 <= a < b < hash_views(pruned@).len() implies hash_views(pruned@)[a]
                        != hash_views(pruned@)[b] by {
                        if b == before.len() {
                            assert(before.contains(before[a]));
                        }
                    }
                }
            }
            proof {
                let prev = kv.take(i as int);
                let next = kv.take(i as int + 1);
                assert forall|h: Seq<u8>| next.contains(h) <==> (prev.contains(h) || h == key@) by {
                    if next.contains(h) && h != key@ {
                        let a = choose|a: int| 0 <= a < next.len() && next[a] == h;
                        assert(prev[a] == h);
                    }
                    if prev.contains(h) {
                        let a = choose|a: int| 0 <= a < prev.len() && prev[a] == h;
                        assert(next[a] == h);
                    }
                    if h == key@ {
                        assert(next[i as int] == h);
                    }
                }
                assert(self.nodes_view() =~= g0.nodes_view().restrict(
                    Set::new(|h: Seq<u8>| !(kv.take(i as int + 1).contains(h) && prunable(g0, h, min_confirmation_depth))),
                ));
                assert forall|h: Seq<u8>| #[trigger] hash_views(pruned@).contains(h) implies kv.take(i as int + 1).contains(h) by {
                    if remove && h == key@ {
                        assert(kv.take(i as int + 1)[i as int] == h);
                    } else {
                        assert(before.contains(h));
                        let a = choose|a: int| 0 <= a < prev.len() && prev[a] == h;
                        assert(next[a] == h);
                    }
                }
                assert forall|h: Seq<u8>| kv.take(i as int + 1).contains(h) && prunable(g0, h, min_confirmation_depth) implies #[trigger] hash_views(pruned@).contains(h) by {
                    if h == key@ {
                        assert(hash_views(pruned@)[pruned@.len() - 1] == h);
                    } else {
                        let a = choose|a: int| 0 <= a < next.len() && next[a] == h;
                        assert(prev[a] == h);
                        assert(before.contains(h));
                        let b = choose|b: int| 0 <= b < before.len() && before[b] == h;
                        assert(hash_views(pruned@)[b] == h);
                    }
                }
                assert forall|hh: Seq<u8>| #[trigger] self.nodes_view().contains_key(hh) implies self.nodes_view()[hh].depth
                    <= self.depth_reached() && self.nodes_view()[hh].hash == hh by {
                    assert(g0.nodes_view().contains_key(hh));
                }
            }
            i = i + 1;
        }
        proof {
            assert(kv.take(kv.len() as int) =~= kv);
            assert(self.nodes_view() =~= pruned_nodes(g0, min_confirmation_depth));
            assert forall|h: Seq<u8>| prunable(g0, h, min_confirmation_depth) implies #[trigger] hash_views(pruned@).contains(h) by {
                let a = choose|a: int| 0 <= a < kv.len() && kv[a] == h;
                assert(kv.take(kv.len() as int).contains(h));
            }
        }
        pruned
    }

    /// A copy of a vertex.
    pub fn get(&self, hash: &TransactionHash) -> (r: Option<DagNode>)
        ensures
            r is Some <==> self.nodes_view().contains_key(hash@),
            r matches Some(n) ==> n@ == self.nodes_view()[hash@],
    {
        node_table_get(&self.nodes, hash)
    }

    /// Whether a vertex is present.
    pub fn contains(&self, hash: &TransactionHash) -> (b: bool)
        ensures
            b == self.nodes_view().contains_key(hash@),
    {
        node_table_contains(&self.nodes, hash)
    }

    /// Whether a transaction is in the DAG (used by voting).
    pub fn has_transaction(&self, hash: &TransactionHash) -> (b: bool)
        ensures
            b == self.nodes_view().contains_key(hash@),
    {
        node_table_contains(&self.nodes, hash)
    }

    /// The number of inserted transactions.
    pub fn len(&self) -> (n: u64)
        ensures
            n == self.count(),
    {
        self.total_count
    }

    /// Whether no transaction was inserted.
    pub fn is_empty(&self) -> (b: bool)
        ensures
            b == (self.count() == 0),
    {
        self.total_count == 0
    }

    /// The deepest depth reached.
    pub fn max_depth(&self) -> (d: u64)
        ensures
            d == self.depth_reached(),
    {
        self.max_depth
    }

    /// The balance of an address.
    pub fn balance(&self, addr: &Address) -> (b: u64)
        ensures
            b == amount_of(self.ledger().balances(), addr@),
    {
        self.state.balance(addr)
    }

    /// The nonce of an address.
    pub fn nonce(&self, addr: &Address) -> (n: u64)
        ensures
            n == amount_of(self.ledger().nonces(), addr@),
    {
        self.state.nonce(addr)
    }

    /// The tip selector.
    pub fn tips(&self) -> (t: &TipSelector)
        ensures
            *t == self.tip_selector(),
    {
        &self.tips
    }

    /// The ledger.
    pub fn state(&self) -> (s: &LedgerState)
        ensures
            *s == self.ledger(),
    {
        &self.state
    }

    /// The conflict detector.
    pub fn conflicts(&self) -> (c: &ConflictDetector)
        ensures
            *c == self.detector(),
    {
        &self.conflicts
    }

    /// Copies of every vertex, in an order the map's hashing decides.
    pub fn all_transactions(&self) -> (v: Vec<DagNode>)
        requires
            self.wf(),
        ensures
            v@.len() == self.nodes_view().dom().len(),
            forall|i: int| 0 <= i < v@.len() ==> self.nodes_view().contains_key(#[trigger] v@[i]@.hash)
                && self.nodes_view()[v@[i]@.hash] == v@[i]@,
            forall|i: int, j: int| 0 <= i < j < v@.len() ==> #[trigger] v@[i]@.hash != #[trigger] v@[j]@.hash,
    {
        let keys = node_table_keys(&self.nodes);
        let mut out: Vec<DagNode> = Vec::new();
        let mut i: usize = 0;
        while i < keys.len()
            invariant
                i <= keys@.len(),
                self.wf(),
                lists_keys(hash_views(keys@), self.nodes_view()),
                out@.len() == i,
                forall|k: int| 0 <= k < i ==> #[trigger] out@[k]@.hash == keys@[k]@ && self.nodes_view()[keys@[k]@]
                    == out@[k]@,
            decreases keys@.len() - i,
        {
            proof {
                assert(hash_views(keys@)[i as int] == keys@[i as int]@);
            }
            match node_table_get(&self.nodes, &keys[i]) {
                Some(n) => {
                    out.push(n);
                },
                None => {
                    proof {
                        assert(false);
                    }
                },
            }
            i = i + 1;
        }
        proof {
            assert forall|a: int, b: int| 0 <= a < b < out@.len() implies #[trigger] out@[a]@.hash != #[trigger] out@[b]@.hash by {
                assert(hash_views(keys@)[a] != hash_views(keys@)[b]);
            }
            assert forall|k: int| 0 <= k < out@.len() implies self.nodes_view().contains_key(#[trigger] out@[k]@.hash) by {
                assert(hash_views(keys@)[k] == keys@[k]@);
            }
        }
        out
    }

    /// How many depth levels lie above a vertex (0 if absent or deepest).
    pub fn confirmation_depth(&self, hash: &TransactionHash) -> (d: u64)
        ensures
            !self.nodes_view().contains_key(hash@) ==> d == 0,
            self.nodes_view().contains_key(hash@) ==> d == (if self.depth_reached() >= self.nodes_view()[hash@].depth {
                self.depth_reached() - self.nodes_view()[hash@].depth
            } else {
                0
            }),
    {
        match node_table_get(&self.nodes, hash) {
            Some(n) => {
                if self.max_depth >= n.depth {
                    self.max_depth - n.depth
                } else {
                    0
                }
            },
            None => 0,
        }
    }
}

/// An accepted insert keeps the circulating supply as it was: the sender pays
/// amount and fee, the receiver gains the amount, the fee is collected for the
/// validators, and stakes and pending unstakes stay as they were.
pub proof fn law_insert_keeps_circulation(g: DagGraph, f: DagGraph, tx: Transaction)
    requires
        g.ledger().balances().dom().finite(),
        insert_accepted(g, tx),
        insert_applied(g, f, tx),
    ensures
        graph_circulating(f) == graph_circulating(g),
        f.ledger().balances().dom().finite(),
{
    let b = g.ledger().balances();
    let s = tx.sender@;
    let r = tx.receiver@;
    let debit = (tx.amount + tx.fee) as u64;
    let b1 = b.insert(s, (amount_of(b, s) - debit) as u64);
    lemma_amounts_sum_insert(b, s, (amount_of(b, s) - debit) as u64);
    lemma_balances_within_circulating(b, g.ledger().stakes(), g.ledger().unstakes());
    lemma_amounts_sum_insert(b1, r, 0);
    lemma_balances_within_circulating(b1.insert(r, 0), g.ledger().stakes(), g.ledger().unstakes());
    let credited = (amount_of(b1, r) + tx.amount) as u64;
    assert(vstd::wrapping::u64_specs::wrapping_add(amount_of(b1, r), tx.amount) == credited);
    lemma_amounts_sum_insert(b1, r, credited);
}

/// Law: an accepted non-genesis transaction sits one level below its deeper
/// parent. Its vertex's depth is one more than the larger of its two parents'
/// depths, so it is deeper than each parent; it is pending; and the DAG's deepest
/// depth becomes the larger of the old deepest depth and the new vertex's depth.
pub proof fn law_insert_depth(g: DagGraph, f: DagGraph, tx: Transaction)
    requires
        g.wf(),
        g.depth_reached() < u64::MAX,
        insert_accepted(g, tx),
        insert_applied(g, f, tx),
        !is_genesis_tx(tx),
    ensures
        ({
            let h = tx_hash_of(tx);
            let d1 = g.nodes_view()[tx.parent_1@].depth;
            let d2 = g.nodes_view()[tx.parent_2@].depth;
            let d = f.nodes_view()[h].depth;
            &&& f.nodes_view().contains_key(h)
            &&& d == (if d1 >= d2 { d1 } else { d2 }) + 1
            &&& d > d1 && d > d2
            &&& f.nodes_view()[h].status == TransactionStatus::Pending
            &&& f.depth_reached() == (if d > g.depth_reached() { d } else { g.depth_reached() })
        }),
{
    assert(g.nodes_view().contains_key(tx.parent_1@));
    assert(g.nodes_view().contains_key(tx.parent_2@));
}

} // verus!
