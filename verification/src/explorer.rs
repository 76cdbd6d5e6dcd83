//! What the block explorer reports about the DAG: the graph drawn as vertices
//! and parent edges, counts of transactions by status, and the transactions of
//! an address.
use vstd::prelude::*;
use crate::address::Address;
use crate::codec::hex_text;
use crate::graph::{DagGraph, DagNode, NodeView};
use crate::transaction::{zero_hash_bytes, TransactionStatus};

verus! {

/// A vertex of the drawn DAG.
pub struct DagVizNode {
    pub id: String,
    pub status: String,
    pub timestamp: u64,
    pub weight: u64,
}

/// An edge of the drawn DAG, from a transaction to one of its parents.
pub struct DagVizEdge {
    pub from: String,
    pub to: String,
}

/// The DAG drawn as vertices and edges.
pub struct DagVisualization {
    pub nodes: Vec<DagVizNode>,
    pub edges: Vec<DagVizEdge>,
}

/// An error the explorer answers with.
pub struct ErrorResponse {
    pub error: String,
}

/// The name of a status as the explorer shows it.
pub open spec fn status_name(s: TransactionStatus) -> Seq<char> {
    match s {
        TransactionStatus::Pending => "Pending"@,
        TransactionStatus::Voting => "Voting"@,
        TransactionStatus::Confirmed => "Confirmed"@,
        TransactionStatus::Rejected => "Rejected"@,
    }
}

/// The name of a status as the explorer shows it.
pub fn status_text(s: TransactionStatus) -> (t: String)
    ensures
        t@ == status_name(s),
{
    match s {
        TransactionStatus::Pending => String::from_str("Pending"),
        TransactionStatus::Voting => String::from_str("Voting"),
        TransactionStatus::Confirmed => String::from_str("Confirmed"),
        TransactionStatus::Rejected => String::from_str("Rejected"),
    }
}

/// Whether `listing` lists every vertex of `nodes` once.
pub open spec fn lists_vertices(listing: Seq<NodeView>, nodes: Map<Seq<u8>, NodeView>) -> bool {
    &&& listing.len() == nodes.dom().len()
    &&& forall|i: int| 0 <= i < listing.len() ==> nodes.contains_key(#[trigger] listing[i].hash) && nodes[listing[i].hash]
        == listing[i]
    &&& forall|i: int, j: int| 0 <= i < j < listing.len() ==> #[trigger] listing[i].hash != #[trigger] listing[j].hash
}

/// The drawn edges of one vertex: to each non-zero parent, first then second.
pub open spec fn edges_of(v: NodeView) -> Seq<(Seq<char>, Seq<char>)> {
    let e1 = if v.tx.parent_1 != zero_hash_bytes() {
        seq![(hex_text(v.hash), hex_text(v.tx.parent_1))]
    } else {
        Seq::empty()
    };
    let e2 = if v.tx.parent_2 != zero_hash_bytes() {
        seq![(hex_text(v.hash), hex_text(v.tx.parent_2))]
    } else {
        Seq::empty()
    };
    e1 + e2
}

/// The drawn edges of a list of vertices, vertex by vertex.
pub open spec fn edges_of_all(listing: Seq<NodeView>) -> Seq<(Seq<char>, Seq<char>)>
    decreases listing.len(),
{
    if listing.len() == 0 {
        Seq::empty()
    } else {
        edges_of_all(listing.drop_last()) + edges_of(listing.last())
    }
}

/// The number of vertices of a list whose status satisfies `pick`.
pub open spec fn count_status(listing: Seq<NodeView>, pick: spec_fn(TransactionStatus) -> bool) -> nat
    decreases listing.len(),
{
    if listing.len() == 0 {
        0
    } else {
        count_status(listing.drop_last(), pick) + if pick(listing.last().status) { 1nat } else { 0nat }
    }
}

/// Whether a status is confirmed.
pub open spec fn is_confirmed(s: TransactionStatus) -> bool {
    s == TransactionStatus::Confirmed
}

/// Whether a status is still open: pending or being voted on.
pub open spec fn is_open(s: TransactionStatus) -> bool {
    s == TransactionStatus::Pending || s == TransactionStatus::Voting
}

/// The number of vertices of a list that send from or pay to `addr`.
pub open spec fn count_involving(listing: Seq<NodeView>, addr: Seq<char>) -> nat
    decreases listing.len(),
{
    if listing.len() == 0 {
        0
    } else {
        count_involving(listing.drop_last(), addr) + if listing.last().tx.sender == addr || listing.last().tx.receiver
            == addr {
            1nat
        } else {
            0nat
        }
    }
}

/// The views of a list of vertices.
pub open spec fn node_views(v: Seq<DagNode>) -> Seq<NodeView> {
    v.map_values(|n: DagNode| n@)
}

/// Every vertex of the DAG once, with the facts a listing needs.
fn vertices(dag: &DagGraph) -> (v: Vec<DagNode>)
    requires
        dag.wf(),
    ensures
        lists_vertices(node_views(v@), dag.nodes_view()),
{
    let v = dag.all_transactions();
    proof {
        let l = node_views(v@);
        assert forall|i: int| 0 <= i < l.len() implies dag.nodes_view().contains_key(#[trigger] l[i].hash) && dag.nodes_view()[l[i].hash]
            == l[i] by {
            assert(l[i] == v@[i]@);
        }
        assert forall|i: int, j: int| 0 <= i < j < l.len() implies #[trigger] l[i].hash != #[trigger] l[j].hash by {
            assert(l[i] == v@[i]@);
            assert(l[j] == v@[j]@);
        }
    }
    v
}

impl DagVisualization {
    /// The DAG drawn: each vertex with its hash, status, time and weight, and an
    /// edge from each vertex to each of its non-zero parents, in the order the
    /// vertices are listed.
    pub fn of_dag(dag: &DagGraph) -> (viz: DagVisualization)
        requires
            dag.wf(),
        ensures
            exists|listing: Seq<NodeView>|
                {
                    &&& #[trigger] lists_vertices(listing, dag.nodes_view())
                    &&& viz.nodes@.len() == listing.len()
                    &&& forall|i: int|
                        0 <= i < listing.len() ==> {
                            &&& (#[trigger] viz.nodes@[i]).id@ == hex_text(listing[i].hash)
                            &&& viz.nodes@[i].status@ == status_name(listing[i].status)
                            &&& viz.nodes@[i].timestamp == listing[i].tx.timestamp
                            &&& viz.nodes@[i].weight == listing[i].weight
                        }
                    &&& viz.edges@.map_values(|e: DagVizEdge| (e.from@, e.to@)) == edges_of_all(listing)
                },
    {
        let all = vertices(dag);
        let ghost listing = node_views(all@);
        let mut nodes: Vec<DagVizNode> = Vec::new();
        let mut edges: Vec<DagVizEdge> = Vec::new();
        let mut i: usize = 0;
        while i < all.len()
            invariant
                i <= all@.len(),
                listing == node_views(all@),
                nodes@.len() == i,
                forall|k: int|
                    0 <= k < i ==> {
                        &&& (#[trigger] nodes@[k]).id@ == hex_text(listing[k].hash)
                        &&& nodes@[k].status@ == status_name(listing[k].status)
                        &&& nodes@[k].timestamp == listing[k].tx.timestamp
                        &&& nodes@[k].weight == listing[k].weight
                    },
                edges@.map_values(|e: DagVizEdge| (e.from@, e.to@)) == edges_of_all(listing.take(i as int)),
            decreases all@.len() - i,
        {
            let n = &all[i];
            let ghost before = edges@.map_values(|e: DagVizEdge| (e.from@, e.to@));
            nodes.push(DagVizNode { id: n.hash.to_hex(), status: status_text(n.status), timestamp: n.tx.timestamp, weight: n.weight });
            if !n.tx.parent_1.is_zero() {
                edges.push(DagVizEdge { from: n.hash.to_hex(), to: n.tx.parent_1.to_hex() });
            }
            if !n.tx.parent_2.is_zero() {
                edges.push(DagVizEdge { from: n.hash.to_hex(), to: n.tx.parent_2.to_hex() });
            }
            proof {
                assert(listing[i as int] == n@);
                assert(listing.take(i as int + 1).drop_last() =~= listing.take(i as int));
                assert(edges@.map_values(|e: DagVizEdge| (e.from@, e.to@)) =~= before + edges_of(n@));
            }
            i = i + 1;
        }
        proof {
            assert(listing.take(listing.len() as int) =~= listing);
        }
        DagVisualization { nodes, edges }
    }
}

/// The numbers of confirmed transactions and of those still pending or voting.
pub fn status_counts(dag: &DagGraph) -> (counts: (u64, u64))
    requires
        dag.wf(),
    ensures
        exists|listing: Seq<NodeView>|
            #[trigger] lists_vertices(listing, dag.nodes_view()) && counts.0 == count_status(
                listing,
                |s: TransactionStatus| is_confirmed(s),
            ) && counts.1 == count_status(listing, |s: TransactionStatus| is_open(s)),
{
    let all = vertices(dag);
    let ghost listing = node_views(all@);
    let mut confirmed: u64 = 0;
    let mut open: u64 = 0;
    let mut i: usize = 0;
    while i < all.len()
        invariant
            i <= all@.len(),
            listing == node_views(all@),
            confirmed == count_status(listing.take(i as int), |s: TransactionStatus| is_confirmed(s)),
            open == count_status(listing.take(i as int), |s: TransactionStatus| is_open(s)),
            confirmed <= i,
            open <= i,
        decreases all@.len() - i,
    {
        proof {
            assert(listing.take(i as int + 1).drop_last() =~= listing.take(i as int));
            assert(listing[i as int] == all@[i as int]@);
        }
        match all[i].status {
            TransactionStatus::Confirmed => {
                confirmed = confirmed + 1;
            },
            TransactionStatus::Pending | TransactionStatus::Voting => {
                open = open + 1;
            },
            TransactionStatus::Rejected => {},
        }
        i = i + 1;
    }
    proof {
        assert(listing.take(listing.len() as int) =~= listing);
    }
    (confirmed, open)
}

/// The number of transactions that send from or pay to an address.
pub fn address_transaction_count(dag: &DagGraph, addr: &Address) -> (n: u64)
    requires
        dag.wf(),
    ensures
        exists|listing: Seq<NodeView>|
            #[trigger] lists_vertices(listing, dag.nodes_view()) && n == count_involving(listing, addr@),
{
    let all = vertices(dag);
    let ghost listing = node_views(all@);
    let mut n: u64 = 0;
    let mut i: usize = 0;
    while i < all.len()
        invariant
            i <= all@.len(),
            listing == node_views(all@),
            n == count_involving(listing.take(i as int), addr@),
            n <= i,
        decreases all@.len() - i,
    {
        proof {
            assert(listing.take(i as int + 1).drop_last() =~= listing.take(i as int));
            assert(listing[i as int] == all@[i as int]@);
        }
        if all[i].tx.sender.same(addr) || all[i].tx.receiver.same(addr) {
            n = n + 1;
        }
        i = i + 1;
    }
    proof {
        assert(listing.take(listing.len() as int) =~= listing);
    }
    n
}

} // verus!
