//! Walking the DAG breadth-first from a vertex: up through its parents to its
//! ancestors, or down through its children to its descendants.
use vstd::prelude::*;
use crate::graph::{DagGraph, DagNode, NodeView};
use crate::keyorder::lemma_push_to_set;
use crate::mempool::contains_hash;
use crate::tips::hash_views;
use crate::transaction::{zero_hash_bytes, TransactionHash};

verus! {

/// The hashes a vertex leads to: its non-zero parents when walking up, its
/// children when walking down.
pub open spec fn next_hops(v: NodeView, up: bool) -> Seq<Seq<u8>> {
    if up {
        let p1 = if v.tx.parent_1 != zero_hash_bytes() { seq![v.tx.parent_1] } else { Seq::empty() };
        let p2 = if v.tx.parent_2 != zero_hash_bytes() { seq![v.tx.parent_2] } else { Seq::empty() };
        p1 + p2
    } else {
        v.children
    }
}

/// One step out of a set of hashes: what its vertices present in `nodes` lead to.
pub open spec fn step_from(nodes: Map<Seq<u8>, NodeView>, s: Set<Seq<u8>>, up: bool) -> Set<Seq<u8>> {
    Set::new(
        |n: Seq<u8>|
            exists|m: Seq<u8>| #[trigger] s.contains(m) && nodes.contains_key(m) && next_hops(nodes[m], up).contains(n),
    )
}

/// The hashes within `k` steps of `start`.
pub open spec fn within(nodes: Map<Seq<u8>, NodeView>, start: Seq<u8>, k: nat, up: bool) -> Set<Seq<u8>>
    decreases k,
{
    if k == 0 {
        set![start]
    } else {
        let w = within(nodes, start, (k - 1) as nat, up);
        w.union(step_from(nodes, w, up))
    }
}

/// The hashes first reached at step `k`.
pub open spec fn fresh(nodes: Map<Seq<u8>, NodeView>, start: Seq<u8>, k: nat, up: bool) -> Set<Seq<u8>> {
    if k == 0 {
        within(nodes, start, 0, up)
    } else {
        within(nodes, start, k, up).difference(within(nodes, start, (k - 1) as nat, up))
    }
}

/// The hashes of a set that name vertices present in `nodes`.
pub open spec fn present(nodes: Map<Seq<u8>, NodeView>, s: Set<Seq<u8>>) -> Set<Seq<u8>> {
    s.filter(|h: Seq<u8>| nodes.contains_key(h))
}

/// The hashes of a set that a walk from `start` reports: present vertices other
/// than `start`.
pub open spec fn reported(nodes: Map<Seq<u8>, NodeView>, s: Set<Seq<u8>>, start: Seq<u8>) -> Set<Seq<u8>> {
    s.filter(|h: Seq<u8>| nodes.contains_key(h) && h != start)
}

/// What a walk of at most `max_levels` steps from `start` reports: every vertex
/// within that many steps, other than `start` itself.
pub open spec fn reached(nodes: Map<Seq<u8>, NodeView>, start: Seq<u8>, max_levels: nat, up: bool) -> Set<
    Seq<u8>,
> {
    reported(nodes, within(nodes, start, max_levels, up), start)
}

/// `start` is within any number of steps of itself.
proof fn lemma_start_within(nodes: Map<Seq<u8>, NodeView>, start: Seq<u8>, k: nat, up: bool)
    ensures
        within(nodes, start, k, up).contains(start),
    decreases k,
{
    if k > 0 {
        lemma_start_within(nodes, start, (k - 1) as nat, up);
    }
}

/// A step out of a larger set reaches at least as much.
proof fn lemma_step_monotone(nodes: Map<Seq<u8>, NodeView>, a: Set<Seq<u8>>, b: Set<Seq<u8>>, up: bool)
    requires
        a.subset_of(b),
    ensures
        step_from(nodes, a, up).subset_of(step_from(nodes, b, up)),
{
    assert forall|n: Seq<u8>| #[trigger] step_from(nodes, a, up).contains(n) implies step_from(nodes, b, up).contains(n) by {
        let m = choose|m: Seq<u8>| #[trigger] a.contains(m) && nodes.contains_key(m) && next_hops(nodes[m], up).contains(n);
        assert(b.contains(m));
    }
}

/// The next step only needs the hashes reached last: within `k + 1` steps is
/// within `k` steps plus one step out of those first reached at step `k`.
proof fn lemma_within_next(nodes: Map<Seq<u8>, NodeView>, start: Seq<u8>, k: nat, up: bool)
    ensures
        within(nodes, start, k + 1, up) == within(nodes, start, k, up).union(
            step_from(nodes, fresh(nodes, start, k, up), up),
        ),
{
    let w = within(nodes, start, k, up);
    let f = fresh(nodes, start, k, up);
    if k > 0 {
        let w0 = within(nodes, start, (k - 1) as nat, up);
        assert(f.subset_of(w));
        lemma_step_monotone(nodes, f, w, up);
        assert forall|n: Seq<u8>| #[trigger] step_from(nodes, w, up).contains(n) implies w.contains(n) || step_from(
            nodes,
            f,
            up,
        ).contains(n) by {
            let m = choose|m: Seq<u8>| #[trigger] w.contains(m) && nodes.contains_key(m) && next_hops(nodes[m], up).contains(n);
            if w0.contains(m) {
                assert(step_from(nodes, w0, up).contains(n));
            } else {
                assert(f.contains(m));
            }
        }
        assert(within(nodes, start, k + 1, up) =~= w.union(step_from(nodes, f, up)));
    }
}

/// Once a step reaches nothing new, the reach stays the same forever after.
proof fn lemma_within_stable(nodes: Map<Seq<u8>, NodeView>, start: Seq<u8>, k: nat, j: nat, up: bool)
    requires
        k <= j,
        within(nodes, start, k + 1, up) == within(nodes, start, k, up),
    ensures
        within(nodes, start, j, up) == within(nodes, start, k, up),
    decreases j - k,
{
    if j > k {
        lemma_within_stable(nodes, start, k, (j - 1) as nat, up);
    }
}

/// A step out of a set with one more hash adds what that hash's vertex leads to.
proof fn lemma_step_insert(nodes: Map<Seq<u8>, NodeView>, s: Set<Seq<u8>>, m: Seq<u8>, up: bool)
    requires
        nodes.contains_key(m),
    ensures
        step_from(nodes, s.insert(m), up) == step_from(nodes, s, up).union(next_hops(nodes[m], up).to_set()),
{
    let big = step_from(nodes, s.insert(m), up);
    let small = step_from(nodes, s, up);
    assert forall|n: Seq<u8>| big.contains(n) <==> small.contains(n) || next_hops(nodes[m], up).to_set().contains(n) by {
        if big.contains(n) {
            let x = choose|x: Seq<u8>| #[trigger] s.insert(m).contains(x) && nodes.contains_key(x) && next_hops(nodes[x], up).contains(n);
            if x != m {
                assert(s.contains(x));
            }
        }
        if small.contains(n) {
            let x = choose|x: Seq<u8>| #[trigger] s.contains(x) && nodes.contains_key(x) && next_hops(nodes[x], up).contains(n);
            assert(s.insert(m).contains(x));
        }
        if next_hops(nodes[m], up).contains(n) {
            assert(s.insert(m).contains(m));
        }
    }
    assert(big =~= small.union(next_hops(nodes[m], up).to_set()));
}

/// Only present vertices lead anywhere.
proof fn lemma_step_present(nodes: Map<Seq<u8>, NodeView>, s: Set<Seq<u8>>, up: bool)
    ensures
        step_from(nodes, present(nodes, s), up) == step_from(nodes, s, up),
{
    assert forall|n: Seq<u8>| #[trigger] step_from(nodes, s, up).contains(n) implies step_from(
        nodes,
        present(nodes, s),
        up,
    ).contains(n) by {
        let m = choose|m: Seq<u8>| #[trigger] s.contains(m) && nodes.contains_key(m) && next_hops(nodes[m], up).contains(n);
        assert(present(nodes, s).contains(m));
    }
    lemma_step_monotone(nodes, present(nodes, s), s, up);
    assert(step_from(nodes, present(nodes, s), up) =~= step_from(nodes, s, up));
}

/// A copy of a list of hashes.
fn copy_hashes(v: &Vec<TransactionHash>) -> (c: Vec<TransactionHash>)
    ensures
        c@ == v@,
{
    let mut c: Vec<TransactionHash> = Vec::new();
    let mut i: usize = 0;
    while i < v.len()
        invariant
            i <= v@.len(),
            c@ == v@.take(i as int),
        decreases v@.len() - i,
    {
        c.push(v[i]);
        i = i + 1;
        proof {
            assert(c@ =~= v@.take(i as int));
        }
    }
    proof {
        assert(v@.take(v@.len() as int) =~= v@);
    }
    c
}

/// The hashes a vertex leads to.
fn hops(node: &DagNode, up: bool) -> (v: Vec<TransactionHash>)
    ensures
        hash_views(v@) == next_hops(node@, up),
{
    if up {
        let mut v: Vec<TransactionHash> = Vec::new();
        if !node.tx.parent_1.is_zero() {
            v.push(node.tx.parent_1);
        }
        if !node.tx.parent_2.is_zero() {
            v.push(node.tx.parent_2);
        }
        proof {
            assert(hash_views(v@) =~= next_hops(node@, up));
        }
        v
    } else {
        copy_hashes(&node.children)
    }
}

/// Pushing a hash adds its view to the set of views.
proof fn lemma_hash_push(v: Seq<TransactionHash>, h: TransactionHash)
    ensures
        hash_views(v.push(h)).to_set() == hash_views(v).to_set().insert(h@),
        hash_views(v.push(h)) == hash_views(v).push(h@),
{
    assert(hash_views(v.push(h)) =~= hash_views(v).push(h@));
    lemma_push_to_set(hash_views(v), h@);
}

impl DagGraph {
    /// Walk breadth-first from `hash` for at most `max_levels` steps, up or down,
    /// and report each vertex reached (other than `hash`) once.
    fn walk(&self, hash: &TransactionHash, max_levels: u64, up: bool) -> (result: Vec<TransactionHash>)
        ensures
            hash_views(result@).no_duplicates(),
            hash_views(result@).to_set() == reached(self.nodes_view(), hash@, max_levels as nat, up),
    {
        let ghost nodes = self.nodes_view();
        let ghost start = hash@;
        let mut visited: Vec<TransactionHash> = Vec::new();
        visited.push(*hash);
        let mut result: Vec<TransactionHash> = Vec::new();
        let mut frontier: Vec<TransactionHash> = Vec::new();
        if self.contains(hash) {
            frontier.push(*hash);
        }
        proof {
            lemma_hash_push(Seq::empty(), *hash);
            assert(hash_views(Seq::<TransactionHash>::empty()).to_set() =~= Set::<Seq<u8>>::empty());
            assert(hash_views(visited@).to_set() =~= within(nodes, start, 0, up));
            if nodes.contains_key(start) {
                lemma_hash_push(Seq::empty(), *hash);
            }
            assert(hash_views(frontier@).to_set() =~= present(nodes, fresh(nodes, start, 0, up)));
            assert(hash_views(result@).to_set() =~= reported(nodes, within(nodes, start, 0, up), start));
        }
        let mut level: u64 = 0;
        while level < max_levels && frontier.len() > 0
            invariant_except_break
                level <= max_levels,
            invariant
                nodes == self.nodes_view(),
                start == hash@,
                hash_views(visited@).to_set() == within(nodes, start, level as nat, up),
                hash_views(frontier@).to_set() == present(nodes, fresh(nodes, start, level as nat, up)),
                hash_views(result@).to_set() == reported(nodes, within(nodes, start, level as nat, up), start),
                hash_views(result@).no_duplicates(),
            ensures
                hash_views(result@).to_set() == reported(nodes, within(nodes, start, level as nat, up), start),
                level == max_levels || present(nodes, fresh(nodes, start, level as nat, up)).is_empty(),
                level <= max_levels,
            decreases max_levels - level,
        {
            let ghost w = within(nodes, start, level as nat, up);
            let ghost fset = hash_views(frontier@).to_set();
            let mut next: Vec<TransactionHash> = Vec::new();
            let ghost mut done: Set<Seq<u8>> = Set::empty();
            let mut fi: usize = 0;
            proof {
                lemma_start_within(nodes, start, level as nat, up);
                assert(step_from(nodes, done, up) =~= Set::<Seq<u8>>::empty());
                assert(w.union(Set::<Seq<u8>>::empty()) =~= w);
                assert(hash_views(next@).to_set() =~= present(nodes, step_from(nodes, done, up).difference(w)));
            }
            while fi < frontier.len()
                invariant
                    fi <= frontier@.len(),
                    nodes == self.nodes_view(),
                    start == hash@,
                    w == within(nodes, start, level as nat, up),
                    w.contains(start),
                    fset == hash_views(frontier@).to_set(),
                    fset == present(nodes, fresh(nodes, start, level as nat, up)),
                    done == hash_views(frontier@).take(fi as int).to_set(),
                    hash_views(visited@).to_set() == w.union(step_from(nodes, done, up)),
                    hash_views(next@).to_set() == present(nodes, step_from(nodes, done, up).difference(w)),
                    hash_views(result@).to_set() == reported(nodes, w.union(step_from(nodes, done, up)), start),
                    hash_views(result@).no_duplicates(),
                decreases frontier@.len() - fi,
            {
                let cur = frontier[fi];
                proof {
                    assert(hash_views(frontier@)[fi as int] == cur@);
                    assert(fset.contains(cur@));
                    assert(nodes.contains_key(cur@));
                }
                let ghost base = step_from(nodes, done, up);
                match self.get(&cur) {
                    Some(node) => {
                        let hs = hops(&node, up);
                        let ghost hv = hash_views(hs@);
                        let mut hi: usize = 0;
                        proof {
                            assert(hv.take(0).to_set() =~= Set::<Seq<u8>>::empty());
                            assert(base.union(Set::<Seq<u8>>::empty()) =~= base);
                        }
                        while hi < hs.len()
                            invariant
                                hi <= hs@.len(),
                                hv == hash_views(hs@),
                                nodes == self.nodes_view(),
                                start == hash@,
                                w.contains(start),
                                hash_views(visited@).to_set() == w.union(base.union(hv.take(hi as int).to_set())),
                                hash_views(next@).to_set() == present(
                                    nodes,
                                    base.union(hv.take(hi as int).to_set()).difference(w),
                                ),
                                hash_views(result@).to_set() == reported(
                                    nodes,
                                    w.union(base.union(hv.take(hi as int).to_set())),
                                    start,
                                ),
                                hash_views(result@).no_duplicates(),
                            decreases hs@.len() - hi,
                        {
                            let n = hs[hi];
                            let ghost before = base.union(hv.take(hi as int).to_set());
                            proof {
                                assert(hv.take(hi as int + 1) =~= hv.take(hi as int).push(n@));
                                lemma_push_to_set(hv.take(hi as int), n@);
                                assert(base.union(hv.take(hi as int + 1).to_set()) =~= before.insert(n@));
                            }
                            if !contains_hash(&visited, &n) {
                                let ghost rv = hash_views(result@);
                                proof {
                                    assert(!hash_views(visited@).to_set().contains(n@));
                                    assert(!w.contains(n@));
                                    assert(!before.contains(n@));
                                    lemma_hash_push(visited@, n);
                                }
                                visited.push(n);
                                if self.contains(&n) {
                                    proof {
                                        lemma_hash_push(result@, n);
                                        lemma_hash_push(next@, n);
                                        assert(!rv.contains(n@)) by {
                                            if rv.contains(n@) {
                                                assert(rv.to_set().contains(n@));
                                            }
                                        }
                                        assert forall|a: int, b: int| 0 <= a < b < hash_views(result@).len() implies hash_views(
                                            result@,
                                        )[a] != hash_views(result@)[b] by {
                                            if b == rv.len() {
                                                assert(rv.contains(rv[a]));
                                            }
                                        }
                                    }
                                    result.push(n);
                                    next.push(n);
                                }
                                proof {
                                    assert(hash_views(visited@).to_set() =~= w.union(before.insert(n@)));
                                    assert(hash_views(next@).to_set() =~= present(nodes, before.insert(n@).difference(w)));
                                    assert(hash_views(result@).to_set() =~= reported(nodes, w.union(before.insert(n@)), start));
                                }
                            } else {
                                proof {
                                    assert(w.union(before).contains(n@));
                                    assert(hash_views(visited@).to_set() =~= w.union(before.insert(n@)));
                                    assert(hash_views(next@).to_set() =~= present(nodes, before.insert(n@).difference(w)));
                                    assert(hash_views(result@).to_set() =~= reported(nodes, w.union(before.insert(n@)), start));
                                }
                            }
                            hi = hi + 1;
                        }
                        proof {
                            assert(hv.take(hv.len() as int) =~= hv);
                            lemma_step_insert(nodes, done, cur@, up);
                        }
                    },
                    None => {},
                }
                proof {
                    let ft = hash_views(frontier@);
                    assert(ft.take(fi as int + 1) =~= ft.take(fi as int).push(cur@));
                    lemma_push_to_set(ft.take(fi as int), cur@);
                    done = done.insert(cur@);
                }
                fi = fi + 1;
            }
            proof {
                let ft = hash_views(frontier@);
                assert(ft.take(ft.len() as int) =~= ft);
                lemma_step_present(nodes, fresh(nodes, start, level as nat, up), up);
                lemma_within_next(nodes, start, level as nat, up);
                let w1 = within(nodes, start, level as nat + 1, up);
                assert(w1 == w.union(step_from(nodes, done, up)));
                assert(fresh(nodes, start, level as nat + 1, up) =~= step_from(nodes, done, up).difference(w));
                lemma_start_within(nodes, start, level as nat + 1, up);
            }
            frontier = next;
            level = level + 1;
        }
        proof {
            if level < max_levels {
                let f = fresh(nodes, start, level as nat, up);
                lemma_within_next(nodes, start, level as nat, up);
                lemma_step_present(nodes, f, up);
                assert(present(nodes, f) =~= Set::<Seq<u8>>::empty());
                assert(step_from(nodes, Set::<Seq<u8>>::empty(), up) =~= Set::<Seq<u8>>::empty());
                assert(within(nodes, start, level as nat + 1, up) =~= within(nodes, start, level as nat, up));
                lemma_within_stable(nodes, start, level as nat, max_levels as nat, up);
            }
        }
        result
    }

    /// The ancestors of a vertex within `max_levels` parent steps, each once, in
    /// breadth-first order (nearest first).
    pub fn get_ancestors(&self, hash: &TransactionHash, max_levels: u64) -> (result: Vec<TransactionHash>)
        ensures
            hash_views(result@).no_duplicates(),
            hash_views(result@).to_set() == reached(self.nodes_view(), hash@, max_levels as nat, true),
    {
        self.walk(hash, max_levels, true)
    }

    /// The descendants of a vertex within `max_levels` child steps, each once, in
    /// breadth-first order (nearest first).
    pub fn get_descendants(&self, hash: &TransactionHash, max_levels: u64) -> (result: Vec<TransactionHash>)
        ensures
            hash_views(result@).no_duplicates(),
            hash_views(result@).to_set() == reached(self.nodes_view(), hash@, max_levels as nat, false),
    {
        self.walk(hash, max_levels, false)
    }
}

} // verus!
