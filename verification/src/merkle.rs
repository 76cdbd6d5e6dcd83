//! Merkle trees over SHA3-256 leaf hashes, with inclusion proofs.
use vstd::prelude::*;
use crate::bytes::{bytes_match, extend_bytes};
use crate::crypto::{sha3_256, sha3_digest};

verus! {

// ─── Model ─────────────────────────────────────────────────────────────────

/// The hash of an inner node: SHA3-256 of `left || right`.
pub open spec fn hash_pair(left: Seq<u8>, right: Seq<u8>) -> Seq<u8> {
    sha3_digest(left + right)
}

/// One step up a proof path: `sibling_right` means the sibling is the right child.
pub open spec fn combine(cur: Seq<u8>, sibling: Seq<u8>, sibling_right: bool) -> Seq<u8> {
    if sibling_right {
        hash_pair(cur, sibling)
    } else {
        hash_pair(sibling, cur)
    }
}

/// The hash reached by folding a proof path over a starting hash (pairs beyond the
/// shorter of the two sequences are ignored).
pub open spec fn fold_path(cur: Seq<u8>, siblings: Seq<Seq<u8>>, dirs: Seq<bool>) -> Seq<u8>
    decreases siblings.len(),
{
    if siblings.len() == 0 || dirs.len() == 0 {
        cur
    } else {
        fold_path(combine(cur, siblings[0], dirs[0]), siblings.drop_first(), dirs.drop_first())
    }
}

/// Whether `z` is a power of two.
pub open spec fn is_pow2(z: nat) -> bool
    decreases z,
{
    if z <= 1 {
        z == 1
    } else {
        z % 2 == 0 && is_pow2(z / 2)
    }
}

/// The least power of two at or above `n`, searching upwards from `p`.
pub open spec fn pow2_from(p: nat, n: nat) -> nat
    decreases (if p < n { n - p } else { 0 }),
{
    if p == 0 || p >= n {
        p
    } else {
        pow2_from(2 * p, n)
    }
}

/// The least power of two at or above `n` (`usize::next_power_of_two`).
pub open spec fn pow2_ceil(n: nat) -> nat {
    pow2_from(1, n)
}

/// The parent at index `i` of the level starting at `s` with `z` nodes is the hash of its children.
pub open spec fn parent_ok(n: Seq<Seq<u8>>, s: int, z: int, i: int) -> bool {
    n[s + z + i] == hash_pair(n[s + 2 * i], n[s + 2 * i + 1])
}

/// Every parent of the level starting at `s` with `z` nodes is the hash of its children.
pub open spec fn parents_ok(n: Seq<Seq<u8>>, s: int, z: int) -> bool {
    forall|i: int| 0 <= i < z / 2 ==> #[trigger] parent_ok(n, s, z, i)
}

/// The levels from `(s, z)` up to `(ts, tz)` are linked: each parent level follows its child level.
pub open spec fn chain(n: Seq<Seq<u8>>, s: int, z: nat, ts: int, tz: nat) -> bool
    decreases z,
{
    if s == ts {
        z == tz
    } else {
        z > 1 && z % 2 == 0 && parents_ok(n, s, z as int) && chain(n, s + z, z / 2, ts, tz)
    }
}

/// A complete tree whose bottom level starts at `s` and has `z` nodes; the root is last.
pub open spec fn tree_ok(n: Seq<Seq<u8>>, s: int, z: nat) -> bool
    decreases z,
{
    if z <= 1 {
        z == 1 && n.len() == s + 1
    } else {
        z % 2 == 0 && parents_ok(n, s, z as int) && tree_ok(n, s + z, z / 2)
    }
}

/// The index of a node's sibling.
pub open spec fn sibling_of(i: int) -> int {
    if i % 2 == 0 {
        i + 1
    } else {
        i - 1
    }
}

/// The siblings on the path from node `i` of the level `(s, z)` to the root.
pub open spec fn path_siblings(n: Seq<Seq<u8>>, s: int, z: nat, i: int) -> Seq<Seq<u8>>
    decreases z,
{
    if z <= 1 {
        Seq::empty()
    } else {
        seq![n[s + sibling_of(i)]] + path_siblings(n, s + z, z / 2, i / 2)
    }
}

/// The directions on the path from node `i` of a level of `z` nodes to the root.
pub open spec fn path_directions(z: nat, i: int) -> Seq<bool>
    decreases z,
{
    if z <= 1 {
        Seq::empty()
    } else {
        seq![i % 2 == 0] + path_directions(z / 2, i / 2)
    }
}

/// The level above a level of nodes: the hash of each pair, left to right.
pub open spec fn parent_level(level: Seq<Seq<u8>>) -> Seq<Seq<u8>> {
    Seq::new(level.len() / 2, |i: int| hash_pair(level[2 * i], level[2 * i + 1]))
}

/// The root over a bottom level: the level itself when it holds one node, else
/// the root over the level above it.
pub open spec fn level_root(level: Seq<Seq<u8>>) -> Seq<u8>
    decreases level.len(),
{
    if level.len() <= 1 {
        level[0]
    } else {
        level_root(parent_level(level))
    }
}

/// Leaf hashes padded with zero hashes up to the next power of two.
pub open spec fn padded_leaves(leaves: Seq<Seq<u8>>) -> Seq<Seq<u8>> {
    Seq::new(pow2_ceil(leaves.len()), |i: int| if i < leaves.len() { leaves[i] } else { zero_hash() })
}

/// The Merkle root of a list of leaf hashes: the zero hash for none, else the
/// root over the leaves padded with zero hashes to a power of two, each parent
/// the SHA3-256 of its two children.
pub open spec fn merkle_root(leaves: Seq<Seq<u8>>) -> Seq<u8> {
    if leaves.len() == 0 {
        zero_hash()
    } else {
        level_root(padded_leaves(leaves))
    }
}

/// The number of halvings from `z` down to one: log2 of a power of two.
pub open spec fn log2_of(z: nat) -> nat
    decreases z,
{
    if z <= 1 {
        0
    } else {
        1 + log2_of(z / 2)
    }
}

// ─── Lemmas ────────────────────────────────────────────────────────────────

/// The last node of a complete tree is the root over its bottom level.
proof fn lemma_tree_root(n: Seq<Seq<u8>>, s: int, z: nat)
    requires
        tree_ok(n, s, z),
        0 <= s,
    ensures
        n.len() == s + 2 * z - 1,
        n.last() == level_root(n.subrange(s, s + z)),
    decreases z,
{
    lemma_tree_len(n, s, z);
    if z > 1 {
        lemma_tree_root(n, s + z, z / 2);
        let lv = n.subrange(s, s + z);
        assert(parent_level(lv) =~= n.subrange(s + z, s + z + z / 2)) by {
            assert forall|i: int| 0 <= i < z / 2 implies #[trigger] parent_level(lv)[i] == n.subrange(
                s + z,
                s + z + z / 2,
            )[i] by {
                assert(parent_ok(n, s, z as int, i));
            }
        }
    }
}

/// A proof path of a level of `z` nodes has one step per halving, and step `k`
/// says whether bit `k` of the index is clear.
proof fn lemma_path_shape(n: Seq<Seq<u8>>, s: int, z: nat, i: int)
    requires
        0 <= i,
    ensures
        path_siblings(n, s, z, i).len() == log2_of(z),
        path_directions(z, i).len() == log2_of(z),
        forall|k: nat| k < log2_of(z) ==> #[trigger] path_directions(z, i)[k as int] == ((i / (
        vstd::arithmetic::power2::pow2(k) as int)) % 2 == 0),
    decreases z,
{
    if z > 1 {
        lemma_path_shape(n, s + z, z / 2, i / 2);
        let rest = path_directions(z / 2, i / 2);
        assert(path_directions(z, i) =~= seq![i % 2 == 0] + rest);
        assert forall|k: nat| k < log2_of(z) implies #[trigger] path_directions(z, i)[k as int] == ((i / (
        vstd::arithmetic::power2::pow2(k) as int)) % 2 == 0) by {
            if k == 0 {
                assert(vstd::arithmetic::power2::pow2(0) == 1) by {
                    vstd::arithmetic::power2::lemma2_to64();
                }
                assert(i / 1 == i);
            } else {
                let k1 = (k - 1) as nat;
                vstd::arithmetic::power2::lemma_pow2_unfold(k);
                vstd::arithmetic::power2::lemma_pow2_pos(k1);
                assert(path_directions(z, i)[k as int] == rest[k1 as int]);
                assert(rest[k1 as int] == (((i / 2) / (vstd::arithmetic::power2::pow2(k1) as int)) % 2 == 0));
                vstd::arithmetic::div_mod::lemma_div_denominator(i, 2, vstd::arithmetic::power2::pow2(k1) as int);
            }
        }
    }
}

proof fn lemma_tree_len(n: Seq<Seq<u8>>, s: int, z: nat)
    requires
        tree_ok(n, s, z),
    ensures
        n.len() == s + 2 * z - 1,
    decreases z,
{
    if z > 1 {
        lemma_tree_len(n, s + z, z / 2);
    }
}

/// Folding the path of any node of a complete tree reaches the root.
proof fn lemma_path_reaches_root(n: Seq<Seq<u8>>, s: int, z: nat, i: int)
    requires
        tree_ok(n, s, z),
        0 <= i < z,
    ensures
        fold_path(n[s + i], path_siblings(n, s, z, i), path_directions(z, i)) == n.last(),
    decreases z,
{
    if z > 1 {
        let sibs = path_siblings(n, s, z, i);
        let dirs = path_directions(z, i);
        assert(parent_ok(n, s, z as int, i / 2));
        assert(combine(n[s + i], sibs[0], dirs[0]) == n[s + z + i / 2]);
        assert(sibs.drop_first() =~= path_siblings(n, s + z, z / 2, i / 2));
        assert(dirs.drop_first() =~= path_directions(z / 2, i / 2));
        lemma_path_reaches_root(n, s + z, z / 2, i / 2);
    }
}

proof fn lemma_chain_bound(n: Seq<Seq<u8>>, s: int, z: nat, ts: int, tz: nat)
    requires
        chain(n, s, z, ts, tz),
    ensures
        s + z <= ts + tz,
        s <= ts,
    decreases z,
{
    if s != ts {
        lemma_chain_bound(n, s + z, z / 2, ts, tz);
    }
}

proof fn lemma_chain_push(n: Seq<Seq<u8>>, x: Seq<u8>, s: int, z: nat, ts: int, tz: nat)
    requires
        chain(n, s, z, ts, tz),
        n.len() >= ts + tz,
        s >= 0,
    ensures
        chain(n.push(x), s, z, ts, tz),
    decreases z,
{
    if s != ts {
        lemma_chain_bound(n, s + z, z / 2, ts, tz);
        assert forall|i: int| 0 <= i < z / 2 implies #[trigger] parent_ok(n.push(x), s, z as int, i) by {
            assert(parent_ok(n, s, z as int, i));
        }
        lemma_chain_push(n, x, s + z, z / 2, ts, tz);
    }
}

proof fn lemma_chain_extend(n: Seq<Seq<u8>>, s: int, z: nat, ts: int, tz: nat)
    requires
        chain(n, s, z, ts, tz),
        tz > 1,
        tz % 2 == 0,
        parents_ok(n, ts, tz as int),
    ensures
        chain(n, s, z, ts + tz, tz / 2),
    decreases z,
{
    lemma_chain_bound(n, s, z, ts, tz);
    if s != ts {
        lemma_chain_extend(n, s + z, z / 2, ts, tz);
    } else {
        assert(chain(n, s + z, z / 2, ts + tz, tz / 2));
    }
}

proof fn lemma_chain_to_tree(n: Seq<Seq<u8>>, s: int, z: nat, ts: int)
    requires
        chain(n, s, z, ts, 1),
        n.len() == ts + 1,
    ensures
        tree_ok(n, s, z),
    decreases z,
{
    if s != ts {
        lemma_chain_to_tree(n, s + z, z / 2, ts);
    }
}

proof fn lemma_pow2_from(p: nat, n: nat)
    requires
        is_pow2(p),
        p >= 1,
    ensures
        is_pow2(pow2_from(p, n)),
        pow2_from(p, n) >= n,
        pow2_from(p, n) >= p,
        n >= 1 ==> pow2_from(p, n) < 2 * n || pow2_from(p, n) == p,
    decreases (if p < n { n - p } else { 0 }),
{
    if p < n {
        assert(is_pow2(2 * p)) by {
            assert((2 * p) / 2 == p);
        }
        lemma_pow2_from(2 * p, n);
    }
}

proof fn lemma_pow2_half(z: nat)
    requires
        is_pow2(z),
        z > 1,
    ensures
        z % 2 == 0,
        is_pow2(z / 2),
        z / 2 >= 1,
{
}

// ─── Tree ──────────────────────────────────────────────────────────────────

/// Computes the least power of two at or above `n`.
fn next_pow2(n: usize) -> (p: usize)
    requires
        n >= 1,
        2 * n <= usize::MAX,
    ensures
        p == pow2_ceil(n as nat),
        is_pow2(p as nat),
        n <= p,
        p < 2 * n || p == 1,
{
    proof {
        lemma_pow2_from(1, n as nat);
    }
    let mut p: usize = 1;
    while p < n
        invariant
            1 <= p,
            is_pow2(p as nat),
            p < 2 * n,
            pow2_from(p as nat, n as nat) == pow2_ceil(n as nat),
            2 * n <= usize::MAX,
        decreases 2 * n - p,
    {
        assert(is_pow2(2 * p as nat)) by {
            assert(((2 * p) as nat) / 2 == p as nat);
        }
        p = p * 2;
    }
    p
}

/// Hash of the pair `left || right`.
fn hash_nodes(left: &[u8; 32], right: &[u8; 32]) -> (h: [u8; 32])
    ensures
        h@ == hash_pair(left@, right@),
{
    let mut combined: Vec<u8> = Vec::with_capacity(64);
    extend_bytes(&mut combined, left);
    extend_bytes(&mut combined, right);
    sha3_256(combined.as_slice())
}

/// Merkle tree built from SHA3-256 leaf hashes, padded with zero hashes to a power of two.
#[derive(Debug)]
pub struct MerkleTree {
    nodes: Vec<[u8; 32]>,
    leaf_count: usize,
}

/// The views of a sequence of hashes.
pub open spec fn hash_views(v: Seq<[u8; 32]>) -> Seq<Seq<u8>> {
    v.map_values(|h: [u8; 32]| h@)
}

/// The 32-byte zero hash.
pub open spec fn zero_hash() -> Seq<u8> {
    Seq::new(32, |i: int| 0u8)
}

impl MerkleTree {
    /// The nodes of the tree, bottom-up; the root is last.
    pub closed spec fn node_views(&self) -> Seq<Seq<u8>> {
        hash_views(self.nodes@)
    }

    /// The number of leaves.
    pub closed spec fn leaves(&self) -> nat {
        self.leaf_count as nat
    }

    /// The width of the bottom level.
    pub open spec fn padded(&self) -> nat {
        pow2_ceil(self.leaves())
    }

    /// Every tree is well formed.
    #[verifier::type_invariant]
    closed spec fn inv(self) -> bool {
        self.wf()
    }

    /// An empty tree holds the zero hash alone; otherwise the nodes form a complete tree
    /// whose bottom level is the padded leaves.
    pub closed spec fn wf(self) -> bool {
        if self.leaf_count == 0 {
            self.nodes@.len() == 1 && self.nodes@[0]@ == zero_hash()
        } else {
            &&& tree_ok(hash_views(self.nodes@), 0, pow2_ceil(self.leaf_count as nat))
            &&& forall|i: int|
                self.leaf_count <= i < pow2_ceil(self.leaf_count as nat) ==> #[trigger] self.nodes@[i]@
                    == zero_hash()
            &&& is_pow2(pow2_ceil(self.leaf_count as nat))
            &&& self.leaf_count <= pow2_ceil(self.leaf_count as nat)
            &&& 2 * pow2_ceil(self.leaf_count as nat) <= usize::MAX
        }
    }

    /// The root hash.
    pub open spec fn root_view(&self) -> Seq<u8> {
        self.node_views().last()
    }

    /// The leaf hash at index `i`.
    pub open spec fn leaf_view(&self, i: int) -> Seq<u8> {
        self.node_views()[i]
    }

    /// Build a tree from leaf data; each leaf is hashed with SHA3-256.
    pub fn from_leaves(leaves: &[&[u8]]) -> (t: Self)
        requires
            4 * leaves@.len() <= usize::MAX,
        ensures
            t.wf(),
            t.leaves() == leaves@.len(),
            forall|i: int| 0 <= i < leaves@.len() ==> #[trigger] t.leaf_view(i) == sha3_digest(leaves@[i]@),
            forall|i: int| leaves@.len() <= i < t.padded() ==> #[trigger] t.leaf_view(i) == zero_hash(),
            leaves@.len() == 0 ==> t.root_view() == zero_hash(),
            t.root_view() == merkle_root(Seq::new(leaves@.len(), |i: int| sha3_digest(leaves@[i]@))),
    {
        if leaves.len() == 0 {
            let mut nodes: Vec<[u8; 32]> = Vec::new();
            nodes.push([0u8; 32]);
            assert(nodes@[0]@ =~= zero_hash());
            return MerkleTree { nodes, leaf_count: 0 };
        }
        let mut hashes: Vec<[u8; 32]> = Vec::with_capacity(leaves.len());
        let mut i: usize = 0;
        while i < leaves.len()
            invariant
                i <= leaves@.len(),
                hashes@.len() == i,
                forall|j: int| 0 <= j < i ==> #[trigger] hashes@[j]@ == sha3_digest(leaves@[j]@),
            decreases leaves@.len() - i,
        {
            hashes.push(sha3_256(leaves[i]));
            i = i + 1;
        }
        proof {
            assert(hash_views(hashes@) =~= Seq::new(leaves@.len(), |i: int| sha3_digest(leaves@[i]@)));
        }
        Self::from_hashes(hashes.as_slice())
    }

    /// Build a tree from pre-computed leaf hashes.
    pub fn from_hashes(leaf_hashes: &[[u8; 32]]) -> (t: Self)
        requires
            4 * leaf_hashes@.len() <= usize::MAX,
        ensures
            t.wf(),
            t.leaves() == leaf_hashes@.len(),
            forall|i: int| 0 <= i < leaf_hashes@.len() ==> #[trigger] t.leaf_view(i) == leaf_hashes@[i]@,
            forall|i: int| leaf_hashes@.len() <= i < t.padded() ==> #[trigger] t.leaf_view(i) == zero_hash(),
            leaf_hashes@.len() == 0 ==> t.root_view() == zero_hash(),
            t.root_view() == merkle_root(hash_views(leaf_hashes@)),
    {
        if leaf_hashes.len() == 0 {
            let mut nodes: Vec<[u8; 32]> = Vec::new();
            nodes.push([0u8; 32]);
            assert(nodes@[0]@ =~= zero_hash());
            return MerkleTree { nodes, leaf_count: 0 };
        }
        let leaf_count = leaf_hashes.len();
        let padded = next_pow2(leaf_count);
        let mut nodes: Vec<[u8; 32]> = Vec::with_capacity(2 * padded);
        let mut k: usize = 0;
        while k < padded
            invariant
                k <= padded,
                leaf_count == leaf_hashes@.len(),
                leaf_count <= padded,
                nodes@.len() == k,
                forall|j: int| 0 <= j < k && j < leaf_count ==> #[trigger] nodes@[j] == leaf_hashes@[j],
                forall|j: int| leaf_count <= j < k ==> #[trigger] nodes@[j]@ == zero_hash(),
            decreases padded - k,
        {
            if k < leaf_count {
                nodes.push(leaf_hashes[k]);
            } else {
                nodes.push([0u8; 32]);
                assert(nodes@[k as int]@ =~= zero_hash());
            }
            k = k + 1;
        }
        let ghost leaves_snapshot = nodes@;
        let mut level_start: usize = 0;
        let mut level_size: usize = padded;
        while level_size > 1
            invariant
                is_pow2(level_size as nat),
                level_size >= 1,
                level_start + 2 * level_size <= 2 * padded,
                2 * padded <= usize::MAX,
                chain(hash_views(nodes@), 0, padded as nat, level_start as int, level_size as nat),
                nodes@.len() == level_start + level_size,
                nodes@.len() >= padded,
                nodes@.subrange(0, padded as int) == leaves_snapshot,
            decreases level_size,
        {
            proof {
                lemma_pow2_half(level_size as nat);
            }
            let next_level_size = level_size / 2;
            let ghost before = nodes@;
            let mut i: usize = 0;
            while i < next_level_size
                invariant
                    i <= next_level_size,
                    next_level_size == level_size / 2,
                    level_size % 2 == 0,
                    level_start + 2 * level_size <= 2 * padded,
                    2 * padded <= usize::MAX,
                    nodes@.len() == level_start + level_size + i,
                    nodes@.subrange(0, before.len() as int) == before,
                    before.len() == level_start + level_size,
                    chain(hash_views(nodes@), 0, padded as nat, level_start as int, level_size as nat),
                    forall|j: int| 0 <= j < i ==> #[trigger] parent_ok(hash_views(nodes@), level_start as int, level_size as int, j),
                decreases next_level_size - i,
            {
                let left = nodes[level_start + 2 * i];
                let right = nodes[level_start + 2 * i + 1];
                let h = hash_nodes(&left, &right);
                let ghost old_nodes = nodes@;
                nodes.push(h);
                proof {
                    let nv = hash_views(old_nodes);
                    let nv2 = hash_views(nodes@);
                    assert(nv2 =~= nv.push(h@));
                    lemma_chain_push(nv, h@, 0, padded as nat, level_start as int, level_size as nat);
                    assert forall|j: int| 0 <= j < i + 1 implies #[trigger] parent_ok(nv2, level_start as int, level_size as int, j) by {
                        if j < i {
                            assert(parent_ok(nv, level_start as int, level_size as int, j));
                        }
                    }
                    assert(nodes@.subrange(0, before.len() as int) =~= old_nodes.subrange(0, before.len() as int));
                }
                i = i + 1;
            }
            proof {
                let nv = hash_views(nodes@);
                assert(parents_ok(nv, level_start as int, level_size as int));
                lemma_chain_extend(nv, 0, padded as nat, level_start as int, level_size as nat);
                assert(nodes@.subrange(0, padded as int) =~= before.subrange(0, padded as int));
            }
            level_start = level_start + level_size;
            level_size = next_level_size;
        }
        proof {
            lemma_chain_to_tree(hash_views(nodes@), 0, padded as nat, level_start as int);
            assert forall|i: int| 0 <= i < leaf_count implies #[trigger] hash_views(nodes@)[i] == leaf_hashes@[i]@ by {
                assert(nodes@[i] == leaves_snapshot[i]);
            }
            assert forall|i: int| leaf_count <= i < padded implies #[trigger] nodes@[i]@ == zero_hash() by {
                assert(nodes@[i] == leaves_snapshot[i]);
            }
        }
        let t = MerkleTree { nodes, leaf_count };
        proof {
            lemma_root_of(t);
            assert(Seq::new(t.leaves(), |i: int| t.leaf_view(i)) =~= hash_views(leaf_hashes@));
        }
        t
    }

    /// The Merkle root hash.
    pub fn root(&self) -> (r: [u8; 32])
        ensures
            r@ == self.root_view(),
    {
        proof {
            use_type_invariant(self);
            if self.leaf_count > 0 {
                lemma_tree_len(self.node_views(), 0, self.padded());
            }
        }
        self.nodes[self.nodes.len() - 1]
    }

    /// An inclusion proof for the leaf at `leaf_index`; `None` past the last leaf.
    pub fn inclusion_proof(&self, leaf_index: usize) -> (res: Option<MerkleProof>)
        ensures
            res is Some <==> leaf_index < self.leaves(),
            res matches Some(p) ==> {
                &&& p.leaf_hash@ == self.leaf_view(leaf_index as int)
                &&& hash_views(p.siblings@) == path_siblings(self.node_views(), 0, self.padded(), leaf_index as int)
                &&& p.directions@ == path_directions(self.padded(), leaf_index as int)
                &&& fold_path(p.leaf_hash@, hash_views(p.siblings@), p.directions@) == self.root_view()
            },
    {
        proof {
            use_type_invariant(self);
        }
        if leaf_index >= self.leaf_count {
            return None;
        }
        let ghost nv = self.node_views();
        let padded = self.padded_len();
        proof {
            lemma_tree_len(nv, 0, padded as nat);
        }
        let total = self.nodes.len();
        let mut siblings: Vec<[u8; 32]> = Vec::new();
        let mut directions: Vec<bool> = Vec::new();
        let mut index = leaf_index;
        let mut level_start: usize = 0;
        let mut level_size: usize = padded;
        while level_size > 1
            invariant
                nv == self.node_views(),
                nv.len() == self.nodes@.len(),
                total == nv.len(),
                tree_ok(nv, level_start as int, level_size as nat),
                is_pow2(level_size as nat),
                index < level_size,
                nv.len() == level_start + 2 * level_size - 1,
                hash_views(siblings@) + path_siblings(nv, level_start as int, level_size as nat, index as int)
                    == path_siblings(nv, 0, padded as nat, leaf_index as int),
                directions@ + path_directions(level_size as nat, index as int)
                    == path_directions(padded as nat, leaf_index as int),
            decreases level_size,
        {
            proof {
                lemma_pow2_half(level_size as nat);
            }
            let sibling_index = if index % 2 == 0 { index + 1 } else { index - 1 };
            let ghost old_sibs = siblings@;
            let ghost old_dirs = directions@;
            siblings.push(self.nodes[level_start + sibling_index]);
            directions.push(index % 2 == 0);
            proof {
                let rest = path_siblings(nv, (level_start + level_size) as int, (level_size / 2) as nat, (index / 2) as int);
                assert(hash_views(siblings@) =~= hash_views(old_sibs).push(nv[level_start + sibling_index]));
                assert(hash_views(siblings@) + rest =~= hash_views(old_sibs) + path_siblings(nv, level_start as int, level_size as nat, index as int));
                assert(directions@ + path_directions((level_size / 2) as nat, (index / 2) as int)
                    =~= old_dirs + path_directions(level_size as nat, index as int));
            }
            index = index / 2;
            level_start = level_start + level_size;
            level_size = level_size / 2;
        }
        proof {
            assert(hash_views(siblings@) =~= hash_views(siblings@) + path_siblings(nv, level_start as int, level_size as nat, index as int));
            assert(directions@ =~= directions@ + path_directions(level_size as nat, index as int));
            lemma_path_reaches_root(nv, 0, padded as nat, leaf_index as int);
        }
        Some(MerkleProof { leaf_hash: self.nodes[leaf_index], siblings, directions })
    }

    /// The width of the bottom level.
    fn padded_len(&self) -> (p: usize)
        requires
            self.leaves() > 0,
        ensures
            p == self.padded(),
    {
        proof {
            use_type_invariant(self);
            lemma_tree_len(self.node_views(), 0, self.padded());
        }
        let n = self.nodes.len();
        let p = next_pow2(self.leaf_count);
        p
    }

    /// Number of leaves in the tree.
    pub fn leaf_count(&self) -> (n: usize)
        ensures
            n == self.leaves(),
    {
        self.leaf_count
    }
}

impl Clone for MerkleTree {
    fn clone(&self) -> (c: Self)
        ensures
            c.node_views() == self.node_views(),
            c.leaves() == self.leaves(),
    {
        proof {
            use_type_invariant(self);
        }
        let mut nodes: Vec<[u8; 32]> = Vec::new();
        let mut i: usize = 0;
        while i < self.nodes.len()
            invariant
                i <= self.nodes@.len(),
                nodes@ == self.nodes@.take(i as int),
            decreases self.nodes@.len() - i,
        {
            nodes.push(self.nodes[i]);
            assert(self.nodes@.take(i + 1) =~= self.nodes@.take(i as int).push(self.nodes@[i as int]));
            i = i + 1;
        }
        proof {
            assert(nodes@ =~= self.nodes@);
            assert(hash_views(nodes@) =~= hash_views(self.nodes@));
        }
        MerkleTree { nodes, leaf_count: self.leaf_count }
    }
}

/// A Merkle inclusion proof for a single leaf.
#[derive(Debug, Clone)]
pub struct MerkleProof {
    /// Hash of the leaf being proved.
    pub leaf_hash: [u8; 32],
    /// Sibling hashes along the path to the root.
    pub siblings: Vec<[u8; 32]>,
    /// For each sibling, whether it is the right child.
    pub directions: Vec<bool>,
}

impl MerkleProof {
    /// Verify this proof against an expected root hash.
    pub fn verify(&self, expected_root: &[u8; 32]) -> (ok: bool)
        ensures
            ok == (fold_path(self.leaf_hash@, hash_views(self.siblings@), self.directions@) == expected_root@),
    {
        let ghost sibs = hash_views(self.siblings@);
        let ghost dirs = self.directions@;
        let mut current = self.leaf_hash;
        let mut i: usize = 0;
        assert(sibs.skip(0) =~= sibs);
        assert(dirs.skip(0) =~= dirs);
        while i < self.siblings.len() && i < self.directions.len()
            invariant
                i <= self.siblings@.len(),
                i <= self.directions@.len(),
                sibs == hash_views(self.siblings@),
                dirs == self.directions@,
                fold_path(current@, sibs.skip(i as int), dirs.skip(i as int)) == fold_path(self.leaf_hash@, sibs, dirs),
            decreases self.siblings@.len() - i,
        {
            let sibling = self.siblings[i];
            let ghost cur = current@;
            if self.directions[i] {
                current = hash_nodes(&current, &sibling);
            } else {
                current = hash_nodes(&sibling, &current);
            }
            proof {
                assert(sibs.skip(i as int).drop_first() =~= sibs.skip(i + 1));
                assert(dirs.skip(i as int).drop_first() =~= dirs.skip(i + 1));
                assert(sibs.skip(i as int)[0] == sibling@);
                assert(current@ == combine(cur, sibs.skip(i as int)[0], dirs.skip(i as int)[0]));
            }
            i = i + 1;
        }
        proof {
            assert(sibs.skip(i as int).len() == 0 || dirs.skip(i as int).len() == 0);
            assert(fold_path(current@, sibs.skip(i as int), dirs.skip(i as int)) == current@);
        }
        let same = bytes_match(&current, 0, expected_root, 32);
        proof {
            assert(current@.subrange(0, 32) =~= current@);
            assert(expected_root@.subrange(0, 32) =~= expected_root@);
        }
        same
    }
}

/// The root of a well-formed tree is the Merkle root of its leaves, and the
/// padding leaves are zero hashes.
proof fn lemma_root_of(t: MerkleTree)
    requires
        t.wf(),
    ensures
        t.root_view() == merkle_root(Seq::new(t.leaves(), |i: int| t.leaf_view(i))),
        forall|i: int| t.leaves() <= i < t.padded() ==> #[trigger] t.leaf_view(i) == zero_hash(),
{
    if t.leaves() > 0 {
        let nv = t.node_views();
        lemma_tree_root(nv, 0, t.padded());
        let ls = Seq::new(t.leaves(), |i: int| t.leaf_view(i));
        assert(nv.subrange(0, t.padded() as int) =~= padded_leaves(ls)) by {
            assert forall|i: int| 0 <= i < t.padded() implies #[trigger] nv.subrange(0, t.padded() as int)[i]
                == padded_leaves(ls)[i] by {
                if i >= t.leaves() {
                    assert(t.nodes@[i]@ == zero_hash());
                }
            }
        }
    } else {
        assert(t.node_views().last() == t.nodes@[0]@);
    }
    assert forall|i: int| t.leaves() <= i < t.padded() implies #[trigger] t.leaf_view(i) == zero_hash() by {
        if t.leaves() > 0 {
            lemma_tree_len(t.node_views(), 0, t.padded());
            assert(t.nodes@[i]@ == zero_hash());
        } else {
            assert(t.padded() == 1);
            assert(t.nodes@[0]@ == zero_hash());
        }
    }
}

/// Law: the root of any tree is the Merkle root of its leaves (zero hashes
/// padding the bottom level to a power of two).
pub proof fn law_root_of_leaves(t: MerkleTree)
    requires
        t.wf(),
    ensures
        t.root_view() == merkle_root(Seq::new(t.leaves(), |i: int| t.leaf_view(i))),
        forall|i: int| t.leaves() <= i < t.padded() ==> #[trigger] t.leaf_view(i) == zero_hash(),
{
    lemma_root_of(t);
}

/// Law: a tree's proof path for any leaf has one sibling and one direction per
/// level above the leaves (log2 of the padded width), and direction `k` says
/// whether bit `k` of the leaf's index is clear (the sibling is on the right).
pub proof fn law_proof_shape(t: MerkleTree, i: int)
    requires
        0 <= i,
    ensures
        path_siblings(t.node_views(), 0, t.padded(), i).len() == log2_of(t.padded()),
        path_directions(t.padded(), i).len() == log2_of(t.padded()),
        forall|k: nat| k < log2_of(t.padded()) ==> #[trigger] path_directions(t.padded(), i)[k as int] == ((i / (
        vstd::arithmetic::power2::pow2(k) as int)) % 2 == 0),
{
    lemma_path_shape(t.node_views(), 0, t.padded(), i);
}

/// Halving a power of two down to one takes as many steps as its exponent.
proof fn lemma_log2_pow2(z: nat)
    requires
        is_pow2(z),
    ensures
        vstd::arithmetic::power2::pow2(log2_of(z)) == z,
    decreases z,
{
    if z > 1 {
        lemma_log2_pow2(z / 2);
        vstd::arithmetic::power2::lemma_pow2_unfold(log2_of(z));
    } else {
        vstd::arithmetic::power2::lemma2_to64();
    }
}

/// Law: a tree's proof paths have as many steps as the padded width has
/// trailing zero bits (the width is two to that power), and step `k` of the
/// path of leaf `i` says whether `(i >> k) % 2 == 0`.
pub proof fn law_proof_shape_bits(t: MerkleTree, i: u64)
    requires
        t.wf(),
    ensures
        vstd::arithmetic::power2::pow2(log2_of(t.padded())) == t.padded(),
        path_directions(t.padded(), i as int).len() == log2_of(t.padded()),
        log2_of(t.padded()) < 64,
        forall|k: u64| k < log2_of(t.padded()) ==> #[trigger] path_directions(t.padded(), i as int)[k as int]
            == ((i >> k) % 2 == 0),
{
    let z = t.padded();
    if t.leaves() == 0 {
        assert(z == 1);
    }
    assert(is_pow2(z));
    lemma_log2_pow2(z);
    lemma_path_shape(t.node_views(), 0, z, i as int);
    vstd::arithmetic::power2::lemma2_to64();
    if log2_of(z) >= 64 {
        if log2_of(z) > 64 {
            vstd::arithmetic::power2::lemma_pow2_strictly_increases(64, log2_of(z));
        }
        assert(z <= usize::MAX);
        assert(false);
    }
    assert forall|k: u64| k < log2_of(z) implies #[trigger] path_directions(z, i as int)[k as int] == ((i >> k)
        % 2 == 0) by {
        vstd::bits::lemma_u64_shr_is_div(i, k);
        assert(path_directions(z, i as int)[k as int] == ((i as int / (vstd::arithmetic::power2::pow2(
            k as nat,
        ) as int)) % 2 == 0));
    }
}

/// Law: the proof that a tree gives for any of its leaves verifies against its root.
pub proof fn law_proofs_verify(t: MerkleTree, i: int)
    requires
        t.wf(),
        0 <= i < t.leaves(),
    ensures
        fold_path(
            t.leaf_view(i),
            path_siblings(t.node_views(), 0, t.padded(), i),
            path_directions(t.padded(), i),
        ) == t.root_view(),
{
    lemma_path_reaches_root(t.node_views(), 0, t.padded(), i);
}

} // verus!
