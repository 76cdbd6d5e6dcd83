//! The order in which ledger tables are listed: address texts compared
//! character by character (the order of `str`), and the canonical listing of a
//! table sorted by that order.
use vstd::prelude::*;
use vstd::relations::{sorted_by, total_ordering};
use vstd::seq_lib::lemma_sorted_unique;
use crate::tables::lists_entries;

verus! {

broadcast use vstd::seq_lib::group_to_multiset_ensures;

/// Lexicographic order on texts: `a` comes no later than `b`.
pub open spec fn key_le(a: Seq<char>, b: Seq<char>) -> bool
    decreases a.len(),
{
    if a.len() == 0 {
        true
    } else if b.len() == 0 {
        false
    } else if a[0] == b[0] {
        key_le(a.drop_first(), b.drop_first())
    } else {
        (a[0] as int) < (b[0] as int)
    }
}

/// `key_le` as a relation.
pub open spec fn key_order() -> spec_fn(Seq<char>, Seq<char>) -> bool {
    |a: Seq<char>, b: Seq<char>| key_le(a, b)
}

/// The keys of a table in ascending order.
pub open spec fn sorted_keys<V>(m: Map<Seq<char>, V>) -> Seq<Seq<char>> {
    m.dom().to_sorted_seq(key_order())
}

/// The entries of a table in ascending key order.
pub open spec fn sorted_entries<V>(m: Map<Seq<char>, V>) -> Seq<(Seq<char>, V)> {
    sorted_keys(m).map_values(|k: Seq<char>| (k, m[k]))
}

pub proof fn lemma_key_le_reflexive(a: Seq<char>)
    ensures
        key_le(a, a),
    decreases a.len(),
{
    if a.len() > 0 {
        lemma_key_le_reflexive(a.drop_first());
    }
}

pub proof fn lemma_key_le_antisymmetric(a: Seq<char>, b: Seq<char>)
    requires
        key_le(a, b),
        key_le(b, a),
    ensures
        a == b,
    decreases a.len(),
{
    if a.len() > 0 && b.len() > 0 {
        if a[0] == b[0] {
            lemma_key_le_antisymmetric(a.drop_first(), b.drop_first());
            assert(a =~= seq![a[0]] + a.drop_first());
            assert(b =~= seq![b[0]] + b.drop_first());
        }
    }
}

pub proof fn lemma_key_le_transitive(a: Seq<char>, b: Seq<char>, c: Seq<char>)
    requires
        key_le(a, b),
        key_le(b, c),
    ensures
        key_le(a, c),
    decreases a.len(),
{
    if a.len() > 0 && b.len() > 0 && c.len() > 0 {
        if a[0] == b[0] && b[0] == c[0] {
            lemma_key_le_transitive(a.drop_first(), b.drop_first(), c.drop_first());
        }
    }
}

pub proof fn lemma_key_le_total(a: Seq<char>, b: Seq<char>)
    ensures
        key_le(a, b) || key_le(b, a),
    decreases a.len(),
{
    if a.len() > 0 && b.len() > 0 {
        if a[0] == b[0] {
            lemma_key_le_total(a.drop_first(), b.drop_first());
        } else {
            assert((a[0] as int) != (b[0] as int));
        }
    }
}

/// `key_le` is a total order.
pub proof fn lemma_key_order_total()
    ensures
        total_ordering(key_order()),
{
    assert forall|a: Seq<char>| #[trigger] key_order()(a, a) by {
        lemma_key_le_reflexive(a);
    }
    assert forall|a: Seq<char>, b: Seq<char>|
        #[trigger] key_order()(a, b) && #[trigger] key_order()(b, a) implies a == b by {
        lemma_key_le_antisymmetric(a, b);
    }
    assert forall|a: Seq<char>, b: Seq<char>, c: Seq<char>|
        #[trigger] key_order()(a, b) && #[trigger] key_order()(b, c) implies key_order()(a, c) by {
        lemma_key_le_transitive(a, b, c);
    }
    assert forall|a: Seq<char>, b: Seq<char>|
        #[trigger] key_order()(a, b) || #[trigger] key_order()(b, a) by {
        lemma_key_le_total(a, b);
    }
}

/// Two duplicate-free sequences with the same elements have the same multiset.
pub proof fn lemma_same_elements_multiset<T>(a: Seq<T>, b: Seq<T>)
    requires
        a.no_duplicates(),
        b.no_duplicates(),
        forall|x: T| a.contains(x) <==> b.contains(x),
    ensures
        a.to_multiset() == b.to_multiset(),
{
    a.lemma_multiset_has_no_duplicates();
    b.lemma_multiset_has_no_duplicates();
    assert forall|x: T| a.to_multiset().count(x) == b.to_multiset().count(x) by {
        if a.contains(x) {
            assert(a.to_multiset().contains(x));
            assert(b.to_multiset().contains(x));
        } else {
            assert(!a.to_multiset().contains(x));
            assert(!b.to_multiset().contains(x));
        }
    }
    assert(a.to_multiset() =~= b.to_multiset());
}

proof fn lemma_to_seq_facts<A>(s: Set<A>)
    requires
        s.finite(),
    ensures
        s.to_seq().len() == s.len(),
        s.to_seq().no_duplicates(),
        forall|x: A| s.to_seq().contains(x) <==> s.contains(x),
    decreases s.len(),
{
    if s.len() > 0 {
        let x = s.choose();
        lemma_to_seq_facts(s.remove(x));
        let rest = s.remove(x).to_seq();
        let full = Seq::<A>::empty().push(x) + rest;
        assert(s.to_seq() == full);
        assert forall|y: A| full.contains(y) <==> s.contains(y) by {
            if full.contains(y) {
                let i = choose|i: int| 0 <= i < full.len() && full[i] == y;
                if i > 0 {
                    assert(rest[i - 1] == y);
                }
            }
            if s.contains(y) && y != x {
                assert(rest.contains(y));
                let j = choose|j: int| 0 <= j < rest.len() && rest[j] == y;
                assert(full[j + 1] == y);
            }
            if y == x {
                assert(full[0] == y);
            }
        }
        assert forall|i: int, j: int| 0 <= i < full.len() && 0 <= j < full.len() && i != j implies full[i]
            != full[j] by {
            if i > 0 && j > 0 {
                assert(full[i] == rest[i - 1]);
                assert(full[j] == rest[j - 1]);
            } else if i == 0 {
                assert(rest.contains(full[j]));
            } else {
                assert(rest.contains(full[i]));
            }
        }
    } else {
        assert(s.to_seq() =~= Seq::<A>::empty());
    }
}

/// The sorted keys of a finite table: ascending, each key once, exactly the table's keys.
pub proof fn lemma_sorted_keys<V>(m: Map<Seq<char>, V>)
    requires
        m.dom().finite(),
    ensures
        sorted_by(sorted_keys(m), key_order()),
        sorted_keys(m).no_duplicates(),
        sorted_keys(m).len() == m.dom().len(),
        forall|k: Seq<char>| sorted_keys(m).contains(k) <==> m.contains_key(k),
{
    lemma_key_order_total();
    let s = m.dom().to_seq();
    lemma_to_seq_facts(m.dom());
    s.lemma_sort_by_ensures(key_order());
    let t = s.sort_by(key_order());
    assert(t.len() == s.len()) by {
        assert(t.to_multiset().len() == s.to_multiset().len());
    }
    s.lemma_multiset_has_no_duplicates();
    assert forall|x: Seq<char>| t.to_multiset().contains(x) implies t.to_multiset().count(x) == 1 by {
        assert(s.to_multiset().contains(x));
    }
    t.lemma_multiset_has_no_duplicates_conv();
    assert forall|k: Seq<char>| t.contains(k) <==> m.contains_key(k) by {
        if t.contains(k) {
            assert(t.to_multiset().contains(k));
            assert(s.to_multiset().contains(k));
        }
        if m.contains_key(k) {
            assert(s.contains(k));
            assert(s.to_multiset().contains(k));
            assert(t.to_multiset().contains(k));
        }
    }
}

/// A duplicate-free ascending listing of exactly a table's keys is its sorted keys.
pub proof fn lemma_sorted_keys_unique<V>(ks: Seq<Seq<char>>, m: Map<Seq<char>, V>)
    requires
        m.dom().finite(),
        sorted_by(ks, key_order()),
        ks.no_duplicates(),
        forall|k: Seq<char>| ks.contains(k) <==> m.contains_key(k),
    ensures
        ks == sorted_keys(m),
{
    lemma_key_order_total();
    lemma_sorted_keys(m);
    lemma_same_elements_multiset(ks, sorted_keys(m));
    lemma_sorted_unique(ks, sorted_keys(m), key_order());
}

/// The keys of a listing, in order.
pub open spec fn listing_keys<V>(v: Seq<(String, V)>) -> Seq<Seq<char>> {
    v.map_values(|e: (String, V)| e.0@)
}

/// Whether a listing is in ascending key order.
pub open spec fn listing_sorted<V>(v: Seq<(String, V)>) -> bool {
    forall|i: int, j: int| 0 <= i < j < v.len() ==> key_le(#[trigger] v[i].0@, #[trigger] v[j].0@)
}

proof fn lemma_skip_step(a: Seq<char>, b: Seq<char>, i: int)
    requires
        0 <= i < a.len(),
        i < b.len(),
        a[i] == b[i],
    ensures
        key_le(a.skip(i), b.skip(i)) == key_le(a.skip(i + 1), b.skip(i + 1)),
{
    assert(a.skip(i).drop_first() =~= a.skip(i + 1));
    assert(b.skip(i).drop_first() =~= b.skip(i + 1));
}

/// Whether `a` comes no later than `b` in the order of texts.
pub fn key_le_exec(a: &str, b: &str) -> (r: bool)
    ensures
        r == key_le(a@, b@),
{
    let la = a.unicode_len();
    let lb = b.unicode_len();
    let mut i: usize = 0;
    assert(a@.skip(0) =~= a@);
    assert(b@.skip(0) =~= b@);
    while i < la && i < lb
        invariant
            la == a@.len(),
            lb == b@.len(),
            i <= la,
            i <= lb,
            key_le(a@, b@) == key_le(a@.skip(i as int), b@.skip(i as int)),
        decreases la - i,
    {
        let ca = a.get_char(i);
        let cb = b.get_char(i);
        if ca != cb {
            assert(a@.skip(i as int)[0] == ca);
            assert(b@.skip(i as int)[0] == cb);
            return (ca as u32) < (cb as u32);
        }
        proof {
            lemma_skip_step(a@, b@, i as int);
        }
        i = i + 1;
    }
    i == la
}

/// Sort a listing into ascending key order (insertion sort); the listing keeps its entries.
pub fn sort_listing<V>(v: Vec<(String, V)>) -> (out: Vec<(String, V)>)
    ensures
        out@.to_multiset() == v@.to_multiset(),
        listing_sorted(out@),
{
    broadcast use vstd::seq_lib::group_to_multiset_ensures;
    let ghost orig = v@;
    let mut rest = v;
    let mut out: Vec<(String, V)> = Vec::new();
    while rest.len() > 0
        invariant
            out@.to_multiset().add(rest@.to_multiset()) == orig.to_multiset(),
            listing_sorted(out@),
        decreases rest@.len(),
    {
        let ghost before = rest@;
        let e = rest.pop().unwrap();
        assert(before =~= rest@.push(e));
        let mut idx: usize = 0;
        while idx < out.len() && !key_le_exec(e.0.as_str(), out[idx].0.as_str())
            invariant
                idx <= out@.len(),
                listing_sorted(out@),
                forall|j: int| 0 <= j < idx ==> key_le(#[trigger] out@[j].0@, e.0@),
            decreases out@.len() - idx,
        {
            proof {
                lemma_key_le_total(e.0@, out@[idx as int].0@);
            }
            idx = idx + 1;
        }
        let ghost old_out = out@;
        out.insert(idx, e);
        proof {
            assert forall|i: int, j: int| 0 <= i < j < out@.len() implies key_le(
                #[trigger] out@[i].0@,
                #[trigger] out@[j].0@,
            ) by {
                if j < idx {
                    assert(out@[i] == old_out[i] && out@[j] == old_out[j]);
                } else if j == idx {
                    assert(out@[i] == old_out[i]);
                } else if i < idx {
                    assert(out@[i] == old_out[i] && out@[j] == old_out[j - 1]);
                } else if i == idx {
                    assert(out@[j] == old_out[j - 1]);
                    if idx < old_out.len() {
                        assert(key_le(e.0@, old_out[idx as int].0@));
                        if j - 1 > idx {
                            lemma_key_le_transitive(e.0@, old_out[idx as int].0@, old_out[j - 1].0@);
                        }
                    }
                } else {
                    assert(out@[i] == old_out[i - 1] && out@[j] == old_out[j - 1]);
                }
            }
            assert(out@.to_multiset() == old_out.to_multiset().insert(e));
            assert(before.to_multiset() == rest@.to_multiset().insert(e));
            assert(out@.to_multiset().add(rest@.to_multiset()) =~= old_out.to_multiset().add(
                before.to_multiset(),
            ));
        }
    }
    proof {
        assert(rest@.to_multiset() =~= vstd::multiset::Multiset::empty());
        assert(out@.to_multiset().add(rest@.to_multiset()) =~= out@.to_multiset());
    }
    out
}

/// A listing of a table's entries (values taken through `f`), put in ascending key
/// order, is the table's sorted entries.
pub proof fn lemma_sorted_listing_is_canonical<V, W>(
    listing: Seq<(String, V)>,
    out: Seq<(String, V)>,
    m: Map<Seq<char>, W>,
    f: spec_fn(V) -> W,
)
    requires
        lists_entries(listing.map_values(|e: (String, V)| (e.0, f(e.1))), m),
        out.to_multiset() == listing.to_multiset(),
        listing_sorted(out),
    ensures
        out.map_values(|e: (String, V)| (e.0@, f(e.1))) == sorted_entries(m),
        out.len() == listing.len(),
{
    broadcast use vstd::seq_lib::group_to_multiset_ensures;
    let lv = listing.map_values(|e: (String, V)| (e.0, f(e.1)));
    assert(out.len() == listing.len()) by {
        vstd::seq_lib::to_multiset_len(out);
        vstd::seq_lib::to_multiset_len(listing);
    }
    assert forall|i: int| 0 <= i < out.len() implies #[trigger] listing.contains(out[i]) by {
        assert(out.to_multiset().contains(out[i]));
    }
    assert forall|p: int| 0 <= p < listing.len() implies #[trigger] m.contains_key(listing[p].0@)
        && m[listing[p].0@] == f(listing[p].1) by {
        assert(lv[p] == (listing[p].0, f(listing[p].1)));
        assert(m.contains_key(lv[p].0@));
    }
    assert forall|p: int, q: int| 0 <= p < q < listing.len() implies #[trigger] listing[p].0@
        != #[trigger] listing[q].0@ by {
        assert(lv[p].0@ != lv[q].0@);
    }
    let ks = listing_keys(out);
    assert(listing.no_duplicates()) by {
        assert forall|i: int, j: int| 0 <= i < listing.len() && 0 <= j < listing.len() && i != j implies listing[i]
            != listing[j] by {
            if i < j {
                assert(listing[i].0@ != listing[j].0@);
            } else {
                assert(listing[j].0@ != listing[i].0@);
            }
        }
    }
    assert forall|i: int, j: int| 0 <= i < ks.len() && 0 <= j < ks.len() && i != j implies ks[i]
        != ks[j] by {
        if ks[i] == ks[j] {
            assert(listing.contains(out[i]));
            assert(listing.contains(out[j]));
            let p = choose|p: int| 0 <= p < listing.len() && listing[p] == out[i];
            let q = choose|q: int| 0 <= q < listing.len() && listing[q] == out[j];
            if p != q {
                if p < q {
                    assert(listing[p].0@ != listing[q].0@);
                } else {
                    assert(listing[q].0@ != listing[p].0@);
                }
            }
            assert(out[i] == out[j]);
            assert(listing.to_multiset().count(out[i]) >= 2) by {
                lemma_count_two(out, i, j);
            }
            listing.lemma_multiset_has_no_duplicates();
            assert(listing.to_multiset().contains(out[i]));
        }
    }
    assert forall|k: Seq<char>| ks.contains(k) <==> m.contains_key(k) by {
        if ks.contains(k) {
            let i = choose|i: int| 0 <= i < ks.len() && ks[i] == k;
            assert(listing.contains(out[i]));
            let p = choose|p: int| 0 <= p < listing.len() && listing[p] == out[i];
            assert(m.contains_key(listing[p].0@));
        }
        if m.contains_key(k) {
            let p = choose|p: int| 0 <= p < lv.len() && lv[p].0@ == k;
            assert(listing[p].0@ == k);
            assert(listing.to_multiset().contains(listing[p]));
            assert(out.to_multiset().contains(listing[p]));
            let i = choose|i: int| 0 <= i < out.len() && out[i] == listing[p];
            assert(ks[i] == k);
        }
    }
    assert(sorted_by(ks, key_order())) by {
        assert forall|i: int, j: int| 0 <= i < j < ks.len() implies #[trigger] key_order()(
            ks[i],
            ks[j],
        ) by {
            assert(key_le(out[i].0@, out[j].0@));
        }
    }
    lemma_sorted_keys_unique(ks, m);
    let view = out.map_values(|e: (String, V)| (e.0@, f(e.1)));
    assert forall|i: int| 0 <= i < view.len() implies view[i] == sorted_entries(m)[i] by {
        assert(listing.contains(out[i]));
        let p = choose|p: int| 0 <= p < listing.len() && listing[p] == out[i];
        assert(m.contains_key(listing[p].0@));
        assert(ks[i] == sorted_keys(m)[i]);
    }
    assert(view =~= sorted_entries(m));
}

/// A listing of a table's entries holds the same entries as its sorted entries.
pub proof fn lemma_listing_permutes_canonical<V>(listing: Seq<(String, V)>, m: Map<Seq<char>, V>)
    requires
        lists_entries(listing, m),
    ensures
        listing.map_values(|e: (String, V)| (e.0@, e.1)).to_multiset() == sorted_entries(m).to_multiset(),
{
    let lv = listing.map_values(|e: (String, V)| (e.0@, e.1));
    let se = sorted_entries(m);
    lemma_sorted_keys(m);
    let ks = sorted_keys(m);
    assert(lv.no_duplicates()) by {
        assert forall|i: int, j: int| 0 <= i < lv.len() && 0 <= j < lv.len() && i != j implies lv[i]
            != lv[j] by {
            if i < j {
                assert(listing[i].0@ != listing[j].0@);
            } else {
                assert(listing[j].0@ != listing[i].0@);
            }
        }
    }
    assert(se.no_duplicates()) by {
        assert forall|i: int, j: int| 0 <= i < se.len() && 0 <= j < se.len() && i != j implies se[i]
            != se[j] by {
            assert(ks[i] != ks[j]);
        }
    }
    assert forall|x: (Seq<char>, V)| lv.contains(x) <==> se.contains(x) by {
        if lv.contains(x) {
            let i = choose|i: int| 0 <= i < lv.len() && lv[i] == x;
            assert(m.contains_key(listing[i].0@) && m[listing[i].0@] == listing[i].1);
            assert(ks.contains(x.0));
            let j = choose|j: int| 0 <= j < ks.len() && ks[j] == x.0;
            assert(se[j] == x);
        }
        if se.contains(x) {
            let j = choose|j: int| 0 <= j < se.len() && se[j] == x;
            assert(ks.contains(ks[j]));
            assert(m.contains_key(x.0));
            let i = choose|i: int| 0 <= i < listing.len() && listing[i].0@ == x.0;
            assert(m.contains_key(listing[i].0@) && m[listing[i].0@] == listing[i].1);
            assert(lv[i] == x);
        }
    }
    lemma_same_elements_multiset(lv, se);
}

/// The sum of `g` over the entries of a sequence.
pub open spec fn sum_by<T>(s: Seq<T>, g: spec_fn(T) -> int) -> int {
    s.fold_left(0int, |acc: int, e: T| acc + g(e))
}

/// Summing the prefix of length `n + 1` adds `g` of the next entry.
pub proof fn lemma_sum_by_step<T>(s: Seq<T>, g: spec_fn(T) -> int, n: int)
    requires
        0 <= n < s.len(),
    ensures
        sum_by(s.take(n + 1), g) == sum_by(s.take(n), g) + g(s[n]),
{
    assert(s.take(n + 1).drop_last() =~= s.take(n));
}

/// With a non-negative `g`, a prefix sums to no more than the whole sequence.
pub proof fn lemma_sum_by_prefix<T>(s: Seq<T>, g: spec_fn(T) -> int, n: int)
    requires
        0 <= n <= s.len(),
        forall|e: T| #[trigger] g(e) >= 0,
    ensures
        0 <= sum_by(s.take(n), g) <= sum_by(s, g),
    decreases s.len() - n,
{
    if n < s.len() {
        lemma_sum_by_step(s, g, n);
        lemma_sum_by_prefix(s, g, n + 1);
        assert(g(s[n]) >= 0);
        lemma_sum_by_nonneg(s.take(n), g);
    } else {
        assert(s.take(n) =~= s);
        lemma_sum_by_nonneg(s, g);
    }
}

proof fn lemma_sum_by_nonneg<T>(s: Seq<T>, g: spec_fn(T) -> int)
    requires
        forall|e: T| #[trigger] g(e) >= 0,
    ensures
        sum_by(s, g) >= 0,
    decreases s.len(),
{
    if s.len() > 0 {
        lemma_sum_by_nonneg(s.drop_last(), g);
        assert(g(s.last()) >= 0);
    }
}

/// Sums do not depend on the order of the entries.
pub proof fn lemma_sum_by_permutation<T>(a: Seq<T>, b: Seq<T>, g: spec_fn(T) -> int)
    requires
        a.to_multiset() == b.to_multiset(),
    ensures
        sum_by(a, g) == sum_by(b, g),
{
    let f = |acc: int, e: T| acc + g(e);
    assert(vstd::seq_lib::commutative_foldl(f));
    vstd::seq_lib::lemma_fold_left_permutation(a, b, f, 0int);
}

/// Appending an entry adds `g` of it to the sum.
pub proof fn lemma_sum_by_push<T>(s: Seq<T>, g: spec_fn(T) -> int, x: T)
    ensures
        sum_by(s.push(x), g) == sum_by(s, g) + g(x),
{
    assert(s.push(x).drop_last() =~= s);
}

/// Replacing the entry at `i` changes the sum by the difference of `g`.
pub proof fn lemma_sum_by_update<T>(s: Seq<T>, g: spec_fn(T) -> int, i: int, x: T)
    requires
        0 <= i < s.len(),
    ensures
        sum_by(s.update(i, x), g) == sum_by(s, g) - g(s[i]) + g(x),
    decreases s.len(),
{
    let last = s.len() - 1;
    if i == last {
        assert(s.update(i, x).drop_last() =~= s.drop_last());
    } else {
        assert(s.update(i, x).drop_last() =~= s.drop_last().update(i, x));
        lemma_sum_by_update(s.drop_last(), g, i, x);
    }
}

/// Pushing an element adds it to the set of elements.
pub proof fn lemma_push_to_set<A>(s: Seq<A>, a: A)
    ensures
        s.push(a).to_set() == s.to_set().insert(a),
{
    assert forall|x: A| s.push(a).to_set().contains(x) <==> s.to_set().insert(a).contains(x) by {
        if s.push(a).contains(x) && x != a {
            let i = choose|i: int| 0 <= i < s.push(a).len() && s.push(a)[i] == x;
            assert(s[i] == x);
        }
        if s.contains(x) {
            let i = choose|i: int| 0 <= i < s.len() && s[i] == x;
            assert(s.push(a)[i] == x);
        }
        if x == a {
            assert(s.push(a)[s.len() as int] == a);
        }
    }
    assert(s.push(a).to_set() =~= s.to_set().insert(a));
}

proof fn lemma_count_two<T>(s: Seq<T>, i: int, j: int)
    requires
        0 <= i < s.len(),
        0 <= j < s.len(),
        i != j,
        s[i] == s[j],
    ensures
        s.to_multiset().count(s[i]) >= 2,
{
    broadcast use vstd::seq_lib::group_to_multiset_ensures;
    let (a, b) = if i < j { (i, j) } else { (j, i) };
    let s1 = s.remove(b);
    assert(s1[a] == s[i]);
    assert(s1.to_multiset().contains(s[i]));
    assert(s1.to_multiset() == s.to_multiset().remove(s[b]));
}

} // verus!
