//! Splitting texts at a separator character: the fields of a text, the field that
//! follows a given field, and the text up to a given number of fields.
use vstd::prelude::*;

verus! {

/// The index of the first `c` in `s`, or `s.len()` if there is none.
pub open spec fn first_index(s: Seq<char>, c: char) -> int
    decreases s.len(),
{
    if s.len() == 0 {
        0
    } else if s[0] == c {
        0
    } else {
        1 + first_index(s.drop_first(), c)
    }
}

/// The fields of `s` separated by `c` (as `str::split` gives them).
pub open spec fn fields(s: Seq<char>, c: char) -> Seq<Seq<char>>
    decreases s.len(),
{
    let i = first_index(s, c);
    if i >= s.len() || i < 0 {
        seq![s]
    } else {
        seq![s.take(i)] + fields(s.skip(i + 1), c)
    }
}

/// The first `n` fields of `s` (at least one), joined back with `c`.
pub open spec fn first_fields(s: Seq<char>, c: char, n: nat) -> Seq<char>
    decreases s.len(),
{
    let i = first_index(s, c);
    if i >= s.len() || i < 0 {
        s
    } else if n <= 1 {
        s.take(i)
    } else {
        s.take(i) + seq![c] + first_fields(s.skip(i + 1), c, (n - 1) as nat)
    }
}

/// Where `tag` first occurs among `parts`.
pub open spec fn position_of(parts: Seq<Seq<char>>, tag: Seq<char>) -> Option<int>
    decreases parts.len(),
{
    if parts.len() == 0 {
        None
    } else if parts[0] == tag {
        Some(0)
    } else {
        match position_of(parts.drop_first(), tag) {
            Some(p) => Some(p + 1),
            None => None,
        }
    }
}

pub proof fn lemma_first_index_bounds(s: Seq<char>, c: char)
    ensures
        0 <= first_index(s, c) <= s.len(),
        first_index(s, c) < s.len() ==> s[first_index(s, c)] == c,
        forall|j: int| 0 <= j < first_index(s, c) ==> s[j] != c,
    decreases s.len(),
{
    if s.len() > 0 && s[0] != c {
        lemma_first_index_bounds(s.drop_first(), c);
        assert forall|j: int| 0 <= j < first_index(s, c) implies s[j] != c by {
            if j > 0 {
                assert(s[j] == s.drop_first()[j - 1]);
            }
        }
    }
}

proof fn lemma_first_index_from(s: Seq<char>, c: char, i: int)
    requires
        0 <= i <= s.len(),
        forall|j: int| 0 <= j < i ==> s[j] != c,
    ensures
        first_index(s, c) == i + first_index(s.skip(i), c),
    decreases i,
{
    if i > 0 {
        assert(s[0] != c);
        lemma_first_index_from(s.drop_first(), c, i - 1);
        assert(s.drop_first().skip(i - 1) =~= s.skip(i));
    } else {
        assert(s.skip(0) =~= s);
    }
}

/// The index of the first `c` at or after `from`, or the length.
pub fn find_char(s: &str, c: char, from: usize) -> (i: usize)
    requires
        from <= s@.len(),
    ensures
        i == from + first_index(s@.skip(from as int), c),
{
    let n = s.unicode_len();
    let mut i = from;
    while i < n
        invariant
            n == s@.len(),
            from <= i <= n,
            forall|j: int| from <= j < i ==> s@[j] != c,
        decreases n - i,
    {
        if s.get_char(i) == c {
            proof {
                let t = s@.skip(from as int);
                assert forall|j: int| 0 <= j < i - from implies t[j] != c by {
                    assert(t[j] == s@[from + j]);
                }
                lemma_first_index_from(t, c, i - from);
                assert(t.skip(i - from) =~= s@.skip(i as int));
                assert(s@.skip(i as int)[0] == c);
            }
            return i;
        }
        i = i + 1;
    }
    proof {
        let t = s@.skip(from as int);
        assert forall|j: int| 0 <= j < i - from implies t[j] != c by {
            assert(t[j] == s@[from + j]);
        }
        lemma_first_index_from(t, c, i - from);
        assert(t.skip(i - from).len() == 0);
    }
    i
}

/// Whether two texts are equal, character by character.
pub fn same_text(a: &str, b: &str) -> (eq: bool)
    ensures
        eq == (a@ == b@),
{
    let la = a.unicode_len();
    let lb = b.unicode_len();
    if la != lb {
        return false;
    }
    let mut i: usize = 0;
    while i < la
        invariant
            la == a@.len(),
            lb == b@.len(),
            la == lb,
            i <= la,
            forall|j: int| 0 <= j < i ==> a@[j] == b@[j],
        decreases la - i,
    {
        if a.get_char(i) != b.get_char(i) {
            return false;
        }
        i = i + 1;
    }
    assert(a@ =~= b@);
    true
}

/// Whether `c` occurs in `s`.
pub fn contains_char(s: &str, c: char) -> (b: bool)
    ensures
        b == (first_index(s@, c) < s@.len()),
{
    let i = find_char(s, c, 0);
    assert(s@.skip(0) =~= s@);
    i < s.unicode_len()
}

/// Fields of `s.skip(from)` in terms of the field starting at `from`.
proof fn lemma_fields_step(s: Seq<char>, c: char, from: int, end: int)
    requires
        0 <= from <= end <= s.len(),
        end == from + first_index(s.skip(from), c),
    ensures
        end == s.len() ==> fields(s.skip(from), c) == seq![s.subrange(from, end)],
        end < s.len() ==> fields(s.skip(from), c) == seq![s.subrange(from, end)] + fields(
            s.skip(end + 1),
            c,
        ),
{
    let t = s.skip(from);
    lemma_first_index_bounds(t, c);
    if end == s.len() {
        assert(t =~= s.subrange(from, end));
    } else {
        assert(t.take(end - from) =~= s.subrange(from, end));
        assert(t.skip(end - from + 1) =~= s.skip(end + 1));
    }
}

/// The field of `s` (split at `sep`) right after the first field equal to `tag`:
/// `None` when no field equals `tag`, `Some(None)` when that field is the last.
pub fn field_after<'a>(s: &'a str, sep: char, tag: &str) -> (r: Option<Option<&'a str>>)
    ensures
        ({
            let parts = fields(s@, sep);
            match position_of(parts, tag@) {
                None => r is None,
                Some(p) => {
                    &&& r is Some
                    &&& p + 1 < parts.len() ==> (r.unwrap() matches Some(x) && x@ == parts[p + 1])
                    &&& p + 1 >= parts.len() ==> r.unwrap() is None
                },
            }
        }),
{
    let n = s.unicode_len();
    let mut start: usize = 0;
    let ghost mut k: int = 0;
    assert(s@.skip(0) =~= s@);
    loop
        invariant
            n == s@.len(),
            start <= n,
            0 <= k,
            k <= fields(s@, sep).len(),
            fields(s@, sep).skip(k) == fields(s@.skip(start as int), sep),
            position_of(fields(s@, sep), tag@) == (match position_of(fields(s@.skip(start as int), sep), tag@) {
                Some(p) => Some(p + k),
                None => None,
            }),
        decreases n - start,
    {
        let end = find_char(s, sep, start);
        proof {
            lemma_first_index_bounds(s@.skip(start as int), sep);
            lemma_fields_step(s@, sep, start as int, end as int);
        }
        let seg = s.substring_char(start, end);
        let ghost parts = fields(s@.skip(start as int), sep);
        if same_text(seg, tag) {
            if end == n {
                return Some(None);
            }
            let next_end = find_char(s, sep, end + 1);
            proof {
                lemma_first_index_bounds(s@.skip(end + 1), sep);
                lemma_fields_step(s@, sep, end + 1, next_end as int);
                assert(fields(s@, sep).skip(k)[1] == fields(s@, sep)[k + 1]);
            }
            return Some(Some(s.substring_char(end + 1, next_end)));
        }
        if end == n {
            proof {
                assert(parts[0] == seg@);
                assert(parts.drop_first() =~= Seq::<Seq<char>>::empty());
                assert(position_of(parts.drop_first(), tag@) is None);
            }
            return None;
        }
        proof {
            assert(parts.drop_first() == fields(s@.skip(end + 1), sep));
            assert(fields(s@, sep).skip(k + 1) =~= fields(s@, sep).skip(k).drop_first());
        }
        start = end + 1;
        proof {
            k = k + 1;
        }
    }
}

/// The prefix of `s` holding its first `n` fields (split at `sep`), joined back.
pub fn first_fields_of<'a>(s: &'a str, sep: char, n: usize) -> (r: &'a str)
    ensures
        r@ == first_fields(s@, sep, n as nat),
{
    let len = s.unicode_len();
    let mut start: usize = 0;
    let mut left: usize = n;
    assert(s@.skip(0) =~= s@);
    loop
        invariant
            len == s@.len(),
            start <= len,
            first_fields(s@, sep, n as nat) == s@.take(start as int) + first_fields(
                s@.skip(start as int),
                sep,
                left as nat,
            ),
            start > 0 ==> s@[start - 1] == sep,
        decreases len - start,
    {
        let end = find_char(s, sep, start);
        proof {
            lemma_first_index_bounds(s@.skip(start as int), sep);
        }
        let ghost t = s@.skip(start as int);
        if end == len {
            proof {
                assert(first_fields(t, sep, left as nat) == t);
                assert(s@.take(start as int) + t =~= s@);
            }
            return s;
        }
        if left <= 1 {
            proof {
                assert(t.take(end - start) =~= s@.subrange(start as int, end as int));
                assert(s@.take(start as int) + s@.subrange(start as int, end as int) =~= s@.take(end as int));
            }
            return s.substring_char(0, end);
        }
        proof {
            assert(t.skip(end - start + 1) =~= s@.skip(end + 1));
            assert(t.take(end - start) =~= s@.subrange(start as int, end as int));
            assert(s@[end as int] == sep);
            assert(s@.take(start as int) + (t.take(end - start) + seq![sep]) =~= s@.take(end + 1));
        }
        start = end + 1;
        left = left - 1;
    }
}

} // verus!
