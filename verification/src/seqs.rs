use vstd::prelude::*;

verus! {

/// The first index `k >= i` of `s` whose element satisfies `p`, or -1.
pub open spec fn find_from<T>(s: Seq<T>, p: spec_fn(T) -> bool, i: int) -> int
    decreases s.len() - i,
{
    if i < 0 || i >= s.len() {
        -1
    } else if p(s[i]) {
        i
    } else {
        find_from(s, p, i + 1)
    }
}

/// The first index of `s` whose element satisfies `p`, or -1.
pub open spec fn find_first<T>(s: Seq<T>, p: spec_fn(T) -> bool) -> int {
    find_from(s, p, 0)
}

pub proof fn lemma_find_from<T>(s: Seq<T>, p: spec_fn(T) -> bool, i: int)
    requires
        0 <= i,
    ensures
        find_from(s, p, i) == -1 || (i <= find_from(s, p, i) < s.len() && p(
            s[find_from(s, p, i)],
        )),
        find_from(s, p, i) == -1 ==> forall|j: int| i <= j < s.len() ==> !p(s[j]),
        find_from(s, p, i) >= 0 ==> forall|j: int| i <= j < find_from(s, p, i) ==> !p(s[j]),
    decreases s.len() - i,
{
    if i < s.len() && !p(s[i]) {
        lemma_find_from(s, p, i + 1);
    }
}

/// How many elements of `s` satisfy `p`.
pub open spec fn count_where<T>(s: Seq<T>, p: spec_fn(T) -> bool) -> nat
    decreases s.len(),
{
    if s.len() == 0 {
        0
    } else {
        count_where(s.drop_last(), p) + if p(s.last()) {
            1nat
        } else {
            0nat
        }
    }
}

pub proof fn lemma_count_bound<T>(s: Seq<T>, p: spec_fn(T) -> bool)
    ensures
        count_where(s, p) <= s.len(),
    decreases s.len(),
{
    if s.len() > 0 {
        lemma_count_bound(s.drop_last(), p);
    }
}

/// Counting the elements that satisfy `p` and those that do not adds up to
/// the length.
pub proof fn lemma_count_split<T>(s: Seq<T>, p: spec_fn(T) -> bool, q: spec_fn(T) -> bool)
    requires
        forall|x: T| #[trigger] q(x) == !p(x),
    ensures
        count_where(s, p) + count_where(s, q) == s.len(),
    decreases s.len(),
{
    if s.len() > 0 {
        lemma_count_split(s.drop_last(), p, q);
    }
}

/// Counting with the disjunction of two exclusive predicates adds the counts.
pub proof fn lemma_count_disjoint_union<T>(
    s: Seq<T>,
    p: spec_fn(T) -> bool,
    q: spec_fn(T) -> bool,
    pq: spec_fn(T) -> bool,
)
    requires
        forall|x: T| #[trigger] pq(x) == (p(x) || q(x)),
        forall|x: T| !(#[trigger] p(x) && q(x)),
    ensures
        count_where(s, p) + count_where(s, q) == count_where(s, pq),
    decreases s.len(),
{
    if s.len() > 0 {
        lemma_count_disjoint_union(s.drop_last(), p, q, pq);
        assert(!(p(s.last()) && q(s.last())));
    }
}

/// The elements of `s` in order, each kept only at its first occurrence.
pub open spec fn dedup_seq<T>(s: Seq<T>) -> Seq<T>
    decreases s.len(),
{
    if s.len() == 0 {
        Seq::empty()
    } else {
        let d = dedup_seq(s.drop_last());
        if d.contains(s.last()) {
            d
        } else {
            d.push(s.last())
        }
    }
}

pub open spec fn no_duplicates<T>(s: Seq<T>) -> bool {
    forall|i: int, j: int| 0 <= i < j < s.len() ==> s[i] != s[j]
}

/// A deduplicated sequence holds no element twice, and holds exactly the
/// elements of the original sequence.
pub proof fn lemma_dedup<T>(s: Seq<T>)
    ensures
        no_duplicates(dedup_seq(s)),
        forall|x: T| dedup_seq(s).contains(x) <==> s.contains(x),
        dedup_seq(s).len() <= s.len(),
    decreases s.len(),
{
    if s.len() > 0 {
        let t = s.drop_last();
        lemma_dedup(t);
        let d = dedup_seq(t);
        let last = s.last();
        let ds = dedup_seq(s);
        assert(ds == (if d.contains(last) { d } else { d.push(last) }));
        assert forall|x: T| ds.contains(x) <==> s.contains(x) by {
            if s.contains(x) {
                let k = choose|k: int| 0 <= k < s.len() && s[k] == x;
                if k < s.len() - 1 {
                    assert(t[k] == x);
                    assert(t.contains(x));
                    assert(d.contains(x));
                    let m = choose|m: int| 0 <= m < d.len() && d[m] == x;
                    if !d.contains(last) {
                        assert(d.push(last)[m] == x);
                    }
                } else {
                    assert(x == last);
                    if !d.contains(last) {
                        assert(d.push(last)[d.len() as int] == x);
                    }
                }
            }
            if ds.contains(x) {
                let m = choose|m: int| 0 <= m < ds.len() && ds[m] == x;
                if m < d.len() {
                    assert(d[m] == x);
                    assert(d.contains(x));
                    assert(t.contains(x));
                    let k = choose|k: int| 0 <= k < t.len() && t[k] == x;
                    assert(s[k] == x);
                } else {
                    assert(x == last);
                    assert(s[s.len() - 1] == x);
                }
            }
        }
        if !d.contains(s.last()) {
            let e = d.push(s.last());
            assert forall|i: int, j: int| 0 <= i < j < e.len() implies e[i] != e[j] by {
                if j == e.len() - 1 {
                    assert(e[i] == d[i]);
                }
            }
        }
    }
}

/// The elements of `s` that satisfy `p`, in order.
pub open spec fn keep<T>(s: Seq<T>, p: spec_fn(T) -> bool) -> Seq<T>
    decreases s.len(),
{
    if s.len() == 0 {
        Seq::empty()
    } else if p(s.last()) {
        keep(s.drop_last(), p).push(s.last())
    } else {
        keep(s.drop_last(), p)
    }
}

pub proof fn lemma_keep_len<T>(s: Seq<T>, p: spec_fn(T) -> bool)
    ensures
        keep(s, p).len() <= s.len(),
    decreases s.len(),
{
    if s.len() > 0 {
        lemma_keep_len(s.drop_last(), p);
    }
}

/// Every kept element satisfies the predicate and comes from the sequence.
pub proof fn lemma_keep_sound<T>(s: Seq<T>, p: spec_fn(T) -> bool)
    ensures
        forall|k: int| 0 <= k < keep(s, p).len() ==> p(#[trigger] keep(s, p)[k]) && s.contains(keep(s, p)[k]),
    decreases s.len(),
{
    if s.len() > 0 {
        lemma_keep_sound(s.drop_last(), p);
        let prev = keep(s.drop_last(), p);
        assert forall|k: int| 0 <= k < keep(s, p).len() implies p(#[trigger] keep(s, p)[k]) && s.contains(keep(s, p)[k]) by {
            if k < prev.len() {
                assert(keep(s, p)[k] == prev[k]);
                let j = choose|j: int| 0 <= j < s.drop_last().len() && s.drop_last()[j] == prev[k];
                assert(s[j] == prev[k]);
            } else {
                assert(keep(s, p)[k] == s.last());
                assert(s[s.len() - 1] == s.last());
            }
        }
    }
}

/// The elements of `s` in order, each dropped when an element kept before it
/// has the same key.
pub open spec fn dedup_by<T, K>(s: Seq<T>, key: spec_fn(T) -> K) -> Seq<T>
    decreases s.len(),
{
    if s.len() == 0 {
        Seq::empty()
    } else {
        let d = dedup_by(s.drop_last(), key);
        if d.map_values(key).contains(key(s.last())) {
            d
        } else {
            d.push(s.last())
        }
    }
}

/// Flattens a sequence of sequences, in order.
pub open spec fn flatten<T>(s: Seq<Seq<T>>) -> Seq<T>
    decreases s.len(),
{
    if s.len() == 0 {
        Seq::empty()
    } else {
        flatten(s.drop_last()) + s.last()
    }
}


/// No two elements kept by `dedup_by` share a key.
pub proof fn lemma_dedup_by_unique<T, K>(s: Seq<T>, key: spec_fn(T) -> K)
    ensures
        forall|i: int, j: int|
            0 <= i < j < dedup_by(s, key).len() ==> key(#[trigger] dedup_by(s, key)[i]) != key(
                #[trigger] dedup_by(s, key)[j],
            ),
    decreases s.len(),
{
    if s.len() > 0 {
        lemma_dedup_by_unique(s.drop_last(), key);
        let d = dedup_by(s.drop_last(), key);
        if !d.map_values(key).contains(key(s.last())) {
            let e = d.push(s.last());
            assert forall|i: int, j: int| 0 <= i < j < e.len() implies key(#[trigger] e[i]) != key(
                #[trigger] e[j],
            ) by {
                if j == d.len() {
                    assert(d.map_values(key)[i] == key(d[i]));
                    assert(e[i] == d[i]);
                } else {
                    assert(e[i] == d[i] && e[j] == d[j]);
                }
            }
        }
    }
}


/// Every element kept by `dedup_by` comes from the sequence.
pub proof fn lemma_dedup_by_from<T, K>(s: Seq<T>, key: spec_fn(T) -> K)
    ensures
        forall|k: int| 0 <= k < dedup_by(s, key).len() ==> s.contains(#[trigger] dedup_by(s, key)[k]),
    decreases s.len(),
{
    if s.len() > 0 {
        lemma_dedup_by_from(s.drop_last(), key);
        let d = dedup_by(s.drop_last(), key);
        assert forall|k: int| 0 <= k < dedup_by(s, key).len() implies s.contains(
            #[trigger] dedup_by(s, key)[k],
        ) by {
            if k < d.len() {
                assert(dedup_by(s, key)[k] == d[k]);
                let j = choose|j: int| 0 <= j < s.drop_last().len() && s.drop_last()[j] == d[k];
                assert(s[j] == d[k]);
            } else {
                assert(dedup_by(s, key)[k] == s.last());
                assert(s[s.len() - 1] == s.last());
            }
        }
    }
}

} // verus!
