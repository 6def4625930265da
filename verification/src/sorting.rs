use vstd::prelude::*;

use crate::text::views;

verus! {

// ---------------------------------------------------------------------------
// Stable orders
// ---------------------------------------------------------------------------

/// `le` orders every pair (total) and chains (transitive).
pub open spec fn total_preorder<T>(le: spec_fn(T, T) -> bool) -> bool {
    &&& forall|a: T, b: T| #[trigger] le(a, b) || le(b, a)
    &&& forall|a: T, b: T, c: T| #[trigger] le(a, b) && #[trigger] le(b, c) ==> le(a, c)
}

/// `order` lists each index of `items` once, in `le` order, and items that
/// `le` ranks alike in their original order: the result of a stable sort.
pub open spec fn stable_order<T>(order: Seq<usize>, items: Seq<T>, le: spec_fn(T, T) -> bool) -> bool {
    &&& order.len() == items.len()
    &&& prefix_order(order, items, le, items.len() as int)
}

/// `order` is a stable order of the first `n` items.
pub open spec fn prefix_order<T>(
    order: Seq<usize>,
    items: Seq<T>,
    le: spec_fn(T, T) -> bool,
    n: int,
) -> bool {
    &&& order.len() == n
    &&& forall|k: int| 0 <= k < order.len() ==> #[trigger] order[k] < n
    &&& forall|k: int, l: int| 0 <= k < l < order.len() ==> #[trigger] order[k] != #[trigger] order[l]
    &&& forall|k: int, l: int|
        0 <= k < l < order.len() ==> le(items[#[trigger] order[k] as int], items[#[trigger] order[l] as int])
    &&& forall|k: int, l: int|
        0 <= k < l < order.len() && le(items[#[trigger] order[l] as int], items[#[trigger] order[k] as int])
            ==> order[k] < order[l]
}

/// The items in the given order.
pub open spec fn arrange<T>(order: Seq<usize>, items: Seq<T>) -> Seq<T> {
    order.map_values(|j: usize| items[j as int])
}

/// Inserting item `n` before the first item that it strictly precedes keeps
/// a stable order.
pub proof fn lemma_insert_stable<T>(
    order: Seq<usize>,
    items: Seq<T>,
    le: spec_fn(T, T) -> bool,
    n: int,
    p: int,
)
    requires
        total_preorder(le),
        0 <= n < items.len(),
        n <= usize::MAX,
        prefix_order(order, items, le, n),
        0 <= p <= order.len(),
        forall|k: int| 0 <= k < p ==> le(items[#[trigger] order[k] as int], items[n]),
        p < order.len() ==> !le(items[order[p] as int], items[n]),
    ensures
        prefix_order(order.insert(p, n as usize), items, le, n + 1),
{
    let o = order.insert(p, n as usize);
    let x = items[n];
    assert forall|k: int| p <= k < order.len() implies le(x, items[#[trigger] order[k] as int])
        && !le(items[order[k] as int], x) by {
        assert(le(items[order[p] as int], x) || le(x, items[order[p] as int]));
        if k > p {
            assert(le(items[order[p] as int], items[order[k] as int]));
            if le(items[order[k] as int], x) {
                assert(le(items[order[p] as int], x));
            }
        }
    }
    assert forall|k: int| 0 <= k < o.len() implies #[trigger] o[k] < n + 1 by {
        if k < p {
            assert(o[k] == order[k]);
        } else if k > p {
            assert(o[k] == order[k - 1]);
        }
    }
    assert forall|k: int, l: int| 0 <= k < l < o.len() implies #[trigger] o[k] != #[trigger] o[l]
        && le(items[o[k] as int], items[o[l] as int]) && (le(items[o[l] as int], items[o[k] as int])
        ==> o[k] < o[l]) by {
        if l < p {
            assert(o[k] == order[k] && o[l] == order[l]);
        } else if l == p {
            assert(o[k] == order[k]);
        } else if k < p {
            assert(o[k] == order[k] && o[l] == order[l - 1]);
            assert(le(items[order[k] as int], items[order[l - 1] as int]));
        } else if k == p {
            assert(o[l] == order[l - 1]);
        } else {
            assert(o[k] == order[k - 1] && o[l] == order[l - 1]);
        }
    }
}

// ---------------------------------------------------------------------------
// Text order
// ---------------------------------------------------------------------------

/// Lexicographic order by character (the order of std's `str` comparison,
/// since UTF-8 keeps the order of code points).
pub open spec fn lex_le(a: Seq<char>, b: Seq<char>) -> bool
    decreases a.len(),
{
    if a.len() == 0 {
        true
    } else if b.len() == 0 {
        false
    } else if a[0] != b[0] {
        a[0] < b[0]
    } else {
        lex_le(a.drop_first(), b.drop_first())
    }
}

pub proof fn lemma_lex_total(a: Seq<char>, b: Seq<char>)
    ensures
        lex_le(a, b) || lex_le(b, a),
    decreases a.len(),
{
    if a.len() > 0 && b.len() > 0 && a[0] == b[0] {
        lemma_lex_total(a.drop_first(), b.drop_first());
    }
}

pub proof fn lemma_lex_trans(a: Seq<char>, b: Seq<char>, c: Seq<char>)
    requires
        lex_le(a, b),
        lex_le(b, c),
    ensures
        lex_le(a, c),
    decreases a.len(),
{
    if a.len() > 0 && b.len() > 0 && c.len() > 0 && a[0] == b[0] && b[0] == c[0] {
        lemma_lex_trans(a.drop_first(), b.drop_first(), c.drop_first());
    }
}

/// Equal texts only are ordered both ways.
pub proof fn lemma_lex_antisym(a: Seq<char>, b: Seq<char>)
    requires
        lex_le(a, b),
        lex_le(b, a),
    ensures
        a == b,
    decreases a.len(),
{
    if a.len() > 0 && b.len() > 0 {
        lemma_lex_antisym(a.drop_first(), b.drop_first());
        assert(a =~= seq![a[0]] + a.drop_first());
        assert(b =~= seq![b[0]] + b.drop_first());
    }
}

pub open spec fn string_le() -> spec_fn(String, String) -> bool {
    |a: String, b: String| lex_le(a@, b@)
}

pub proof fn lemma_string_le_preorder()
    ensures
        total_preorder(string_le()),
{
    assert forall|a: String, b: String| #[trigger] string_le()(a, b) || string_le()(b, a) by {
        lemma_lex_total(a@, b@);
    }
    assert forall|a: String, b: String, c: String|
        #[trigger] string_le()(a, b) && #[trigger] string_le()(b, c) implies string_le()(a, c) by {
        lemma_lex_trans(a@, b@, c@);
    }
}

/// Whether `a` comes no later than `b` in text order.
pub fn str_le(a: &str, b: &str) -> (r: bool)
    ensures
        r == lex_le(a@, b@),
{
    let n = a.unicode_len();
    let m = b.unicode_len();
    let mut i: usize = 0;
    assert(a@.skip(0) == a@ && b@.skip(0) == b@);
    while i < n && i < m && a.get_char(i) == b.get_char(i)
        invariant
            n == a@.len(),
            m == b@.len(),
            i <= n,
            i <= m,
            lex_le(a@, b@) == lex_le(a@.skip(i as int), b@.skip(i as int)),
        decreases n - i,
    {
        assert(a@.skip(i as int).drop_first() == a@.skip(i + 1));
        assert(b@.skip(i as int).drop_first() == b@.skip(i + 1));
        i += 1;
    }
    if i == n {
        return true;
    }
    if i == m {
        return false;
    }
    a.get_char(i) < b.get_char(i)
}

/// Strings in text order (std's `sort` on strings).
pub fn sort_strings(items: Vec<String>) -> (r: Vec<String>)
    ensures
        exists|order: Seq<usize>| stable_order(order, items@, string_le()) && r@ == arrange(order, items@),
{
    proof {
        lemma_string_le_preorder();
    }
    let ghost all = items@;
    let mut rest = items;
    let mut out: Vec<String> = Vec::new();
    let ghost mut order: Seq<usize> = Seq::empty();
    let mut i: usize = 0;
    let n = rest.len();
    while i < n
        invariant
            n == all.len(),
            i <= n,
            rest@ == all.skip(i as int),
            total_preorder(string_le()),
            prefix_order(order, all, string_le(), i as int),
            out@ == arrange(order, all),
        decreases n - i,
    {
        let x = rest.remove(0);
        assert(x == all[i as int]);
        assert(all.skip(i as int).remove(0) =~= all.skip(i + 1));
        let mut p: usize = 0;
        while p < out.len() && str_le(out[p].as_str(), x.as_str())
            invariant
                p <= out@.len(),
                out@ == arrange(order, all),
                x == all[i as int],
                forall|k: int| 0 <= k < p ==> string_le()(all[#[trigger] order[k] as int], x),
            decreases out@.len() - p,
        {
            p += 1;
        }
        proof {
            lemma_insert_stable(order, all, string_le(), i as int, p as int);
        }
        out.insert(p, x);
        proof {
            assert(out@ =~= arrange(order.insert(p as int, i), all));
            order = order.insert(p as int, i);
        }
        i += 1;
    }
    assert(stable_order(order, all, string_le()));
    out
}

/// The texts of a stable text order are sorted: each no later than the next.
pub proof fn law_sorted_strings_ascend(order: Seq<usize>, items: Seq<String>, k: int, l: int)
    requires
        stable_order(order, items, string_le()),
        0 <= k < l < order.len(),
    ensures
        lex_le(arrange(order, items)[k]@, arrange(order, items)[l]@),
{
    assert(string_le()(items[order[k] as int], items[order[l] as int]));
}

/// Text order on character sequences.
pub open spec fn lex_pred() -> spec_fn(Seq<char>, Seq<char>) -> bool {
    |a: Seq<char>, b: Seq<char>| lex_le(a, b)
}

/// A stable text order of strings is one of their texts too.
pub proof fn lemma_views_order(order: Seq<usize>, items: Seq<String>)
    requires
        stable_order(order, items, string_le()),
    ensures
        stable_order(order, views(items), lex_pred()),
        views(arrange(order, items)) == arrange(order, views(items)),
{
    let v = views(items);
    assert forall|k: int, l: int| 0 <= k < l < order.len() implies lex_pred()(
        v[#[trigger] order[k] as int],
        v[#[trigger] order[l] as int],
    ) by {
        assert(string_le()(items[order[k] as int], items[order[l] as int]));
    }
    assert forall|k: int, l: int|
        0 <= k < l < order.len() && lex_pred()(v[#[trigger] order[l] as int], v[#[trigger] order[k] as int])
            implies order[k] < order[l] by {
        assert(string_le()(items[order[l] as int], items[order[k] as int]));
    }
    assert(views(arrange(order, items)) =~= arrange(order, views(items)));
}

} // verus!
