//! Ranking rows for display: largest first, rows with equal keys in the order
//! they came in.

use vstd::prelude::*;

verus! {

/// Row `i` is shown above row `j`.
pub open spec fn above(keys: Seq<u128>, i: int, j: int) -> bool {
    keys[i] > keys[j] || (keys[i] == keys[j] && i < j)
}

/// `order` lists the rows `lo..hi`, each once, from the top down.
pub open spec fn ranks_range(keys: Seq<u128>, order: Seq<usize>, lo: int, hi: int) -> bool {
    &&& order.len() == hi - lo
    &&& forall|a: int| 0 <= a < order.len() ==> lo <= #[trigger] order[a] < hi
    &&& forall|a: int, b: int|
        0 <= a < b < order.len() ==> above(keys, #[trigger] order[a] as int, #[trigger] order[b] as int)
    &&& forall|k: usize| lo <= k < hi ==> #[trigger] order.contains(k)
}

/// `order` lists every row once, from the top down.
pub open spec fn is_ranking(keys: Seq<u128>, order: Seq<usize>) -> bool {
    ranks_range(keys, order, 0, keys.len() as int)
}

/// The ranking of rows by their keys.
pub open spec fn ranking(keys: Seq<u128>) -> Seq<usize> {
    choose|order: Seq<usize>| is_ranking(keys, order)
}

/// There is only one ranking of given keys.
pub proof fn ranking_is_unique(keys: Seq<u128>, a: Seq<usize>, b: Seq<usize>)
    requires
        is_ranking(keys, a),
        is_ranking(keys, b),
    ensures
        a == b,
{
    assert forall|i: int| 0 <= i < a.len() implies a[i] == b[i] by {
        lemma_rankings_agree(keys, a, b, i);
    }
    assert(a =~= b);
}

proof fn lemma_rankings_agree(keys: Seq<u128>, a: Seq<usize>, b: Seq<usize>, i: int)
    requires
        is_ranking(keys, a),
        is_ranking(keys, b),
        0 <= i < a.len(),
    ensures
        a[i] == b[i],
    decreases i,
{
    assert forall|j: int| 0 <= j < i implies a[j] == b[j] by {
        lemma_rankings_agree(keys, a, b, j);
    }
    if a[i] != b[i] {
        assert(b.contains(a[i]));
        let p = choose|p: int| 0 <= p < b.len() && b[p] == a[i];
        assert(a.contains(b[i]));
        let q = choose|q: int| 0 <= q < a.len() && a[q] == b[i];
        if p < i {
            assert(a[p] == a[i]);
        } else if q < i {
            assert(b[q] == b[i]);
        } else {
            assert(above(keys, b[i] as int, b[p] as int));
            assert(above(keys, a[i] as int, a[q] as int));
        }
    }
}

fn shown_above(keys: &Vec<u128>, i: usize, j: usize) -> (yes: bool)
    requires
        i < keys@.len(),
        j < keys@.len(),
    ensures
        yes == above(keys@, i as int, j as int),
{
    keys[i] > keys[j] || (keys[i] == keys[j] && i < j)
}

fn merge(keys: &Vec<u128>, a: Vec<usize>, b: Vec<usize>, Ghost(lo): Ghost<int>, Ghost(mid): Ghost<int>, Ghost(hi): Ghost<int>) -> (out: Vec<usize>)
    requires
        0 <= lo <= mid <= hi <= keys@.len(),
        ranks_range(keys@, a@, lo, mid),
        ranks_range(keys@, b@, mid, hi),
    ensures
        ranks_range(keys@, out@, lo, hi),
{
    let mut out: Vec<usize> = Vec::new();
    let mut i: usize = 0;
    let mut j: usize = 0;
    while i < a.len() || j < b.len()
        invariant
            0 <= lo <= mid <= hi <= keys@.len(),
            ranks_range(keys@, a@, lo, mid),
            ranks_range(keys@, b@, mid, hi),
            i <= a@.len(),
            j <= b@.len(),
            out@.len() == i + j,
            forall|k: int| 0 <= k < out@.len() ==> lo <= #[trigger] out@[k] < hi,
            forall|p: int, q: int|
                0 <= p < q < out@.len() ==> above(
                    keys@,
                    #[trigger] out@[p] as int,
                    #[trigger] out@[q] as int,
                ),
            forall|p: int, q: int|
                0 <= p < out@.len() && i <= q < a@.len() ==> above(
                    keys@,
                    #[trigger] out@[p] as int,
                    #[trigger] a@[q] as int,
                ),
            forall|p: int, q: int|
                0 <= p < out@.len() && j <= q < b@.len() ==> above(
                    keys@,
                    #[trigger] out@[p] as int,
                    #[trigger] b@[q] as int,
                ),
            forall|p: int| 0 <= p < i ==> out@.contains(#[trigger] a@[p]),
            forall|p: int| 0 <= p < j ==> out@.contains(#[trigger] b@[p]),
        decreases a@.len() - i + b@.len() - j,
    {
        let ghost before = out@;
        let from_a: bool = if i < a.len() && j < b.len() {
            shown_above(keys, a[i], b[j])
        } else {
            i < a.len()
        };
        if from_a {
            out.push(a[i]);
            i += 1;
        } else {
            out.push(b[j]);
            j += 1;
        }
        proof {
            assert(out@.last() == out@[before.len() as int]);
            assert forall|v: usize| before.contains(v) implies out@.contains(v) by {
                let p = choose|p: int| 0 <= p < before.len() && before[p] == v;
                assert(out@[p] == v);
            }
        }
    }
    proof {
        assert forall|k: usize| lo <= k < hi implies #[trigger] out@.contains(k) by {
            if k < mid {
                assert(a@.contains(k));
                let p = choose|p: int| 0 <= p < a@.len() && a@[p] == k;
                assert(out@.contains(a@[p]));
            } else {
                assert(b@.contains(k));
                let p = choose|p: int| 0 <= p < b@.len() && b@[p] == k;
                assert(out@.contains(b@[p]));
            }
        }
    }
    out
}

fn rank_range(keys: &Vec<u128>, lo: usize, hi: usize) -> (order: Vec<usize>)
    requires
        lo <= hi <= keys@.len(),
    ensures
        ranks_range(keys@, order@, lo as int, hi as int),
    decreases hi - lo,
{
    if hi - lo <= 1 {
        let mut order: Vec<usize> = Vec::new();
        if lo < hi {
            order.push(lo);
            assert(order@[0] == lo);
        }
        assert forall|k: usize| lo <= k < hi implies #[trigger] order@.contains(k) by {
            assert(order@[0] == k);
        }
        order
    } else {
        let mid: usize = lo + (hi - lo) / 2;
        let a = rank_range(keys, lo, mid);
        let b = rank_range(keys, mid, hi);
        merge(keys, a, b, Ghost(lo as int), Ghost(mid as int), Ghost(hi as int))
    }
}

/// Ranks rows by their keys.
pub fn rank(keys: &Vec<u128>) -> (order: Vec<usize>)
    ensures
        is_ranking(keys@, order@),
        order@ == ranking(keys@),
{
    let order = rank_range(keys, 0, keys.len());
    proof {
        assert(is_ranking(keys@, order@));
        ranking_is_unique(keys@, order@, ranking(keys@));
    }
    order
}

/// Rows from the top down, by the key of each.
pub open spec fn ranked<T>(rows: Seq<T>, key: spec_fn(T) -> u128) -> Seq<T> {
    let order = ranking(rows.map_values(key));
    Seq::new(order.len(), |i: int| rows[order[i] as int])
}

/// `order` says for each of the sorted rows where it stood.
pub open spec fn leads_to<T>(order: Seq<usize>, rows: Seq<T>, sorted: Seq<T>) -> bool {
    &&& order.len() == sorted.len()
    &&& forall|j: int|
        0 <= j < order.len() ==> #[trigger] order[j] < rows.len() && sorted[j]
            == rows[order[j] as int]
}

proof fn lemma_some_ranking(keys: Seq<u128>, n: int) -> (order: Seq<usize>)
    requires
        0 <= n <= keys.len() <= usize::MAX,
    ensures
        ranks_range(keys, order, 0, n),
    decreases n,
{
    if n == 0 {
        Seq::empty()
    } else {
        let rest = lemma_some_ranking(keys, n - 1);
        let p = lemma_place(keys, rest, n - 1, 0);
        let order = rest.insert(p, (n - 1) as usize);
        assert forall|a: int, b: int| 0 <= a < b < order.len() implies above(
            keys,
            #[trigger] order[a] as int,
            #[trigger] order[b] as int,
        ) by {
            let x = if a < p {
                a
            } else {
                a - 1
            };
            let y = if b < p {
                b
            } else {
                b - 1
            };
            if a != p && b != p {
                assert(above(keys, rest[x] as int, rest[y] as int));
            } else if a == p {
                if y > p {
                    assert(above(keys, rest[p] as int, rest[y] as int));
                }
            } else {
                assert(above(keys, rest[x] as int, n - 1));
            }
        }
        assert forall|k: usize| 0 <= k < n implies #[trigger] order.contains(k) by {
            if k == n - 1 {
                assert(order[p] == k);
            } else {
                assert(rest.contains(k));
                let a = choose|a: int| 0 <= a < rest.len() && rest[a] == k;
                assert(order[if a < p {
                    a
                } else {
                    a + 1
                }] == k);
            }
        }
        order
    }
}

proof fn lemma_place(keys: Seq<u128>, rest: Seq<usize>, n: int, from: int) -> (p: int)
    requires
        0 <= n < keys.len() <= usize::MAX,
        ranks_range(keys, rest, 0, n),
        0 <= from <= rest.len(),
        forall|a: int| 0 <= a < from ==> above(keys, #[trigger] rest[a] as int, n),
    ensures
        from <= p <= rest.len(),
        forall|a: int| 0 <= a < p ==> above(keys, #[trigger] rest[a] as int, n),
        p < rest.len() ==> above(keys, n, rest[p] as int),
    decreases rest.len() - from,
{
    if from < rest.len() && above(keys, rest[from] as int, n) {
        lemma_place(keys, rest, n, from + 1)
    } else {
        from
    }
}

/// Any keys can be ranked.
pub proof fn ranking_exists(keys: Seq<u128>)
    requires
        keys.len() <= usize::MAX,
    ensures
        is_ranking(keys, ranking(keys)),
{
    let order = lemma_some_ranking(keys, keys.len() as int);
    assert(is_ranking(keys, order));
}

/// Ranked rows come with the largest key first.
pub proof fn ranked_rows_descend<T>(rows: Seq<T>, key: spec_fn(T) -> u128, i: int, j: int)
    requires
        rows.len() <= usize::MAX,
        0 <= i < j < rows.len(),
    ensures
        ranked(rows, key).len() == rows.len(),
        key(ranked(rows, key)[i]) >= key(ranked(rows, key)[j]),
{
    let keys = rows.map_values(key);
    ranking_exists(keys);
    let order = ranking(keys);
    assert(above(keys, order[i] as int, order[j] as int));
}

/// Rows with equal keys stay in the order they came in.
pub proof fn equal_rows_keep_their_order(keys: Seq<u128>, i: int, j: int)
    requires
        keys.len() <= usize::MAX,
        0 <= i < j < keys.len(),
        keys[ranking(keys)[i] as int] == keys[ranking(keys)[j] as int],
    ensures
        ranking(keys)[i] < ranking(keys)[j],
{
    ranking_exists(keys);
    assert(above(keys, ranking(keys)[i] as int, ranking(keys)[j] as int));
}

/// Ranking loses no row and adds none.
pub proof fn ranking_keeps_the_rows<T>(rows: Seq<T>, key: spec_fn(T) -> u128)
    requires
        rows.len() <= usize::MAX,
    ensures
        ranked(rows, key).to_multiset() == rows.to_multiset(),
{
    let keys = rows.map_values(key);
    ranking_exists(keys);
    let order = ranking(keys);
    assert forall|a: int, b: int| 0 <= a < b < order.len() implies order[a] != order[b] by {
        assert(above(keys, order[a] as int, order[b] as int));
    }
    lemma_picks_keep_rows(rows, order);
    assert(ranked(rows, key) =~= picks(rows, order));
}

spec fn picks<T>(rows: Seq<T>, order: Seq<usize>) -> Seq<T> {
    Seq::new(order.len(), |i: int| rows[order[i] as int])
}

proof fn lemma_picks_keep_rows<T>(rows: Seq<T>, order: Seq<usize>)
    requires
        order.len() == rows.len(),
        rows.len() <= usize::MAX,
        forall|a: int| 0 <= a < order.len() ==> #[trigger] order[a] < rows.len(),
        forall|a: int, b: int| 0 <= a < b < order.len() ==> order[a] != order[b],
        forall|k: usize| k < rows.len() ==> #[trigger] order.contains(k),
    ensures
        picks(rows, order).to_multiset() == rows.to_multiset(),
    decreases rows.len(),
{
    broadcast use vstd::seq_lib::group_to_multiset_ensures;

    let all = picks(rows, order);
    if rows.len() == 0 {
        assert(all =~= rows);
    } else {
        let last = (rows.len() - 1) as usize;
        assert(order.contains(last));
        let p = choose|p: int| 0 <= p < order.len() && order[p] == last;
        let rest = order.remove(p);
        let head = rows.drop_last();
        assert forall|a: int| 0 <= a < rest.len() implies #[trigger] rest[a] < head.len() by {
            assert(order[if a < p {
                a
            } else {
                a + 1
            }] != order[p]);
        }
        assert forall|k: usize| k < head.len() implies #[trigger] rest.contains(k) by {
            assert(order.contains(k));
            let a = choose|a: int| 0 <= a < order.len() && order[a] == k;
            assert(rest[if a < p {
                a
            } else {
                a - 1
            }] == k);
        }
        lemma_picks_keep_rows(head, rest);
        assert(all.remove(p) =~= picks(head, rest));
        assert(rows =~= head.push(rows.last()));
        assert(all =~= all.remove(p).insert(p, rows.last()));
    }
}

} // verus!
