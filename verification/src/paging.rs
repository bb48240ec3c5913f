use vstd::prelude::*;

verus! {

/// The first `n` of `found`, or all of it where it has fewer.
pub open spec fn first_page<T>(found: Seq<T>, n: nat) -> Seq<T> {
    if found.len() <= n {
        found
    } else {
        found.take(n as int)
    }
}

/// Whether the buffer `after` is the buffer `before` with nothing changed
/// from position `count` on.
pub open spec fn rest_kept<T>(before: Seq<T>, after: Seq<T>, count: int) -> bool {
    &&& after.len() == before.len()
    &&& 0 <= count <= after.len()
    &&& forall|i: int| count <= i < after.len() ==> after[i] == before[i]
}

/// A page never holds more than was asked for, nor more than was found.
pub proof fn lemma_first_page_len<T>(found: Seq<T>, n: nat)
    ensures
        first_page(found, n).len() <= n,
        first_page(found, n).len() <= found.len(),
        first_page(found, n).len() < n ==> first_page(found, n) == found,
        forall|i: int| 0 <= i < first_page(found, n).len() ==> first_page(found, n)[i] == found[i],
{
}

/// Looking at one more row adds that row to what was found, if it is chosen.
pub proof fn lemma_filter_take_step<T>(rows: Seq<T>, pred: spec_fn(T) -> bool, i: int)
    requires
        0 <= i < rows.len(),
    ensures
        rows.take(i + 1).filter(pred) == if pred(rows[i]) {
            rows.take(i).filter(pred).push(rows[i])
        } else {
            rows.take(i).filter(pred)
        },
{
    assert(rows.take(i + 1) =~= rows.take(i).push(rows[i]));
    rows.take(i).lemma_filter_push(rows[i], pred);
}

/// What is chosen among all rows begins with what is chosen among the first
/// `i` of them.
pub proof fn lemma_filter_take_prefix<T>(rows: Seq<T>, pred: spec_fn(T) -> bool, i: int)
    requires
        0 <= i <= rows.len(),
    ensures
        rows.filter(pred) == rows.take(i).filter(pred) + rows.skip(i).filter(pred),
{
    assert(rows =~= rows.take(i) + rows.skip(i));
}

/// A scan that stops at the end of the rows, or as soon as it has found `n`,
/// has found the first page.
pub proof fn lemma_scan_gives_page<T>(rows: Seq<T>, pred: spec_fn(T) -> bool, i: int, n: nat)
    requires
        0 <= i <= rows.len(),
        rows.take(i).filter(pred).len() <= n,
        i == rows.len() || rows.take(i).filter(pred).len() == n,
    ensures
        first_page(rows.filter(pred), n) == rows.take(i).filter(pred),
{
    lemma_filter_take_prefix(rows, pred, i);
}

/// Every chosen row is a row, and is chosen; the chosen rows keep their
/// order.
pub proof fn lemma_filter_picks<T>(rows: Seq<T>, pred: spec_fn(T) -> bool)
    ensures
        forall|k: int|
            0 <= k < rows.filter(pred).len() ==> pred(#[trigger] rows.filter(pred)[k])
                && rows.contains(rows.filter(pred)[k]),
    decreases rows.len(),
{
    reveal(Seq::filter);
    if rows.len() > 0 {
        let front = rows.drop_last();
        lemma_filter_picks(front, pred);
        assert forall|k: int| 0 <= k < rows.filter(pred).len() implies pred(
            #[trigger] rows.filter(pred)[k],
        ) && rows.contains(rows.filter(pred)[k]) by {
            if k < front.filter(pred).len() {
                let x = front.filter(pred)[k];
                assert(front.contains(x));
                let w = choose|w: int| 0 <= w < front.len() && front[w] == x;
                assert(rows[w] == x);
            } else {
                assert(rows[rows.len() - 1] == rows.last());
            }
        }
    }
}

/// Choosing among rows with one more row put in: what is chosen before the
/// new row, the new row if it is chosen, and what is chosen behind it.
pub proof fn lemma_filter_insert<T>(rows: Seq<T>, at: int, row: T, pred: spec_fn(T) -> bool)
    requires
        0 <= at <= rows.len(),
    ensures
        rows.insert(at, row).filter(pred) == rows.take(at).filter(pred) + (if pred(row) {
            seq![row]
        } else {
            Seq::empty()
        }) + rows.skip(at).filter(pred),
        rows.filter(pred) == rows.take(at).filter(pred) + rows.skip(at).filter(pred),
{
    let front = rows.take(at);
    let back = rows.skip(at);
    lemma_filter_take_prefix(rows, pred, at);
    assert(rows.insert(at, row) =~= front.push(row) + back);
    Seq::filter_distributes_over_add(front.push(row), back, pred);
    front.lemma_filter_push(row, pred);
    if pred(row) {
        assert(front.filter(pred).push(row) =~= front.filter(pred) + seq![row]);
    } else {
        assert(front.filter(pred) =~= front.filter(pred) + Seq::<T>::empty());
    }
}

/// Choosing among what was chosen is choosing by both rules at once.
pub proof fn lemma_filter_twice<T>(rows: Seq<T>, p: spec_fn(T) -> bool, q: spec_fn(T) -> bool)
    ensures
        rows.filter(p).filter(q) == rows.filter(|x: T| p(x) && q(x)),
    decreases rows.len(),
{
    reveal(Seq::filter);
    if rows.len() > 0 {
        let front = rows.drop_last();
        let last = rows.last();
        lemma_filter_twice(front, p, q);
        if p(last) {
            front.filter(p).lemma_filter_push(last, q);
        }
    }
}

/// Choosing never adds rows, and leaves fewer where a row is not chosen.
pub proof fn lemma_filter_drops<T>(rows: Seq<T>, q: spec_fn(T) -> bool, i: int)
    requires
        0 <= i < rows.len(),
        !q(rows[i]),
    ensures
        rows.filter(q).len() < rows.len(),
    decreases rows.len(),
{
    let front = rows.drop_last();
    let last = rows.last();
    assert(rows =~= front.push(last));
    front.lemma_filter_push(last, q);
    if i < rows.len() - 1 {
        lemma_filter_drops(front, q, i);
    }
}

} // verus!
