use crate::boxchecker::{BoxCheckerError, StoreFailure};
use crate::paging::{
    first_page, lemma_filter_drops, lemma_filter_insert, lemma_filter_picks,
    lemma_filter_take_step, lemma_filter_twice, lemma_scan_gives_page, rest_kept,
};
use vstd::prelude::*;

verus! {

/// A row of a pair relation: a key and a value.
pub type PairRow = (i64, i64);

/// Whether the keys of `rows` never descend.
pub open spec fn sorted_by_key(rows: Seq<PairRow>) -> bool {
    forall|i: int, j: int|
        0 <= i < j < rows.len() ==> (#[trigger] rows[i]).0 <= (#[trigger] rows[j]).0
}

/// Where a new row with `key` goes: behind the last row whose key is no
/// greater, so that rows of one key stay in the order in which they came.
pub open spec fn slot_for(rows: Seq<PairRow>, key: i64) -> int
    decreases rows.len(),
{
    if rows.len() == 0 {
        0
    } else if rows.last().0 <= key {
        rows.len() as int
    } else {
        slot_for(rows.drop_last(), key)
    }
}

/// The rows after `(key, value)` has been put in.
pub open spec fn rows_after_insert(rows: Seq<PairRow>, key: i64, value: i64) -> Seq<PairRow> {
    rows.insert(slot_for(rows, key), (key, value))
}

/// Whether `row` belongs to the page of `key` behind the cursor `after`.
pub open spec fn is_later_value(row: PairRow, key: i64, after: i64) -> bool {
    row.0 == key && row.1 > after
}

/// The rows of `key` whose value is greater than `after`, in the order in
/// which they were put in.
pub open spec fn later_rows(rows: Seq<PairRow>, key: i64, after: i64) -> Seq<PairRow> {
    rows.filter(|row: PairRow| is_later_value(row, key, after))
}

/// The values of `rows`, in order.
pub open spec fn values_of(rows: Seq<PairRow>) -> Seq<i64> {
    Seq::new(rows.len(), |i: int| rows[i].1)
}

/// Whether the key of `row` lies in the half-open interval from `lo` to `hi`.
pub open spec fn is_within(row: PairRow, lo: int, hi: int) -> bool {
    lo <= row.0 < hi
}

/// The rows whose key lies in the half-open interval from `lo` to `hi`, in
/// ascending order of key.
pub open spec fn window(rows: Seq<PairRow>, lo: int, hi: int) -> Seq<PairRow> {
    rows.filter(|row: PairRow| is_within(row, lo, hi))
}

/// The slot of a key lies among the rows; before it no key is greater, and
/// from it on every key is greater.
pub proof fn lemma_slot_parts(rows: Seq<PairRow>, key: i64)
    requires
        sorted_by_key(rows),
    ensures
        0 <= slot_for(rows, key) <= rows.len(),
        forall|k: int| 0 <= k < slot_for(rows, key) ==> (#[trigger] rows[k]).0 <= key,
        forall|k: int| slot_for(rows, key) <= k < rows.len() ==> (#[trigger] rows[k]).0 > key,
    decreases rows.len(),
{
    if rows.len() > 0 && rows.last().0 > key {
        let front = rows.drop_last();
        lemma_slot_parts(front, key);
        assert forall|k: int| 0 <= k < slot_for(rows, key) implies (#[trigger] rows[k]).0
            <= key by {
            assert(rows[k] == front[k]);
        }
        assert forall|k: int| slot_for(rows, key) <= k < rows.len() implies (#[trigger] rows[k]).0
            > key by {
            if k < front.len() {
                assert(rows[k] == front[k]);
            }
        }
    }
}

/// The slot of a key lies among the rows or right behind them.
pub proof fn lemma_slot_in_range(rows: Seq<PairRow>, key: i64)
    ensures
        0 <= slot_for(rows, key) <= rows.len(),
        rows_after_insert(rows, key, 0).len() == rows.len() + 1,
    decreases rows.len(),
{
    if rows.len() > 0 && rows.last().0 > key {
        lemma_slot_in_range(rows.drop_last(), key);
    }
}

/// Putting a row in keeps the keys in order.
pub proof fn lemma_insert_keeps_sorted(rows: Seq<PairRow>, key: i64, value: i64)
    requires
        sorted_by_key(rows),
    ensures
        sorted_by_key(rows_after_insert(rows, key, value)),
        rows_after_insert(rows, key, value).len() == rows.len() + 1,
{
    lemma_slot_parts(rows, key);
}

/// A value that is put in under a key comes last among the values of the
/// key, on every page that reaches it, and the pages of every other key stay
/// as they are: within a key, values keep the order in which they were put
/// in.
pub proof fn lemma_insert_comes_last(
    rows: Seq<PairRow>,
    key: i64,
    value: i64,
    other: i64,
    after: i64,
)
    requires
        sorted_by_key(rows),
    ensures
        value > after ==> later_rows(rows_after_insert(rows, key, value), key, after)
            == later_rows(rows, key, after).push((key, value)),
        value <= after ==> later_rows(rows_after_insert(rows, key, value), key, after)
            == later_rows(rows, key, after),
        other != key ==> later_rows(rows_after_insert(rows, key, value), other, after)
            == later_rows(rows, other, after),
{
    lemma_slot_parts(rows, key);
    let at = slot_for(rows, key);
    let back = rows.skip(at);
    let same = |row: PairRow| is_later_value(row, key, after);
    let different = |row: PairRow| is_later_value(row, other, after);
    lemma_filter_insert(rows, at, (key, value), same);
    lemma_filter_insert(rows, at, (key, value), different);
    back.lemma_all_neg_filter_empty(same);
}

/// An interval that is empty or inverted holds no row.
pub proof fn lemma_empty_window(rows: Seq<PairRow>, lo: int, hi: int)
    requires
        lo >= hi,
    ensures
        window(rows, lo, hi) == Seq::<PairRow>::empty(),
{
    let pred = |row: PairRow| is_within(row, lo, hi);
    if rows.filter(pred).len() > 0 {
        assert(pred(rows.filter(pred)[0]));
    }
}

/// What is chosen among rows whose keys never descend has keys that never
/// descend.
pub proof fn lemma_filter_keeps_sorted(rows: Seq<PairRow>, pred: spec_fn(PairRow) -> bool)
    requires
        sorted_by_key(rows),
    ensures
        sorted_by_key(rows.filter(pred)),
    decreases rows.len(),
{
    reveal(Seq::filter);
    if rows.len() > 0 {
        let front = rows.drop_last();
        lemma_filter_keeps_sorted(front, pred);
        lemma_filter_picks(front, pred);
    }
}

/// Every value of a page lies behind the cursor, and paging on from any of
/// them leaves fewer values to come: paging through the values of a key
/// comes to an end, whatever values occur twice.
pub proof fn lemma_page_advances(rows: Seq<PairRow>, key: i64, after: i64, n: nat, k: int)
    requires
        0 <= k < first_page(later_rows(rows, key, after), n).len(),
    ensures
        first_page(later_rows(rows, key, after), n)[k].1 > after,
        later_rows(rows, key, first_page(later_rows(rows, key, after), n)[k].1).len() < later_rows(
            rows,
            key,
            after,
        ).len(),
{
    let found = later_rows(rows, key, after);
    let row = found[k];
    let cursor = row.1;
    let first = |r: PairRow| is_later_value(r, key, after);
    let behind = |r: PairRow| r.1 > cursor;
    let next = |r: PairRow| is_later_value(r, key, cursor);
    lemma_filter_twice(rows, first, behind);
    let both = |r: PairRow| first(r) && behind(r);
    assert(both =~= next);
    lemma_filter_drops(found, behind, k);
}

/// An ordered multi-map from a numeric key to numeric values.
pub struct PairRelation {
    rows: Vec<(i64, i64)>,
}

impl View for PairRelation {
    type V = Seq<PairRow>;

    /// The rows in ascending order of key, and within one key in the order in
    /// which they were put in.
    closed spec fn view(&self) -> Seq<PairRow> {
        self.rows@
    }
}

impl PairRelation {
    /// What every relation satisfies: its keys never descend, and its rows
    /// can be counted in a `usize`.
    #[verifier::type_invariant]
    pub open spec fn well_formed(self) -> bool {
        sorted_by_key(self@) && self@.len() <= usize::MAX
    }

    /// An empty relation.
    pub fn new() -> (relation: Self)
        ensures
            relation@ == Seq::<PairRow>::empty(),
            sorted_by_key(relation@),
    {
        PairRelation { rows: Vec::new() }
    }

    /// How many rows the relation holds.
    pub fn len(&self) -> (n: usize)
        ensures
            n == self@.len(),
    {
        self.rows.len()
    }

    /// Puts the row `(key, value)` in, behind the rows that the key has
    /// already. A pair that is there already is put in once more. Fails with
    /// `StorageUnavailable`, and changes nothing, when the relation cannot
    /// hold another row.
    pub fn insert(&mut self, key: i64, value: i64) -> (r: Result<(), BoxCheckerError>)
        ensures
            sorted_by_key(old(self)@),
            sorted_by_key(final(self)@),
            old(self)@.len() < usize::MAX ==> r is Ok && final(self)@ == rows_after_insert(
                old(self)@,
                key,
                value,
            ),
            old(self)@.len() >= usize::MAX ==> (r matches Err(e) && e.is(
                StoreFailure::StorageUnavailable,
            )) && final(self)@ == old(self)@,
    {
        proof {
            use_type_invariant(&*self);
            lemma_insert_keeps_sorted(self@, key, value);
        }
        let n: usize = self.rows.len();
        if n == usize::MAX {
            return Err(BoxCheckerError::new(StoreFailure::StorageUnavailable));
        }
        let mut at: usize = n;
        assert(self@.take(n as int) =~= self@);
        while at > 0 && self.rows[at - 1].0 > key
            invariant
                at <= n,
                n == self.rows.len(),
                slot_for(self@, key) == slot_for(self@.take(at as int), key),
            decreases at,
        {
            assert(self@.take(at as int).drop_last() =~= self@.take(at - 1));
            at = at - 1;
        }
        let mut rows: Vec<(i64, i64)> = Vec::new();
        core::mem::swap(&mut self.rows, &mut rows);
        rows.insert(at, (key, value));
        core::mem::swap(&mut self.rows, &mut rows);
        Ok(())
    }

    /// Writes into the beginning of `dest` the first values of `key` that are
    /// greater than `after_value`, in the order in which they were put in:
    /// as many as `dest` has room for. Returns how many were written; the
    /// rest of `dest` stays as it was.
    pub fn get_page(&self, key: i64, after_value: i64, dest: &mut Vec<i64>) -> (count: usize)
        ensures
            sorted_by_key(self@),
            count == first_page(later_rows(self@, key, after_value), old(dest).len() as nat).len(),
            final(dest)@.take(count as int) == values_of(
                first_page(later_rows(self@, key, after_value), old(dest).len() as nat),
            ),
            rest_kept(old(dest)@, final(dest)@, count as int),
            forall|k: int| 0 <= k < count ==> final(dest)@[k] > after_value,
    {
        proof {
            use_type_invariant(self);
        }
        let ghost pred = |row: PairRow| is_later_value(row, key, after_value);
        let n: usize = dest.len();
        let mut count: usize = 0;
        let mut i: usize = 0;
        while i < self.rows.len() && count < n
            invariant
                i <= self.rows.len(),
                count <= n,
                n == dest.len(),
                pred == (|row: PairRow| is_later_value(row, key, after_value)),
                self@.take(i as int).filter(pred).len() == count,
                dest@.take(count as int) == values_of(self@.take(i as int).filter(pred)),
                rest_kept(old(dest)@, dest@, count as int),
            decreases self.rows.len() - i,
        {
            proof {
                lemma_filter_take_step(self@, pred, i as int);
            }
            let row: (i64, i64) = self.rows[i];
            if row.0 == key && row.1 > after_value {
                let ghost before = dest@;
                dest.set(count, row.1);
                assert(dest@.take(count + 1) =~= before.take(count as int).push(row.1));
                count = count + 1;
            }
            i = i + 1;
        }
        proof {
            lemma_scan_gives_page(self@, pred, i as int, n as nat);
            assert forall|k: int| 0 <= k < count implies dest@[k] > after_value by {
                assert(dest@[k] == dest@.take(count as int)[k]);
            }
        }
        count
    }

    /// Writes into the beginning of `dest` the first rows, in ascending order
    /// of key, whose key is at least `lo` and less than `hi`: as many as
    /// `dest` has room for. Returns how many were written; the rest of `dest`
    /// stays as it was.
    pub fn page_within(&self, lo: i128, hi: i128, dest: &mut Vec<(i64, i64)>) -> (count: usize)
        ensures
            sorted_by_key(self@),
            count == first_page(window(self@, lo as int, hi as int), old(dest).len() as nat).len(),
            final(dest)@.take(count as int) == first_page(
                window(self@, lo as int, hi as int),
                old(dest).len() as nat,
            ),
            rest_kept(old(dest)@, final(dest)@, count as int),
            forall|k: int| 0 <= k < count ==> lo <= (#[trigger] final(dest)@[k]).0 < hi,
            lo >= hi ==> count == 0,
    {
        proof {
            use_type_invariant(self);
        }
        let ghost pred = |row: PairRow| is_within(row, lo as int, hi as int);
        let n: usize = dest.len();
        let mut count: usize = 0;
        let mut i: usize = 0;
        while i < self.rows.len() && count < n
            invariant
                i <= self.rows.len(),
                count <= n,
                n == dest.len(),
                pred == (|row: PairRow| is_within(row, lo as int, hi as int)),
                self@.take(i as int).filter(pred).len() == count,
                dest@.take(count as int) == self@.take(i as int).filter(pred),
                rest_kept(old(dest)@, dest@, count as int),
            decreases self.rows.len() - i,
        {
            proof {
                lemma_filter_take_step(self@, pred, i as int);
            }
            let row: (i64, i64) = self.rows[i];
            if lo <= row.0 as i128 && (row.0 as i128) < hi {
                dest.set(count, row);
                count = count + 1;
            }
            i = i + 1;
        }
        proof {
            lemma_scan_gives_page(self@, pred, i as int, n as nat);
            assert forall|k: int| 0 <= k < count implies lo <= (#[trigger] dest@[k]).0 < hi by {
                assert(dest@[k] == dest@.take(count as int)[k]);
            }
            if lo >= hi {
                lemma_empty_window(self@, lo as int, hi as int);
            }
        }
        count
    }

    /// Writes into the beginning of `dest` the first rows, in ascending order
    /// of key, whose key is at least `from_key` and less than `to_key`: as
    /// many as `dest` has room for. An interval that is empty or inverted
    /// gives no row. Returns how many were written; the rest of `dest` stays
    /// as it was.
    pub fn page_left(
        &self,
        from_key: i64,
        to_key: i64,
        dest: &mut Vec<(i64, i64)>,
    ) -> (count: usize)
        ensures
            sorted_by_key(self@),
            count == first_page(
                window(self@, from_key as int, to_key as int),
                old(dest).len() as nat,
            ).len(),
            final(dest)@.take(count as int) == first_page(
                window(self@, from_key as int, to_key as int),
                old(dest).len() as nat,
            ),
            rest_kept(old(dest)@, final(dest)@, count as int),
            forall|k: int| 0 <= k < count ==> from_key <= (#[trigger] final(dest)@[k]).0 < to_key,
            from_key >= to_key ==> count == 0,
    {
        self.page_within(from_key as i128, to_key as i128, dest)
    }
}

} // verus!
