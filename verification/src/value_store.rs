use crate::boxchecker::{BoxCheckerError, StoreFailure};
use crate::paging::{
    first_page, lemma_filter_picks, lemma_filter_take_step, lemma_filter_twice,
    lemma_scan_gives_page, rest_kept,
};
use crate::text::{chars_of, contains, has_part};
use vstd::prelude::*;

verus! {

/// A row of a value store as contracts see it: an identity and a text.
pub type ValueRow = (i64, Seq<char>);

/// Whether `rows` can be the rows of a value store: identities are positive
/// and ascend strictly, and no text occurs twice.
pub open spec fn interned(rows: Seq<ValueRow>) -> bool {
    &&& forall|i: int| 0 <= i < rows.len() ==> (#[trigger] rows[i]).0 >= 1
    &&& forall|i: int, j: int|
        0 <= i < j < rows.len() ==> (#[trigger] rows[i]).0 < (#[trigger] rows[j]).0
    &&& forall|i: int, j: int|
        0 <= i < j < rows.len() ==> (#[trigger] rows[i]).1 != (#[trigger] rows[j]).1
}

/// Whether a row of `rows` holds `text`.
pub open spec fn holds_text(rows: Seq<ValueRow>, text: Seq<char>) -> bool {
    exists|i: int| 0 <= i < rows.len() && (#[trigger] rows[i]).1 == text
}

/// The identity of the row of `rows` that holds `text`.
pub open spec fn id_of(rows: Seq<ValueRow>, text: Seq<char>) -> i64
    recommends
        holds_text(rows, text),
{
    rows[choose|i: int| 0 <= i < rows.len() && (#[trigger] rows[i]).1 == text].0
}

/// Whether a row of `rows` bears the identity `id`.
pub open spec fn holds_id(rows: Seq<ValueRow>, id: i64) -> bool {
    exists|i: int| 0 <= i < rows.len() && (#[trigger] rows[i]).0 == id
}

/// The text of the row of `rows` that bears the identity `id`.
pub open spec fn text_of(rows: Seq<ValueRow>, id: i64) -> Seq<char>
    recommends
        holds_id(rows, id),
{
    rows[choose|i: int| 0 <= i < rows.len() && (#[trigger] rows[i]).0 == id].1
}

/// The identity that the next new row gets: one more than the last, and 1 in
/// an empty store.
pub open spec fn next_id(rows: Seq<ValueRow>) -> int {
    if rows.len() == 0 {
        1
    } else {
        rows.last().0 + 1
    }
}

/// What interning `text` in `rows` comes to: the identity it has or gets, or
/// `StorageUnavailable` when the identities are used up.
pub open spec fn create_verdict(rows: Seq<ValueRow>, text: Seq<char>) -> Result<
    i64,
    StoreFailure,
> {
    if holds_text(rows, text) {
        Ok(id_of(rows, text))
    } else if next_id(rows) > i64::MAX {
        Err(StoreFailure::StorageUnavailable)
    } else {
        Ok(next_id(rows) as i64)
    }
}

/// The rows after interning `text` in `rows`: one more row where the text is
/// new and an identity is left, the same rows otherwise.
pub open spec fn rows_after_create(rows: Seq<ValueRow>, text: Seq<char>) -> Seq<ValueRow> {
    if !holds_text(rows, text) && next_id(rows) <= i64::MAX {
        rows.push((next_id(rows) as i64, text))
    } else {
        rows
    }
}

/// Whether a row read back from a backing store can follow `rows`: its
/// identity lies behind every identity of `rows`, and its text is new.
pub open spec fn can_follow(rows: Seq<ValueRow>, id: i64, text: Seq<char>) -> bool {
    id >= next_id(rows) && !holds_text(rows, text)
}

/// Whether `row` belongs to a search for `part` behind the cursor `after`.
pub open spec fn is_hit(row: ValueRow, part: Seq<char>, after: i64) -> bool {
    row.0 > after && contains(row.1, part)
}

/// The rows that a search for `part` finds behind the cursor `after`, in
/// the order of the store.
pub open spec fn hits(rows: Seq<ValueRow>, part: Seq<char>, after: i64) -> Seq<ValueRow> {
    rows.filter(|row: ValueRow| is_hit(row, part, after))
}

/// Whether `row` bears one of `ids`.
pub open spec fn is_wanted(row: ValueRow, ids: Seq<i64>) -> bool {
    ids.contains(row.0)
}

/// The rows that bear one of `ids`, in the order of the store.
pub open spec fn wanted(rows: Seq<ValueRow>, ids: Seq<i64>) -> Seq<ValueRow> {
    rows.filter(|row: ValueRow| is_wanted(row, ids))
}

/// The texts of the rows that a buffer holds.
pub open spec fn row_texts(rows: Seq<(i64, String)>) -> Seq<ValueRow> {
    Seq::new(rows.len(), |i: int| (rows[i].0, rows[i].1@))
}

/// What a search finds among interned rows is interned itself: its
/// identities ascend strictly, so that no row is found twice.
pub proof fn lemma_filter_keeps_interned(rows: Seq<ValueRow>, pred: spec_fn(ValueRow) -> bool)
    requires
        interned(rows),
    ensures
        interned(rows.filter(pred)),
    decreases rows.len(),
{
    reveal(Seq::filter);
    if rows.len() > 0 {
        let front = rows.drop_last();
        lemma_filter_keeps_interned(front, pred);
        lemma_filter_picks(front, pred);
    }
}

/// Among rows whose identities ascend, the rows behind the row at `k` are
/// those whose identity is greater than its identity.
pub proof fn lemma_rows_behind(rows: Seq<ValueRow>, k: int)
    requires
        interned(rows),
        0 <= k < rows.len(),
    ensures
        rows.filter(|row: ValueRow| row.0 > rows[k].0) == rows.skip(k + 1),
    decreases rows.len(),
{
    let cursor = rows[k].0;
    let behind = |row: ValueRow| row.0 > cursor;
    let front = rows.drop_last();
    let last = rows.last();
    assert(rows =~= front.push(last));
    front.lemma_filter_push(last, behind);
    if k == rows.len() - 1 {
        front.lemma_all_neg_filter_empty(behind);
    } else {
        lemma_rows_behind(front, k);
    }
}

/// Interning a text once more hands out the same identity and leaves the
/// store as it is.
pub proof fn lemma_create_twice(rows: Seq<ValueRow>, text: Seq<char>)
    requires
        interned(rows),
        create_verdict(rows, text) is Ok,
    ensures
        create_verdict(rows_after_create(rows, text), text) == create_verdict(rows, text),
        rows_after_create(rows_after_create(rows, text), text) == rows_after_create(rows, text),
{
}

/// The text stored under the identity that interning hands out is the text
/// that was interned.
pub proof fn lemma_get_created(rows: Seq<ValueRow>, text: Seq<char>)
    requires
        interned(rows),
        create_verdict(rows, text) is Ok,
    ensures
        holds_id(rows_after_create(rows, text), create_verdict(rows, text)->Ok_0),
        text_of(rows_after_create(rows, text), create_verdict(rows, text)->Ok_0) == text,
        create_verdict(rows, text)->Ok_0 >= 1,
{
    if !holds_text(rows, text) {
        lemma_row_found(rows_after_create(rows, text), rows.len() as int);
    }
}

/// A search from the cursor 0 passes over no row: it finds every row whose
/// text contains the part.
pub proof fn lemma_hits_from_zero(rows: Seq<ValueRow>, part: Seq<char>)
    requires
        interned(rows),
    ensures
        hits(rows, part, 0) == rows.filter(|row: ValueRow| contains(row.1, part)),
    decreases rows.len(),
{
    reveal(Seq::filter);
    if rows.len() > 0 {
        let front = rows.drop_last();
        lemma_hits_from_zero(front, part);
    }
}

/// The pages of a search, one call after the other: each call takes as its
/// cursor the last identity of the page before, and the first page that is
/// not full is the last. At most `calls` calls are made.
pub open spec fn pages_joined(
    rows: Seq<ValueRow>,
    part: Seq<char>,
    after: i64,
    n: nat,
    calls: nat,
) -> Seq<ValueRow>
    decreases calls,
{
    let page = first_page(hits(rows, part, after), n);
    if calls == 0 {
        Seq::empty()
    } else if page.len() < n || n == 0 {
        page
    } else {
        page + pages_joined(rows, part, page.last().0, n, (calls - 1) as nat)
    }
}

/// Behind a full page lies exactly what a search from the page's last
/// identity finds; a page that is not full is all that was left.
pub proof fn lemma_next_page(rows: Seq<ValueRow>, part: Seq<char>, after: i64, n: nat)
    requires
        interned(rows),
        n > 0,
    ensures
        ({
            let found = hits(rows, part, after);
            let page = first_page(found, n);
            &&& page.len() < n ==> page == found
            &&& page.len() == n ==> found == page + hits(rows, part, page.last().0)
            &&& page.len() == n ==> page.last().0 > after
        }),
{
    let found = hits(rows, part, after);
    let page = first_page(found, n);
    if page.len() == n {
        let k = n as int - 1;
        let cursor = found[k].0;
        let first = |row: ValueRow| is_hit(row, part, after);
        let behind = |row: ValueRow| row.0 > cursor;
        let next = |row: ValueRow| is_hit(row, part, cursor);
        lemma_filter_keeps_interned(rows, first);
        lemma_rows_behind(found, k);
        lemma_filter_twice(rows, first, behind);
        let both = |row: ValueRow| first(row) && behind(row);
        assert(both =~= next);
    }
}

/// Paging through a search until a page comes back that is not full gives,
/// page after page, exactly what the search finds: every row once, in
/// ascending order of identity.
pub proof fn lemma_pages_cover(
    rows: Seq<ValueRow>,
    part: Seq<char>,
    after: i64,
    n: nat,
    calls: nat,
)
    requires
        interned(rows),
        n > 0,
        calls > hits(rows, part, after).len(),
    ensures
        pages_joined(rows, part, after, n, calls) == hits(rows, part, after),
        interned(hits(rows, part, after)),
    decreases calls,
{
    let found = hits(rows, part, after);
    let page = first_page(found, n);
    lemma_next_page(rows, part, after, n);
    lemma_filter_keeps_interned(rows, |row: ValueRow| is_hit(row, part, after));
    if page.len() == n {
        let cursor = page.last().0;
        lemma_pages_cover(rows, part, cursor, n, (calls - 1) as nat);
    }
}

/// An interning table: each text once, under an identity of its own.
pub struct ValueStore {
    rows: Vec<(i64, String)>,
}

impl View for ValueStore {
    type V = Seq<ValueRow>;

    /// The rows in ascending order of identity.
    closed spec fn view(&self) -> Seq<ValueRow> {
        row_texts(self.rows@)
    }
}

/// Among interned rows, the row at `i` is what its text and its identity
/// lead to.
pub proof fn lemma_row_found(rows: Seq<ValueRow>, i: int)
    requires
        interned(rows),
        0 <= i < rows.len(),
    ensures
        holds_text(rows, rows[i].1),
        id_of(rows, rows[i].1) == rows[i].0,
        holds_id(rows, rows[i].0),
        text_of(rows, rows[i].0) == rows[i].1,
{
}

/// Interning keeps the rows interned.
pub proof fn lemma_create_keeps_interned(rows: Seq<ValueRow>, text: Seq<char>)
    requires
        interned(rows),
    ensures
        interned(rows_after_create(rows, text)),
{
}

impl ValueStore {
    /// What every store satisfies: its rows are interned.
    #[verifier::type_invariant]
    pub open spec fn well_formed(self) -> bool {
        interned(self@)
    }

    /// An empty store.
    pub fn new() -> (store: Self)
        ensures
            store@ == Seq::<ValueRow>::empty(),
            interned(store@),
    {
        let store = ValueStore { rows: Vec::new() };
        store
    }

    /// How many rows the store holds.
    pub fn len(&self) -> (n: usize)
        ensures
            n == self@.len(),
    {
        self.rows.len()
    }

    /// Where the row that holds `text` stands.
    fn find_text(&self, text: &String) -> (at: Option<usize>)
        ensures
            match at {
                Some(i) => i < self@.len() && self@[i as int].1 == text@,
                None => !holds_text(self@, text@),
            },
    {
        let mut i: usize = 0;
        while i < self.rows.len()
            invariant
                i <= self.rows.len(),
                forall|k: int| 0 <= k < i ==> (#[trigger] self@[k]).1 != text@,
            decreases self.rows.len() - i,
        {
            if self.rows[i].1 == *text {
                return Some(i);
            }
            i = i + 1;
        }
        None
    }

    /// Where the row that bears `id` stands. The identities ascend, so the
    /// search halves the rows at each step.
    fn find_id(&self, id: i64) -> (at: Option<usize>)
        ensures
            match at {
                Some(i) => i < self@.len() && self@[i as int].0 == id,
                None => !holds_id(self@, id),
            },
    {
        proof {
            use_type_invariant(self);
        }
        let mut low: usize = 0;
        let mut high: usize = self.rows.len();
        while low < high
            invariant
                low <= high <= self.rows.len(),
                interned(self@),
                forall|k: int| 0 <= k < low ==> (#[trigger] self@[k]).0 < id,
                forall|k: int| high <= k < self@.len() ==> (#[trigger] self@[k]).0 > id,
            decreases high - low,
        {
            let middle: usize = low + (high - low) / 2;
            let found: i64 = self.rows[middle].0;
            assert(found == self@[middle as int].0);
            if found == id {
                return Some(middle);
            } else if found < id {
                low = middle + 1;
            } else {
                high = middle;
            }
        }
        None
    }

    /// Interns `text`: hands out the identity that the text has already, or
    /// stores it under the next identity. Fails with `StorageUnavailable`,
    /// and stores nothing, when the text is new and the identities are used
    /// up.
    pub fn create(&mut self, text: &str) -> (r: Result<i64, BoxCheckerError>)
        ensures
            interned(old(self)@),
            interned(final(self)@),
            final(self)@ == rows_after_create(old(self)@, text@),
            match create_verdict(old(self)@, text@) {
                Ok(id) => r matches Ok(given) && given == id,
                Err(kind) => r matches Err(e) && e.is(kind),
            },
    {
        proof {
            use_type_invariant(&*self);
        }
        let owned = String::from_str(text);
        match self.find_text(&owned) {
            Some(i) => {
                Ok(self.rows[i].0)
            },
            None => {
                let n: usize = self.rows.len();
                let last: i64 = if n == 0 {
                    0
                } else {
                    self.rows[n - 1].0
                };
                if last == i64::MAX {
                    return Err(BoxCheckerError::new(StoreFailure::StorageUnavailable));
                }
                let id: i64 = last + 1;
                proof {
                    assert(row_texts(self.rows@.push((id, owned))) =~= self@.push((id, text@)));
                }
                let mut rows: Vec<(i64, String)> = Vec::new();
                core::mem::swap(&mut self.rows, &mut rows);
                rows.push((id, owned));
                core::mem::swap(&mut self.rows, &mut rows);
                Ok(id)
            },
        }
    }

    /// Puts back a row that a backing store holds, under the identity that
    /// it has there. Rows come in ascending order of identity. Fails with
    /// `DuplicateKey`, and stores nothing, when the identity does not lie
    /// behind those of the store or the text is there already.
    pub fn put(&mut self, id: i64, text: &str) -> (r: Result<(), BoxCheckerError>)
        ensures
            interned(old(self)@),
            interned(final(self)@),
            can_follow(old(self)@, id, text@) ==> r is Ok && final(self)@ == old(self)@.push(
                (id, text@),
            ),
            !can_follow(old(self)@, id, text@) ==> (r matches Err(e) && e.is(
                StoreFailure::DuplicateKey,
            )) && final(self)@ == old(self)@,
    {
        proof {
            use_type_invariant(&*self);
        }
        let n: usize = self.rows.len();
        let last: i64 = if n == 0 {
            0
        } else {
            self.rows[n - 1].0
        };
        assert(last + 1 == next_id(self@)) by {}
        if id <= last {
            return Err(BoxCheckerError::new(StoreFailure::DuplicateKey));
        }
        let owned = String::from_str(text);
        if self.find_text(&owned).is_some() {
            return Err(BoxCheckerError::new(StoreFailure::DuplicateKey));
        }
        proof {
            let after = self@.push((id, text@));
            assert(row_texts(self.rows@.push((id, owned))) =~= after);
        }
        let mut rows: Vec<(i64, String)> = Vec::new();
        core::mem::swap(&mut self.rows, &mut rows);
        rows.push((id, owned));
        core::mem::swap(&mut self.rows, &mut rows);
        Ok(())
    }

    /// The text stored under `id`, or `NotFound`.
    pub fn get(&self, id: i64) -> (r: Result<String, BoxCheckerError>)
        ensures
            interned(self@),
            holds_id(self@, id) ==> (r matches Ok(text) && text@ == text_of(self@, id)),
            !holds_id(self@, id) ==> (r matches Err(e) && e.is(StoreFailure::NotFound)),
    {
        proof {
            use_type_invariant(self);
        }
        match self.find_id(id) {
            Some(i) => {
                Ok(self.rows[i].1.clone())
            },
            None => Err(BoxCheckerError::new(StoreFailure::NotFound)),
        }
    }

    /// Writes into the beginning of `dest` the first rows, in ascending order
    /// of identity, whose identity is greater than `after_id` and whose text
    /// contains `part`: as many as `dest` has room for. Returns how many were
    /// written; the rest of `dest` stays as it was.
    pub fn search_page(
        &self,
        part: &str,
        after_id: i64,
        dest: &mut Vec<(i64, String)>,
    ) -> (count: usize)
        ensures
            interned(self@),
            count == first_page(hits(self@, part@, after_id), old(dest).len() as nat).len(),
            row_texts(final(dest)@).take(count as int) == first_page(
                hits(self@, part@, after_id),
                old(dest).len() as nat,
            ),
            rest_kept(old(dest)@, final(dest)@, count as int),
    {
        proof {
            use_type_invariant(self);
        }
        let wanted_part = chars_of(part);
        let ghost pred = |row: ValueRow| is_hit(row, part@, after_id);
        let n: usize = dest.len();
        let mut count: usize = 0;
        let mut i: usize = 0;
        while i < self.rows.len() && count < n
            invariant
                i <= self.rows.len(),
                count <= n,
                n == dest.len(),
                wanted_part@ == part@,
                pred == (|row: ValueRow| is_hit(row, part@, after_id)),
                self@.take(i as int).filter(pred).len() == count,
                row_texts(dest@).take(count as int) == self@.take(i as int).filter(pred),
                rest_kept(old(dest)@, dest@, count as int),
            decreases self.rows.len() - i,
        {
            proof {
                lemma_filter_take_step(self@, pred, i as int);
            }
            let id: i64 = self.rows[i].0;
            let mut hit: bool = false;
            if id > after_id {
                let text = chars_of(self.rows[i].1.as_str());
                hit = has_part(text.as_slice(), wanted_part.as_slice());
            }
            if hit {
                dest.set(count, (id, self.rows[i].1.clone()));
                count = count + 1;
            }
            i = i + 1;
        }
        proof {
            lemma_scan_gives_page(self@, pred, i as int, n as nat);
        }
        count
    }

    /// Writes into the beginning of `dest` the first rows, in ascending order
    /// of identity, that bear one of `ids`: as many as `dest` has room for.
    /// An identity that no row bears is passed over. Returns how many rows
    /// were written; the rest of `dest` stays as it was.
    pub fn get_bulk(&self, ids: &Vec<i64>, dest: &mut Vec<(i64, String)>) -> (count: usize)
        ensures
            interned(self@),
            count == first_page(wanted(self@, ids@), old(dest).len() as nat).len(),
            row_texts(final(dest)@).take(count as int) == first_page(
                wanted(self@, ids@),
                old(dest).len() as nat,
            ),
            rest_kept(old(dest)@, final(dest)@, count as int),
    {
        proof {
            use_type_invariant(self);
        }
        let ghost pred = |row: ValueRow| is_wanted(row, ids@);
        let n: usize = dest.len();
        let mut count: usize = 0;
        let mut i: usize = 0;
        while i < self.rows.len() && count < n
            invariant
                i <= self.rows.len(),
                count <= n,
                n == dest.len(),
                pred == (|row: ValueRow| is_wanted(row, ids@)),
                self@.take(i as int).filter(pred).len() == count,
                row_texts(dest@).take(count as int) == self@.take(i as int).filter(pred),
                rest_kept(old(dest)@, dest@, count as int),
            decreases self.rows.len() - i,
        {
            proof {
                lemma_filter_take_step(self@, pred, i as int);
            }
            let id: i64 = self.rows[i].0;
            let hit: bool = among(ids, id);
            if hit {
                dest.set(count, (id, self.rows[i].1.clone()));
                count = count + 1;
            }
            i = i + 1;
        }
        proof {
            lemma_scan_gives_page(self@, pred, i as int, n as nat);
        }
        count
    }
}

/// Whether `id` is one of `ids`.
pub fn among(ids: &Vec<i64>, id: i64) -> (found: bool)
    ensures
        found == ids@.contains(id),
{
    let mut k: usize = 0;
    while k < ids.len()
        invariant
            k <= ids.len(),
            forall|j: int| 0 <= j < k ==> ids@[j] != id,
        decreases ids.len() - k,
    {
        if ids[k] == id {
            return true;
        }
        k = k + 1;
    }
    false
}

} // verus!
