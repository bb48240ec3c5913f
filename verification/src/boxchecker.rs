use crate::paging::{first_page, rest_kept};
use crate::pair_relation::{
    later_rows, lemma_insert_comes_last, lemma_slot_in_range, rows_after_insert, sorted_by_key,
    values_of, window, PairRow,
};
use crate::value_store::{
    create_verdict, hits, holds_id, interned, lemma_get_created, row_texts, rows_after_create,
    text_of, wanted, ValueRow,
};
use vstd::prelude::*;

verus! {

/// The identity of an action: positive, 0 stands for none.
pub type ActionId = i64;

/// The identity of an activity: the moment at which it was logged, in
/// milliseconds since the epoch.
pub type ActivityId = i64;

/// The identity of a note: positive, 0 stands for none.
pub type AnnotationId = i64;

/// The ways in which a store can fail.
#[derive(Clone, Copy, Debug, PartialEq, Eq, Structural)]
pub enum StoreFailure {
    /// No row bears the identity that was asked for.
    NotFound,
    /// Two rows that were handed in share an identity or a text.
    DuplicateKey,
    /// The store cannot take another row.
    StorageUnavailable,
}

/// A failure of a store, with a message for whoever reads the log.
#[derive(Debug)]
pub struct BoxCheckerError {
    pub kind: StoreFailure,
    pub msg: String,
}

/// The message that goes with a failure of `kind`.
pub open spec fn store_failure_text(kind: StoreFailure) -> Seq<char> {
    match kind {
        StoreFailure::NotFound => "not found"@,
        StoreFailure::DuplicateKey => "duplicate key"@,
        StoreFailure::StorageUnavailable => "storage unavailable"@,
    }
}

impl BoxCheckerError {
    /// Whether this is the failure of `kind`.
    pub open spec fn is(self, kind: StoreFailure) -> bool {
        self.kind == kind && self.msg@ == store_failure_text(kind)
    }

    /// The failure of `kind`.
    pub fn new(kind: StoreFailure) -> (e: BoxCheckerError)
        ensures
            e.is(kind),
    {
        let msg = match kind {
            StoreFailure::NotFound => String::from_str("not found"),
            StoreFailure::DuplicateKey => String::from_str("duplicate key"),
            StoreFailure::StorageUnavailable => String::from_str("storage unavailable"),
        };
        BoxCheckerError { kind, msg }
    }
}

/// What a ledger holds: two interning tables and three relations.
pub struct Ledger {
    /// Parent action, child action.
    pub action_hierarchy: Seq<PairRow>,
    /// The names of the actions.
    pub actions: Seq<ValueRow>,
    /// Moment in milliseconds since the epoch, action.
    pub activities: Seq<PairRow>,
    /// Activity, note.
    pub notations: Seq<PairRow>,
    /// The texts of the notes.
    pub notes: Seq<ValueRow>,
}

impl Ledger {
    /// Whether every table is in the state that its kind keeps.
    pub open spec fn well_formed(self) -> bool {
        &&& sorted_by_key(self.action_hierarchy)
        &&& interned(self.actions)
        &&& sorted_by_key(self.activities)
        &&& sorted_by_key(self.notations)
        &&& interned(self.notes)
    }
}

/// The activities after the actions of a batch have been logged, one after
/// the other, under the moment `time`.
pub open spec fn logged(rows: Seq<PairRow>, time: i64, actions: Seq<i64>) -> Seq<PairRow>
    decreases actions.len(),
{
    if actions.len() == 0 {
        rows
    } else {
        rows_after_insert(logged(rows, time, actions.drop_last()), time, actions.last())
    }
}

/// How many actions of a batch of `wanted` still go into a relation of `held`
/// rows.
pub open spec fn room_for(held: nat, wanted: nat) -> nat {
    if held + wanted <= usize::MAX {
        wanted
    } else {
        (usize::MAX - held) as nat
    }
}

/// Whether `after` is `before` with as much of a batch logged under the
/// moment `time` as the log still holds.
pub open spec fn batch_logged(before: Ledger, after: Ledger, actions: Seq<i64>, time: i64) -> bool {
    after == (Ledger {
        activities: logged(
            before.activities,
            time,
            actions.take(room_for(before.activities.len(), actions.len()) as int),
        ),
        ..before
    })
}

/// Whether `after` is `before` with `action` logged under the moment `time`.
pub open spec fn one_logged(before: Ledger, after: Ledger, action: i64, time: i64) -> bool {
    after == (Ledger {
        activities: rows_after_insert(before.activities, time, action),
        ..before
    })
}

/// What attaching the note `text` comes to: the identity of the note, or the
/// failure of the table that could not take its row.
pub open spec fn annotate_verdict(before: Ledger, text: Seq<char>) -> Result<i64, StoreFailure> {
    match create_verdict(before.notes, text) {
        Err(kind) => Err(kind),
        Ok(note) => if before.notations.len() < usize::MAX {
            Ok(note)
        } else {
            Err(StoreFailure::StorageUnavailable)
        },
    }
}

/// The ledger after the note `text` has been attached to `activity`. Where
/// the note cannot be interned nothing changes; where it can and the
/// notations cannot hold another row, the note stays interned.
pub open spec fn annotated(before: Ledger, activity: i64, text: Seq<char>) -> Ledger {
    match create_verdict(before.notes, text) {
        Err(_) => before,
        Ok(note) => Ledger {
            notes: rows_after_create(before.notes, text),
            notations: if before.notations.len() < usize::MAX {
                rows_after_insert(before.notations, activity, note)
            } else {
                before.notations
            },
            ..before
        },
    }
}

/// Logging a batch adds one row for each action.
pub proof fn lemma_logged_len(rows: Seq<PairRow>, time: i64, actions: Seq<i64>)
    ensures
        logged(rows, time, actions).len() == rows.len() + actions.len(),
    decreases actions.len(),
{
    if actions.len() > 0 {
        lemma_logged_len(rows, time, actions.drop_last());
        lemma_slot_in_range(logged(rows, time, actions.drop_last()), time);
    }
}

/// A note that is attached to an activity comes last among the notes of the
/// activity, and its text is the text that was attached: on an activity that
/// had no note, it is the one note that a search from the cursor 0 finds.
pub proof fn lemma_annotation_is_found(before: Ledger, activity: i64, text: Seq<char>)
    requires
        before.well_formed(),
        annotate_verdict(before, text) is Ok,
    ensures
        ({
            let note = annotate_verdict(before, text)->Ok_0;
            let after = annotated(before, activity, text);
            &&& note >= 1
            &&& holds_id(after.notes, note)
            &&& text_of(after.notes, note) == text
            &&& later_rows(after.notations, activity, 0) == later_rows(
                before.notations,
                activity,
                0,
            ).push((activity, note))
        }),
{
    let note = annotate_verdict(before, text)->Ok_0;
    lemma_get_created(before.notes, text);
    lemma_insert_comes_last(before.notations, activity, note, activity, 0);
}

/// What the three interfaces speak of: the ledger behind them.
pub trait Boxes {
    /// What the ledger holds.
    spec fn ledger(&self) -> Ledger;
}

/// Makes actions and orders them in a hierarchy.
pub trait BoxMaker: Boxes {
    /// Interns the name of an action: hands out the identity that the name
    /// has already, or stores it under the next identity. Fails with
    /// `StorageUnavailable`, and stores nothing, when the name is new and the
    /// identities are used up.
    fn create_action(&mut self, action_name: &str) -> (r: Result<ActionId, BoxCheckerError>)
        ensures
            old(self).ledger().well_formed(),
            final(self).ledger().well_formed(),
            final(self).ledger() == (Ledger {
                actions: rows_after_create(old(self).ledger().actions, action_name@),
                ..old(self).ledger()
            }),
            match create_verdict(old(self).ledger().actions, action_name@) {
                Ok(id) => r matches Ok(given) && given == id,
                Err(kind) => r matches Err(e) && e.is(kind),
            },
    ;

    /// Records that `parent` has the child `child`. Cycles are not looked
    /// for. Fails with `StorageUnavailable`, and records nothing, when the
    /// hierarchy cannot hold another row.
    fn make_action_parent_of(
        &mut self,
        parent: ActionId,
        child: ActionId,
    ) -> (r: Result<(), BoxCheckerError>)
        ensures
            old(self).ledger().well_formed(),
            final(self).ledger().well_formed(),
            old(self).ledger().action_hierarchy.len() < usize::MAX ==> r is Ok
                && final(self).ledger() == (Ledger {
                action_hierarchy: rows_after_insert(
                    old(self).ledger().action_hierarchy,
                    parent,
                    child,
                ),
                ..old(self).ledger()
            }),
            old(self).ledger().action_hierarchy.len() >= usize::MAX ==> (r matches Err(e) && e.is(
                StoreFailure::StorageUnavailable,
            )) && final(self).ledger() == old(self).ledger(),
    ;
}

/// Logs activities and annotates them.
pub trait BoxChecker: Boxes {
    /// Interns the note `text`, attaches it to `activity`, and hands out the
    /// note's identity. Where the note cannot be interned nothing changes;
    /// where it can and the notations cannot hold another row, the note
    /// stays interned and the call fails with `StorageUnavailable`.
    fn annotate_activity(
        &mut self,
        activity: ActivityId,
        text: &str,
    ) -> (r: Result<AnnotationId, BoxCheckerError>)
        ensures
            old(self).ledger().well_formed(),
            final(self).ledger().well_formed(),
            final(self).ledger() == annotated(old(self).ledger(), activity, text@),
            match annotate_verdict(old(self).ledger(), text@) {
                Ok(note) => r matches Ok(given) && given == note,
                Err(kind) => r matches Err(e) && e.is(kind),
            },
    ;

    /// Logs every action of a batch, in order, under one reading of the
    /// system clock, which is the identity of the activity. Where the log
    /// cannot hold them all, those that still go in are logged and the call
    /// fails with `StorageUnavailable`.
    fn log_activities(
        &mut self,
        actions: &Vec<ActionId>,
    ) -> (r: Result<ActivityId, BoxCheckerError>)
        ensures
            old(self).ledger().well_formed(),
            final(self).ledger().well_formed(),
            exists|time: i64|
                {
                    &&& time >= 0
                    &&& #[trigger] batch_logged(
                        old(self).ledger(),
                        final(self).ledger(),
                        actions@,
                        time,
                    )
                    &&& r matches Ok(id) ==> id == time
                },
            old(self).ledger().activities.len() + actions@.len() <= usize::MAX ==> r is Ok,
            old(self).ledger().activities.len() + actions@.len() > usize::MAX ==> (r matches Err(e)
                && e.is(StoreFailure::StorageUnavailable)),
    ;

    /// Logs an action under the present reading of the system clock, which
    /// is the identity of the activity. Fails with `StorageUnavailable`, and
    /// logs nothing, when the log cannot hold another row.
    fn log_activity(&mut self, action: ActionId) -> (r: Result<ActivityId, BoxCheckerError>)
        ensures
            old(self).ledger().well_formed(),
            final(self).ledger().well_formed(),
            old(self).ledger().activities.len() < usize::MAX ==> (exists|time: i64|
                {
                    &&& time >= 0
                    &&& r matches Ok(id) && id == time
                    &&& #[trigger] one_logged(
                        old(self).ledger(),
                        final(self).ledger(),
                        action,
                        time,
                    )
                }),
            old(self).ledger().activities.len() >= usize::MAX ==> (r matches Err(e) && e.is(
                StoreFailure::StorageUnavailable,
            )) && final(self).ledger() == old(self).ledger(),
    ;

    /// Logs an action under the moment `epoch_millis`, which is handed back
    /// as the identity of the activity. Fails with `StorageUnavailable`, and
    /// logs nothing, when the log cannot hold another row.
    fn log_activity_at_time(
        &mut self,
        action: ActionId,
        epoch_millis: i64,
    ) -> (r: Result<ActivityId, BoxCheckerError>)
        ensures
            old(self).ledger().well_formed(),
            final(self).ledger().well_formed(),
            old(self).ledger().activities.len() < usize::MAX ==> (r matches Ok(id) && id
                == epoch_millis) && one_logged(
                old(self).ledger(),
                final(self).ledger(),
                action,
                epoch_millis,
            ),
            old(self).ledger().activities.len() >= usize::MAX ==> (r matches Err(e) && e.is(
                StoreFailure::StorageUnavailable,
            )) && final(self).ledger() == old(self).ledger(),
    ;
}

/// Looks actions, activities and notes up.
pub trait BoxSearcher<'a>: Boxes {
    /// The name of `action`, or `NotFound`.
    fn get_action_name(&self, action: ActionId) -> (r: Result<String, BoxCheckerError>)
        ensures
            self.ledger().well_formed(),
            holds_id(self.ledger().actions, action) ==> (r matches Ok(name) && name@ == text_of(
                self.ledger().actions,
                action,
            )),
            !holds_id(self.ledger().actions, action) ==> (r matches Err(e) && e.is(
                StoreFailure::NotFound,
            )),
    ;

    /// Writes into the beginning of `dest` the first notes of `activity`
    /// whose identity is greater than `last_idx`, in the order in which they
    /// were attached: as many as `dest` has room for. Returns how many were
    /// written; the rest of `dest` stays as it was.
    fn get_notations(
        &self,
        activity: ActivityId,
        last_idx: AnnotationId,
        dest: &mut Vec<AnnotationId>,
    ) -> (count: usize)
        ensures
            self.ledger().well_formed(),
            count == first_page(
                later_rows(self.ledger().notations, activity, last_idx),
                old(dest).len() as nat,
            ).len(),
            final(dest)@.take(count as int) == values_of(
                first_page(
                    later_rows(self.ledger().notations, activity, last_idx),
                    old(dest).len() as nat,
                ),
            ),
            rest_kept(old(dest)@, final(dest)@, count as int),
            forall|k: int| 0 <= k < count ==> final(dest)@[k] > last_idx,
    ;

    /// The text of the note `annotation`, or `NotFound`.
    fn get_note(&self, annotation: AnnotationId) -> (r: Result<String, BoxCheckerError>)
        ensures
            self.ledger().well_formed(),
            holds_id(self.ledger().notes, annotation) ==> (r matches Ok(note) && note@ == text_of(
                self.ledger().notes,
                annotation,
            )),
            !holds_id(self.ledger().notes, annotation) ==> (r matches Err(e) && e.is(
                StoreFailure::NotFound,
            )),
    ;

    /// Writes into the beginning of `dest` the first notes, in ascending
    /// order of identity, that bear one of `ids`: as many as `dest` has room
    /// for. An identity that no note bears is passed over. Returns how many
    /// were written; the rest of `dest` stays as it was.
    fn get_note_bulk(
        &self,
        ids: &Vec<AnnotationId>,
        dest: &mut Vec<(AnnotationId, String)>,
    ) -> (count: usize)
        ensures
            self.ledger().well_formed(),
            count == first_page(wanted(self.ledger().notes, ids@), old(dest).len() as nat).len(),
            row_texts(final(dest)@).take(count as int) == first_page(
                wanted(self.ledger().notes, ids@),
                old(dest).len() as nat,
            ),
            rest_kept(old(dest)@, final(dest)@, count as int),
    ;

    /// Writes into the beginning of `dest` the first actions, in ascending
    /// order of identity, whose identity is greater than `last_idx` and whose
    /// name contains `substring`: as many as `dest` has room for. Returns how
    /// many were written; the rest of `dest` stays as it was.
    fn search_action_names(
        &self,
        substring: &str,
        last_idx: ActionId,
        dest: &mut Vec<(ActionId, String)>,
    ) -> (count: usize)
        ensures
            self.ledger().well_formed(),
            count == first_page(
                hits(self.ledger().actions, substring@, last_idx),
                old(dest).len() as nat,
            ).len(),
            row_texts(final(dest)@).take(count as int) == first_page(
                hits(self.ledger().actions, substring@, last_idx),
                old(dest).len() as nat,
            ),
            rest_kept(old(dest)@, final(dest)@, count as int),
    ;

    /// Writes into the beginning of `dest` the first activities, in ascending
    /// order of time, that were logged at `from` or later and before `to`:
    /// as many as `dest` has room for. An interval that is empty or inverted
    /// gives none. Returns how many were written; the rest of `dest` stays as
    /// it was.
    fn search_activity_by_time(
        &self,
        from: usize,
        to: usize,
        dest: &mut Vec<(ActivityId, ActionId)>,
    ) -> (count: usize)
        ensures
            self.ledger().well_formed(),
            count == first_page(
                window(self.ledger().activities, from as int, to as int),
                old(dest).len() as nat,
            ).len(),
            final(dest)@.take(count as int) == first_page(
                window(self.ledger().activities, from as int, to as int),
                old(dest).len() as nat,
            ),
            rest_kept(old(dest)@, final(dest)@, count as int),
            forall|k: int| 0 <= k < count ==> from <= (#[trigger] final(dest)@[k]).0 < to,
            from >= to ==> count == 0,
    ;
}

} // verus!
