use crate::boxchecker::{
    batch_logged, lemma_logged_len, logged, ActionId, ActivityId, AnnotationId, BoxChecker,
    BoxCheckerError, BoxMaker, BoxSearcher, Boxes, Ledger, StoreFailure,
};
use crate::clock::{clamp_millis, epoch_millis};
use crate::pair_relation::{rows_after_insert, PairRelation};
use crate::value_store::{can_follow, interned, ValueStore};
use vstd::prelude::*;

verus! {

/// The activity log of one identity: actions, their hierarchy, the
/// activities logged and the notes attached to them.
pub struct SqliteBoxes {
    path: String,
    action_hierarchy: PairRelation,
    actions: ValueStore,
    activities: PairRelation,
    notations: PairRelation,
    notes: ValueStore,
}

impl View for SqliteBoxes {
    type V = Ledger;

    closed spec fn view(&self) -> Ledger {
        Ledger {
            action_hierarchy: self.action_hierarchy@,
            actions: self.actions@,
            activities: self.activities@,
            notations: self.notations@,
            notes: self.notes@,
        }
    }
}

/// The present reading of the system clock, in milliseconds since the epoch.
pub fn get_time() -> (time: i64)
    ensures
        time >= 0,
{
    clamp_millis(epoch_millis())
}

impl SqliteBoxes {
    /// The name of the backing store that the ledger belongs to.
    pub closed spec fn store_name(self) -> Seq<char> {
        self.path@
    }

    /// An empty ledger for the backing store at `path`.
    pub fn new(path: &str) -> (boxes: Self)
        ensures
            boxes@ == (Ledger {
                action_hierarchy: Seq::empty(),
                actions: Seq::empty(),
                activities: Seq::empty(),
                notations: Seq::empty(),
                notes: Seq::empty(),
            }),
            boxes@.well_formed(),
            boxes.store_name() == path@,
    {
        SqliteBoxes {
            path: String::from_str(path),
            action_hierarchy: PairRelation::new(),
            actions: ValueStore::new(),
            activities: PairRelation::new(),
            notations: PairRelation::new(),
            notes: ValueStore::new(),
        }
    }

    /// The name of the backing store that the ledger belongs to.
    pub fn path(&self) -> (path: &str)
        ensures
            path@ == self.store_name(),
    {
        self.path.as_str()
    }

    /// How many actions the ledger holds.
    pub fn action_count(&self) -> (n: usize)
        ensures
            n == self@.actions.len(),
    {
        self.actions.len()
    }

    /// How many activities the ledger holds.
    pub fn activity_count(&self) -> (n: usize)
        ensures
            n == self@.activities.len(),
    {
        self.activities.len()
    }

    /// Puts back an action that the backing store holds, under the identity
    /// that it has there. Actions come in ascending order of identity.
    pub fn restore_action(&mut self, id: ActionId, name: &str) -> (r: Result<(), BoxCheckerError>)
        ensures
            old(self)@.well_formed(),
            final(self)@.well_formed(),
            final(self).store_name() == old(self).store_name(),
            can_follow(old(self)@.actions, id, name@) ==> r is Ok && final(self)@ == (Ledger {
                actions: old(self)@.actions.push((id, name@)),
                ..old(self)@
            }),
            !can_follow(old(self)@.actions, id, name@) ==> (r matches Err(e) && e.is(
                StoreFailure::DuplicateKey,
            )) && final(self)@ == old(self)@,
    {
        self.tables_well_formed();
        let r = self.actions.put(id, name);
        self.tables_well_formed();
        r
    }

    /// Puts back a note that the backing store holds, under the identity that
    /// it has there. Notes come in ascending order of identity.
    pub fn restore_note(&mut self, id: AnnotationId, text: &str) -> (r: Result<(), BoxCheckerError>)
        ensures
            old(self)@.well_formed(),
            final(self)@.well_formed(),
            final(self).store_name() == old(self).store_name(),
            can_follow(old(self)@.notes, id, text@) ==> r is Ok && final(self)@ == (Ledger {
                notes: old(self)@.notes.push((id, text@)),
                ..old(self)@
            }),
            !can_follow(old(self)@.notes, id, text@) ==> (r matches Err(e) && e.is(
                StoreFailure::DuplicateKey,
            )) && final(self)@ == old(self)@,
    {
        self.tables_well_formed();
        let r = self.notes.put(id, text);
        self.tables_well_formed();
        r
    }

    /// Puts back a notation that the backing store holds: the note `note`
    /// attached to `activity`.
    pub fn restore_notation(
        &mut self,
        activity: ActivityId,
        note: AnnotationId,
    ) -> (r: Result<(), BoxCheckerError>)
        ensures
            old(self)@.well_formed(),
            final(self)@.well_formed(),
            final(self).store_name() == old(self).store_name(),
            old(self)@.notations.len() < usize::MAX ==> r is Ok && final(self)@ == (Ledger {
                notations: rows_after_insert(old(self)@.notations, activity, note),
                ..old(self)@
            }),
            old(self)@.notations.len() >= usize::MAX ==> (r matches Err(e) && e.is(
                StoreFailure::StorageUnavailable,
            )) && final(self)@ == old(self)@,
    {
        self.tables_well_formed();
        let r = self.notations.insert(activity, note);
        self.tables_well_formed();
        r
    }

    /// Logs every action of a batch, in order, under the moment `time`. Where
    /// the log cannot hold them all, those that still go in are logged and
    /// the call fails with `StorageUnavailable`.
    pub fn log_activities_at_time(
        &mut self,
        actions: &Vec<ActionId>,
        time: i64,
    ) -> (r: Result<ActivityId, BoxCheckerError>)
        ensures
            old(self)@.well_formed(),
            final(self)@.well_formed(),
            final(self).store_name() == old(self).store_name(),
            batch_logged(old(self)@, final(self)@, actions@, time),
            old(self)@.activities.len() + actions@.len() <= usize::MAX ==> (r matches Ok(id) && id
                == time),
            old(self)@.activities.len() + actions@.len() > usize::MAX ==> (r matches Err(e)
                && e.is(StoreFailure::StorageUnavailable)),
    {
        let ghost start = self@;
        let mut i: usize = 0;
        self.tables_well_formed();
        while i < actions.len()
            invariant
                i <= actions.len(),
                start == old(self)@,
                start.well_formed(),
                self@.well_formed(),
                self.store_name() == old(self).store_name(),
                start.activities.len() + i <= usize::MAX,
                self@ == (Ledger {
                    activities: logged(start.activities, time, actions@.take(i as int)),
                    ..start
                }),
            decreases actions.len() - i,
        {
            proof {
                lemma_logged_len(start.activities, time, actions@.take(i as int));
                assert(actions@.take(i + 1).drop_last() =~= actions@.take(i as int));
            }
            match self.activities.insert(time, actions[i]) {
                Ok(_) => {},
                Err(e) => {
                    return Err(e);
                },
            }
            i = i + 1;
            self.tables_well_formed();
        }
        Ok(time)
    }

    /// Every ledger is well formed: its tables keep what their kinds keep.
    /// Nothing is done when the program runs.
    fn tables_well_formed(&self)
        ensures
            self@.well_formed(),
            self@.activities.len() <= usize::MAX,
    {
        proof {
            use_type_invariant(&self.action_hierarchy);
            use_type_invariant(&self.actions);
            use_type_invariant(&self.activities);
            use_type_invariant(&self.notations);
            use_type_invariant(&self.notes);
        }
    }
}

impl Boxes for SqliteBoxes {
    open spec fn ledger(&self) -> Ledger {
        self@
    }
}

impl BoxMaker for SqliteBoxes {
    /// Interns the name of an action: hands out the identity that the name
    /// has already, or stores it under the next identity.
    fn create_action(&mut self, action_name: &str) -> (r: Result<ActionId, BoxCheckerError>)
        ensures
            final(self).store_name() == old(self).store_name(),
    {
        self.tables_well_formed();
        let r = self.actions.create(action_name);
        self.tables_well_formed();
        r
    }

    /// Records that `parent` has the child `child`.
    fn make_action_parent_of(
        &mut self,
        parent: ActionId,
        child: ActionId,
    ) -> (r: Result<(), BoxCheckerError>)
        ensures
            final(self).store_name() == old(self).store_name(),
    {
        self.tables_well_formed();
        let r = self.action_hierarchy.insert(parent, child);
        self.tables_well_formed();
        r
    }
}

impl BoxChecker for SqliteBoxes {
    /// Interns the note `text`, attaches it to `activity`, and hands out the
    /// note's identity. Where the note cannot be interned nothing changes;
    /// where it can and the notations cannot hold another row, the note
    /// stays interned and the call fails with `StorageUnavailable`.
    fn annotate_activity(
        &mut self,
        activity: ActivityId,
        text: &str,
    ) -> (r: Result<AnnotationId, BoxCheckerError>)
        ensures
            final(self).store_name() == old(self).store_name(),
    {
        self.tables_well_formed();
        let r = match self.notes.create(text) {
            Ok(note) => match self.notations.insert(activity, note) {
                Ok(_) => Ok(note),
                Err(e) => Err(e),
            },
            Err(e) => Err(e),
        };
        self.tables_well_formed();
        r
    }

    /// Logs every action of a batch, in order, under one reading of the
    /// system clock. Where the log cannot hold them all, those that still go
    /// in are logged and the call fails with `StorageUnavailable`.
    fn log_activities(
        &mut self,
        actions: &Vec<ActionId>,
    ) -> (r: Result<ActivityId, BoxCheckerError>)
        ensures
            final(self).store_name() == old(self).store_name(),
    {
        let time_millis = get_time();
        let r = self.log_activities_at_time(actions, time_millis);
        assert(batch_logged(old(self).ledger(), self.ledger(), actions@, time_millis));
        r
    }

    /// Logs an action under the present reading of the system clock.
    fn log_activity(&mut self, action: ActionId) -> (r: Result<ActivityId, BoxCheckerError>)
        ensures
            final(self).store_name() == old(self).store_name(),
    {
        let time_millis = get_time();
        self.log_activity_at_time(action, time_millis)
    }

    /// Logs an action under the moment `epoch_millis`, which is handed back
    /// as the identity of the activity.
    fn log_activity_at_time(
        &mut self,
        action: ActionId,
        epoch_millis: i64,
    ) -> (r: Result<ActivityId, BoxCheckerError>)
        ensures
            final(self).store_name() == old(self).store_name(),
    {
        self.tables_well_formed();
        let r = match self.activities.insert(epoch_millis, action) {
            Ok(_) => Ok(epoch_millis),
            Err(e) => Err(e),
        };
        self.tables_well_formed();
        r
    }
}

impl<'a> BoxSearcher<'a> for SqliteBoxes {
    /// The name of `action`, or `NotFound`.
    fn get_action_name(&self, action: ActionId) -> (r: Result<String, BoxCheckerError>)
    {
        self.tables_well_formed();
        self.actions.get(action)
    }

    /// Writes into the beginning of `dest` the first notes of `activity`
    /// whose identity is greater than `last_idx`, in the order in which they
    /// were attached: as many as `dest` has room for. Returns how many were
    /// written; the rest of `dest` stays as it was.
    fn get_notations(
        &self,
        activity: ActivityId,
        last_idx: AnnotationId,
        dest: &mut Vec<AnnotationId>,
    ) -> (count: usize)
    {
        self.tables_well_formed();
        self.notations.get_page(activity, last_idx, dest)
    }

    /// The text of the note `annotation`, or `NotFound`.
    fn get_note(&self, annotation: AnnotationId) -> (r: Result<String, BoxCheckerError>)
    {
        self.tables_well_formed();
        self.notes.get(annotation)
    }

    /// Writes into the beginning of `dest` the first notes, in ascending
    /// order of identity, that bear one of `ids`: as many as `dest` has room
    /// for. Returns how many were written; the rest of `dest` stays as it
    /// was.
    fn get_note_bulk(
        &self,
        ids: &Vec<AnnotationId>,
        dest: &mut Vec<(AnnotationId, String)>,
    ) -> (count: usize)
    {
        self.tables_well_formed();
        self.notes.get_bulk(ids, dest)
    }

    /// Writes into the beginning of `dest` the first actions, in ascending
    /// order of identity, whose identity is greater than `last_id` and whose
    /// name contains `substr`: as many as `dest` has room for. Returns how
    /// many were written; the rest of `dest` stays as it was.
    fn search_action_names(
        &self,
        substr: &str,
        last_id: ActionId,
        dest: &mut Vec<(ActionId, String)>,
    ) -> (count: usize)
    {
        self.tables_well_formed();
        self.actions.search_page(substr, last_id, dest)
    }

    /// Writes into the beginning of `dest` the first activities, in ascending
    /// order of time, that were logged at `from` or later and before `to`:
    /// as many as `dest` has room for. An interval that is empty or inverted
    /// gives none. Returns how many were written; the rest of `dest` stays as
    /// it was.
    fn search_activity_by_time(
        &self,
        from: usize,
        to: usize,
        dest: &mut Vec<(ActivityId, ActionId)>,
    ) -> (count: usize)
    {
        self.tables_well_formed();
        self.activities.page_within(from as i128, to as i128, dest)
    }
}

} // verus!
