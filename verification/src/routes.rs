use crate::boxchecker::{
    annotate_verdict, annotated, one_logged, ActionId, ActivityId, BoxChecker, BoxCheckerError,
    BoxSearcher,
};
use crate::decimal::{i64_text, signed_text};
use crate::paging::first_page;
use crate::pair_relation::{is_within, window, PairRow};
use crate::sqlite_boxchecker::SqliteBoxes;
use crate::value_store::{hits, holds_id, is_hit, row_texts, text_of, ValueRow};
use vstd::prelude::*;

verus! {

/// A buffer of `n` rows for a page of names.
fn name_buffer(n: usize) -> (dest: Vec<(i64, String)>)
    ensures
        dest.len() == n,
{
    let mut dest: Vec<(i64, String)> = Vec::new();
    let mut i: usize = 0;
    while i < n
        invariant
            i <= n,
            dest.len() == i,
        decreases n - i,
    {
        dest.push((0, String::new()));
        i = i + 1;
    }
    dest
}

/// A buffer of `n` rows for a page of pairs.
fn pair_buffer(n: usize) -> (dest: Vec<(i64, i64)>)
    ensures
        dest.len() == n,
{
    let mut dest: Vec<(i64, i64)> = Vec::new();
    let mut i: usize = 0;
    while i < n
        invariant
            i <= n,
            dest.len() == i,
        decreases n - i,
    {
        dest.push((0, 0));
        i = i + 1;
    }
    dest
}

/// The actions behind the cursor `last_id`, whatever their names.
pub open spec fn actions_behind(boxer: &SqliteBoxes, last_id: usize) -> Seq<ValueRow> {
    if last_id > i64::MAX {
        Seq::empty()
    } else {
        hits(boxer@.actions, Seq::empty(), last_id as i64)
    }
}

/// A page of at most `max_results` actions, in ascending order of identity,
/// whose identity is greater than `last_id`.
pub fn get_actions(
    boxer: &SqliteBoxes,
    max_results: usize,
    last_id: usize,
) -> (r: Option<Vec<(ActionId, String)>>)
    ensures
        r matches Some(page) && row_texts(page@) == first_page(
            actions_behind(boxer, last_id),
            max_results as nat,
        ),
{
    if last_id as u64 > i64::MAX as u64 {
        let page: Vec<(ActionId, String)> = Vec::new();
        return Some(page);
    }
    let held = boxer.action_count();
    let room = if max_results < held {
        max_results
    } else {
        held
    };
    let mut dest = name_buffer(room);
    let count = boxer.search_action_names("", last_id as i64, &mut dest);
    proof {
        reveal_strlit("");
        assert(""@ =~= Seq::<char>::empty());
        boxer@.actions.lemma_filter_len(|row: ValueRow| is_hit(row, ""@, last_id as i64));
    }
    dest.truncate(count);
    Some(dest)
}

/// The name of an action; nothing where the action is unknown or its name is
/// empty.
pub fn get_action_name(boxer: &SqliteBoxes, action_id: ActionId) -> (r: Option<String>)
    ensures
        match r {
            Some(name) => holds_id(boxer@.actions, action_id) && name@ == text_of(
                boxer@.actions,
                action_id,
            ) && name@.len() > 0,
            None => !holds_id(boxer@.actions, action_id) || text_of(
                boxer@.actions,
                action_id,
            ).len() == 0,
        },
{
    match boxer.get_action_name(action_id) {
        Ok(name) => {
            if name.as_str().is_empty() {
                None
            } else {
                Some(name)
            }
        },
        Err(_) => None,
    }
}

/// A page of at most `max_results` activities, in ascending order of time,
/// that were logged at `start` or later and before `end`.
pub fn get_activities(
    boxer: &SqliteBoxes,
    start: usize,
    end: usize,
    max_results: usize,
) -> (r: Option<Vec<(ActivityId, ActionId)>>)
    ensures
        r matches Some(page) && page@ == first_page(
            window(boxer@.activities, start as int, end as int),
            max_results as nat,
        ),
{
    let held = boxer.activity_count();
    let room = if max_results < held {
        max_results
    } else {
        held
    };
    let mut dest = pair_buffer(room);
    let count = boxer.search_activity_by_time(start, end, &mut dest);
    proof {
        boxer@.activities.lemma_filter_len(|row: PairRow| is_within(row, start as int, end as int));
    }
    dest.truncate(count);
    Some(dest)
}

/// The body of the reply to a request that makes a row: the identity in
/// decimal, or nothing where the request failed.
pub fn reply_with_id(made: Result<i64, BoxCheckerError>) -> (r: Option<String>)
    ensures
        match made {
            Ok(id) => r matches Some(body) && body@ == signed_text(id as int),
            Err(_) => r is None,
        },
{
    match made {
        Ok(id) => Some(i64_text(id)),
        Err(_) => None,
    }
}

/// Logs `action_id` under the present reading of the system clock, and
/// replies with the identity of the activity.
pub fn log_activity(boxer: &mut SqliteBoxes, action_id: ActionId) -> (r: Option<String>)
    ensures
        old(boxer)@.activities.len() < usize::MAX ==> (exists|time: i64|
            {
                &&& time >= 0
                &&& r matches Some(body) && body@ == signed_text(time as int)
                &&& #[trigger] one_logged(old(boxer)@, final(boxer)@, action_id, time)
            }),
        old(boxer)@.activities.len() >= usize::MAX ==> r is None && final(boxer)@ == old(boxer)@,
{
    reply_with_id(boxer.log_activity(action_id))
}

/// Attaches the note `notes` to `activity_id`, and replies with the identity
/// of the note.
pub fn notate_activity(
    boxer: &mut SqliteBoxes,
    activity_id: ActivityId,
    notes: &str,
) -> (r: Option<String>)
    ensures
        final(boxer)@ == annotated(old(boxer)@, activity_id, notes@),
        match annotate_verdict(old(boxer)@, notes@) {
            Ok(note) => r matches Some(body) && body@ == signed_text(note as int),
            Err(_) => r is None,
        },
{
    reply_with_id(boxer.annotate_activity(activity_id, notes))
}

} // verus!
