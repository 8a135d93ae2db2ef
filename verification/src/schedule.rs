//! The refresh scheduler: rows are copied into the row cache when they fall
//! due, and fall due again one delay later; a delay of zero or less ends the
//! caching of a row.
//!
//! The worker is driven by its caller, as the reapers are. After `Stop` and
//! `Fail` the caller ends the worker. After `Peek` it reads the earliest
//! schedule entry and the clock and hands in `Next`. After `Sleep`,
//! `Unschedule` and `Store` it hands in a new `Wake`. After `ReadDelay` it
//! hands in `Delay` with the delay read and the `now` of the action. After
//! `Fetch` it fetches the row and hands in `Record` with the `due` of the action.

use std::collections::BTreeMap;
use vstd::prelude::*;
use vstd::string::*;
use crate::command::{plan_view, Command, CommandView, Query, QueryView};
use crate::inventory::{record_view, Record};
use crate::keys::{delay_key, row_key, row_key_of, schedule_key};

verus! {

/// How long the worker sleeps when no row is due, in milliseconds.
pub const POLL_MILLIS: u64 = 50;

/// The error with which `serde_json` refuses to write a value.
#[verifier::external_type_specification]
#[verifier::external_body]
pub struct ExJsonError(serde_json::Error);

/// The JSON text that `serde_json::to_string` writes for the map from names
/// to values that holds the given fields (of two fields with one name, the later).
pub uninterp spec fn json_text(fields: Seq<(Seq<char>, Seq<char>)>) -> Seq<char>;

/// Calls `serde_json::to_string` on the map from names to values that holds
/// the fields of `record`. Believed: where it succeeds, the text is the one
/// named [`json_text`]. Whether it succeeds is not claimed.
#[verifier::external_body]
fn record_json(record: &Record) -> (text: Result<String, serde_json::Error>)
    ensures
        text matches Ok(t) ==> t@ == json_text(record_view(record@)),
{
    let map: BTreeMap<&str, &str> = record.iter().map(|f| (f.0.as_str(), f.1.as_str())).collect();
    serde_json::to_string(&map)
}

/// The writes that schedule the row `row_id` for caching every `delay`,
/// starting at once: the delay is noted, and the row is due at `now`.
pub open spec fn schedule_plan(row_id: Seq<char>, delay: int, now: int) -> Seq<CommandView> {
    seq![
        CommandView::SortedAdd { key: delay_key(), member: row_id, score: delay },
        CommandView::SortedAdd { key: schedule_key(), member: row_id, score: now },
    ]
}

/// Plans the writes that schedule the row `row_id` for caching every `delay`
/// from `now` on. A row that is already scheduled is thereby due at once,
/// under the new delay; a delay of zero or less ends its caching.
pub fn schedule_row_cache(row_id: &str, delay: i64, now: i64) -> (plan: Vec<Command>)
    ensures
        plan_view(plan@) == schedule_plan(row_id@, delay as int, now as int),
{
    let mut plan: Vec<Command> = Vec::new();
    plan.push(Command::SortedAdd { key: "delay:".to_owned(), member: row_id.to_owned(), score: delay });
    plan.push(Command::SortedAdd { key: "schedule:".to_owned(), member: row_id.to_owned(), score: now });
    assert(plan_view(plan@) =~= schedule_plan(row_id@, delay as int, now as int));
    plan
}

/// What the refresh worker is told.
#[derive(Debug, Clone)]
pub enum RefreshEvent {
    /// A pass begins; `cancelled` is the cancellation signal as read now.
    Wake { cancelled: bool },
    /// The earliest schedule entry, a row and the time at which it is due, if
    /// the schedule has any; `now` is the clock as read after the entry.
    Next { entry: Option<(String, i64)>, now: i64 },
    /// The delay noted for the row.
    Delay { row_id: String, delay: i64, now: i64 },
    /// The row as its source gave it.
    Record { row_id: String, due: i64, record: Record },
}

/// What the refresh worker asks its caller to do.
#[derive(Debug)]
pub enum RefreshAction {
    /// End the worker.
    Stop,
    /// Read the earliest schedule entry and the clock.
    Peek(Query),
    /// Sleep, then begin a new pass.
    Sleep { millis: u64 },
    /// Read the delay noted for the row.
    ReadDelay { row_id: String, now: i64, query: Query },
    /// Perform the writes, which end the caching of a row, then begin a new pass at once.
    Unschedule(Vec<Command>),
    /// Fetch the row from its source.
    Fetch { row_id: String, due: i64 },
    /// Perform the writes, which store the row and its next due time, then begin a new pass at once.
    Store(Vec<Command>),
    /// End the worker: the row could not be written as JSON.
    Fail(serde_json::Error),
}

/// What a [`RefreshEvent`] says, over mathematical strings.
pub enum RefreshEventView {
    Wake { cancelled: bool },
    Next { entry: Option<(Seq<char>, int)>, now: int },
    Delay { row_id: Seq<char>, delay: int, now: int },
    Record { row_id: Seq<char>, due: int, record: Seq<(Seq<char>, Seq<char>)> },
}

impl View for RefreshEvent {
    type V = RefreshEventView;

    open spec fn view(&self) -> RefreshEventView {
        match *self {
            RefreshEvent::Wake { cancelled } => RefreshEventView::Wake { cancelled },
            RefreshEvent::Next { entry, now } => RefreshEventView::Next {
                entry: match entry {
                    Some(e) => Some((e.0@, e.1 as int)),
                    None => None,
                },
                now: now as int,
            },
            RefreshEvent::Delay { row_id, delay, now } => RefreshEventView::Delay {
                row_id: row_id@,
                delay: delay as int,
                now: now as int,
            },
            RefreshEvent::Record { row_id, due, record } => RefreshEventView::Record {
                row_id: row_id@,
                due: due as int,
                record: record_view(record@),
            },
        }
    }
}

/// What a [`RefreshAction`] says, over mathematical strings. Of a failure it
/// says only that it is one.
pub enum RefreshActionView {
    Stop,
    Peek(QueryView),
    Sleep { millis: nat },
    ReadDelay { row_id: Seq<char>, now: int, query: QueryView },
    Unschedule(Seq<CommandView>),
    Fetch { row_id: Seq<char>, due: int },
    Store(Seq<CommandView>),
    Fail,
}

impl View for RefreshAction {
    type V = RefreshActionView;

    open spec fn view(&self) -> RefreshActionView {
        match *self {
            RefreshAction::Stop => RefreshActionView::Stop,
            RefreshAction::Peek(query) => RefreshActionView::Peek(query@),
            RefreshAction::Sleep { millis } => RefreshActionView::Sleep { millis: millis as nat },
            RefreshAction::ReadDelay { row_id, now, query } => RefreshActionView::ReadDelay {
                row_id: row_id@,
                now: now as int,
                query: query@,
            },
            RefreshAction::Unschedule(plan) => RefreshActionView::Unschedule(plan_view(plan@)),
            RefreshAction::Fetch { row_id, due } => RefreshActionView::Fetch {
                row_id: row_id@,
                due: due as int,
            },
            RefreshAction::Store(plan) => RefreshActionView::Store(plan_view(plan@)),
            RefreshAction::Fail(_) => RefreshActionView::Fail,
        }
    }
}

/// The writes that end the caching of the row `row_id`: its delay, its
/// schedule entry and its cached copy go.
pub open spec fn unschedule_plan(row_id: Seq<char>) -> Seq<CommandView> {
    seq![
        CommandView::SortedRemove { key: delay_key(), members: seq![row_id] },
        CommandView::SortedRemove { key: schedule_key(), members: seq![row_id] },
        CommandView::Delete { keys: seq![row_key(row_id)] },
    ]
}

/// The writes that store the row `row_id`, written as `payload`, and make it due at `due`.
pub open spec fn store_plan(row_id: Seq<char>, due: int, payload: Seq<char>) -> Seq<CommandView> {
    seq![
        CommandView::SortedAdd { key: schedule_key(), member: row_id, score: due },
        CommandView::Put { key: row_key(row_id), value: payload },
    ]
}

/// One step of the refresh worker; `payload` is the row of a `Record` event
/// written as JSON, `None` where it could not be written.
pub open spec fn refresh_step(event: RefreshEventView, payload: Option<Seq<char>>) -> RefreshActionView {
    match event {
        RefreshEventView::Wake { cancelled } => if cancelled {
            RefreshActionView::Stop
        } else {
            RefreshActionView::Peek(
                QueryView::SortedRangeScored { key: schedule_key(), start: 0, stop: 0 },
            )
        },
        RefreshEventView::Next { entry, now } => match entry {
            Some((row_id, due)) => if due > now {
                RefreshActionView::Sleep { millis: POLL_MILLIS as nat }
            } else {
                RefreshActionView::ReadDelay {
                    row_id,
                    now,
                    query: QueryView::SortedScore { key: delay_key(), member: row_id },
                }
            },
            None => RefreshActionView::Sleep { millis: POLL_MILLIS as nat },
        },
        RefreshEventView::Delay { row_id, delay, now } => if delay <= 0 {
            RefreshActionView::Unschedule(unschedule_plan(row_id))
        } else {
            RefreshActionView::Fetch { row_id, due: now + delay }
        },
        RefreshEventView::Record { row_id, due, record } => match payload {
            Some(text) => RefreshActionView::Store(store_plan(row_id, due, text)),
            None => RefreshActionView::Fail,
        },
    }
}

/// The view of what writing a row as JSON gave.
pub open spec fn payload_view(written: Result<String, serde_json::Error>) -> Option<Seq<char>> {
    match written {
        Ok(text) => Some(text@),
        Err(_) => None,
    }
}

/// Plans the writes that end the caching of the row `row_id`.
pub fn unschedule_commands(row_id: String) -> (plan: Vec<Command>)
    ensures
        plan_view(plan@) == unschedule_plan(row_id@),
{
    let mut delays: Vec<String> = Vec::new();
    delays.push(row_id.clone());
    let mut keys: Vec<String> = Vec::new();
    keys.push(row_key_of(row_id.as_str()));
    let mut entries: Vec<String> = Vec::new();
    entries.push(row_id);
    assert(delays.deep_view() =~= seq![row_id@]);
    assert(entries.deep_view() =~= seq![row_id@]);
    assert(keys.deep_view() =~= seq![row_key(row_id@)]);
    let mut plan: Vec<Command> = Vec::new();
    plan.push(Command::SortedRemove { key: "delay:".to_owned(), members: delays });
    plan.push(Command::SortedRemove { key: "schedule:".to_owned(), members: entries });
    plan.push(Command::Delete { keys });
    assert(plan_view(plan@) =~= unschedule_plan(row_id@));
    plan
}

/// What follows the writing of a fetched row as JSON: the row is stored and
/// made due at `due` if it was written, and the worker fails if it was not.
pub fn store_row(row_id: String, due: i64, written: Result<String, serde_json::Error>) -> (action:
    RefreshAction)
    ensures
        action@ == match payload_view(written) {
            Some(text) => RefreshActionView::Store(store_plan(row_id@, due as int, text)),
            None => RefreshActionView::Fail,
        },
{
    match written {
        Ok(text) => {
            let key = row_key_of(row_id.as_str());
            let mut plan: Vec<Command> = Vec::new();
            plan.push(Command::SortedAdd { key: "schedule:".to_owned(), member: row_id, score: due });
            plan.push(Command::Put { key, value: text });
            assert(plan_view(plan@) =~= store_plan(row_id@, due as int, text@));
            RefreshAction::Store(plan)
        },
        Err(error) => RefreshAction::Fail(error),
    }
}

/// One step of the refresh worker.
///
/// The due time of a row whose delay is positive is `now + delay`, which has
/// to be a time that the clock can show.
pub fn cache_rows(event: RefreshEvent) -> (action: RefreshAction)
    requires
        event matches RefreshEvent::Delay { delay, now, .. } ==> now + delay <= i64::MAX,
    ensures
        event !is Record ==> action@ == refresh_step(event@, None),
        event matches RefreshEvent::Record { row_id, due, record } ==> action@ == refresh_step(
            event@,
            Some(json_text(record_view(record@))),
        ) || action@ == refresh_step(event@, None),
{
    match event {
        RefreshEvent::Wake { cancelled } => {
            if cancelled {
                RefreshAction::Stop
            } else {
                RefreshAction::Peek(
                    Query::SortedRangeScored { key: "schedule:".to_owned(), start: 0, stop: 0 },
                )
            }
        },
        RefreshEvent::Next { entry, now } => match entry {
            Some((row_id, due)) => {
                if due > now {
                    RefreshAction::Sleep { millis: POLL_MILLIS }
                } else {
                    let query = Query::SortedScore { key: "delay:".to_owned(), member: row_id.clone() };
                    RefreshAction::ReadDelay { row_id, now, query }
                }
            },
            None => RefreshAction::Sleep { millis: POLL_MILLIS },
        },
        RefreshEvent::Delay { row_id, delay, now } => {
            if delay <= 0 {
                RefreshAction::Unschedule(unschedule_commands(row_id))
            } else {
                RefreshAction::Fetch { row_id, due: now + delay }
            }
        },
        RefreshEvent::Record { row_id, due, record } => {
            let written = record_json(&record);
            store_row(row_id, due, written)
        },
    }
}

} // verus!
