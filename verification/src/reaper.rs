//! The session reapers: workers that evict the least recently seen sessions
//! while the registry holds more than a limit.
//!
//! A reaper is driven by its caller. The caller hands in an event, performs
//! the action that comes back, and hands in the event that the action leads
//! to: after `Stop` nothing; after `Measure` the size read; after `Sleep` and
//! after `Evict` a new `Wake`; after `Select` the tokens read.

use vstd::prelude::*;
use vstd::string::*;
use crate::command::{plan_view, Command, CommandView, Query, QueryView};
use crate::keys::{cart_key, cart_key_of, history_key, history_key_of, login_key, recent_key};

verus! {

/// The most sessions that one pass evicts.
pub const BATCH_LIMIT: i64 = 100;

/// How long an idle reaper sleeps before it looks again, in milliseconds.
pub const IDLE_MILLIS: u64 = 1000;

/// What a reaper is told.
#[derive(Debug, Clone)]
pub enum ReaperEvent {
    /// A pass begins; `cancelled` is the cancellation signal as read now.
    Wake { cancelled: bool },
    /// The registry holds this many sessions.
    Size(i64),
    /// These are the tokens selected for eviction, least recently seen first.
    Batch(Vec<String>),
}

/// What a reaper asks its caller to do.
#[derive(Debug, Clone)]
pub enum ReaperAction {
    /// End the worker.
    Stop,
    /// Read the size of the registry.
    Measure(Query),
    /// Sleep, then begin a new pass.
    Sleep { millis: u64 },
    /// Read the tokens to evict.
    Select(Query),
    /// Perform the writes in order, then begin a new pass at once.
    Evict(Vec<Command>),
}

/// What a [`ReaperAction`] says, over mathematical strings.
pub enum ReaperActionView {
    Stop,
    Measure(QueryView),
    Sleep { millis: nat },
    Select(QueryView),
    Evict(Seq<CommandView>),
}

impl View for ReaperAction {
    type V = ReaperActionView;

    open spec fn view(&self) -> ReaperActionView {
        match *self {
            ReaperAction::Stop => ReaperActionView::Stop,
            ReaperAction::Measure(query) => ReaperActionView::Measure(query@),
            ReaperAction::Sleep { millis } => ReaperActionView::Sleep { millis: millis as nat },
            ReaperAction::Select(query) => ReaperActionView::Select(query@),
            ReaperAction::Evict(plan) => ReaperActionView::Evict(plan_view(plan@)),
        }
    }
}

/// What a [`ReaperEvent`] says, over mathematical strings.
pub enum ReaperEventView {
    Wake { cancelled: bool },
    Size(int),
    Batch(Seq<Seq<char>>),
}

impl View for ReaperEvent {
    type V = ReaperEventView;

    open spec fn view(&self) -> ReaperEventView {
        match *self {
            ReaperEvent::Wake { cancelled } => ReaperEventView::Wake { cancelled },
            ReaperEvent::Size(size) => ReaperEventView::Size(size as int),
            ReaperEvent::Batch(tokens) => ReaperEventView::Batch(tokens.deep_view()),
        }
    }
}

/// How many sessions one pass evicts from a registry of `size` sessions that
/// is over `limit`: the excess, but no more than `BATCH_LIMIT`.
pub open spec fn batch_size(size: int, limit: int) -> int {
    if size - limit < BATCH_LIMIT {
        size - limit
    } else {
        BATCH_LIMIT as int
    }
}

/// The keys that hold what belongs to the sessions `tokens`: for each token its
/// view history and, for the full reaper, its cart after it.
pub open spec fn owned_keys(tokens: Seq<Seq<char>>, full: bool) -> Seq<Seq<char>>
    decreases tokens.len(),
{
    if tokens.len() == 0 {
        Seq::empty()
    } else if full {
        owned_keys(tokens.drop_last(), full).push(history_key(tokens.last())).push(
            cart_key(tokens.last()),
        )
    } else {
        owned_keys(tokens.drop_last(), full).push(history_key(tokens.last()))
    }
}

/// The writes that evict the sessions `tokens`: what belongs to them goes
/// first, then their bindings, then their places in the recency order.
pub open spec fn eviction_plan(tokens: Seq<Seq<char>>, full: bool) -> Seq<CommandView> {
    seq![
        CommandView::Delete { keys: owned_keys(tokens, full) },
        CommandView::HashDelete { key: login_key(), fields: tokens },
        CommandView::SortedRemove { key: recent_key(), members: tokens },
    ]
}

/// One step of a reaper with the given `limit`.
pub open spec fn reaper_step(limit: int, full: bool, event: ReaperEventView) -> ReaperActionView {
    match event {
        ReaperEventView::Wake { cancelled } => if cancelled {
            ReaperActionView::Stop
        } else {
            ReaperActionView::Measure(QueryView::SortedCount { key: recent_key() })
        },
        ReaperEventView::Size(size) => if size <= limit {
            ReaperActionView::Sleep { millis: IDLE_MILLIS as nat }
        } else {
            ReaperActionView::Select(
                QueryView::SortedRange {
                    key: recent_key(),
                    start: 0,
                    stop: batch_size(size, limit) - 1,
                },
            )
        },
        ReaperEventView::Batch(tokens) => ReaperActionView::Evict(eviction_plan(tokens, full)),
    }
}

/// Lists the keys that hold what belongs to the sessions `tokens`.
pub fn session_keys(tokens: &Vec<String>, full: bool) -> (keys: Vec<String>)
    ensures
        keys.deep_view() == owned_keys(tokens.deep_view(), full),
{
    let mut keys: Vec<String> = Vec::new();
    let mut i: usize = 0;
    assert(tokens.deep_view().take(0) =~= Seq::<Seq<char>>::empty());
    while i < tokens.len()
        invariant
            i <= tokens.len(),
            keys.deep_view() == owned_keys(tokens.deep_view().take(i as int), full),
        decreases tokens.len() - i,
    {
        let ghost before = keys.deep_view();
        let ghost prefix = tokens.deep_view().take(i as int + 1);
        assert(prefix.drop_last() =~= tokens.deep_view().take(i as int));
        assert(prefix.last() == tokens[i as int]@);
        keys.push(history_key_of(tokens[i].as_str()));
        if full {
            keys.push(cart_key_of(tokens[i].as_str()));
            assert(keys.deep_view() =~= before.push(history_key(tokens[i as int]@)).push(
                cart_key(tokens[i as int]@),
            ));
        } else {
            assert(keys.deep_view() =~= before.push(history_key(tokens[i as int]@)));
        }
        i += 1;
    }
    assert(tokens.deep_view().take(tokens.len() as int) =~= tokens.deep_view());
    keys
}

fn copy_of(tokens: &Vec<String>) -> (copy: Vec<String>)
    ensures
        copy.deep_view() == tokens.deep_view(),
{
    let mut copy: Vec<String> = Vec::new();
    let mut i: usize = 0;
    while i < tokens.len()
        invariant
            i <= tokens.len(),
            copy.deep_view() == tokens.deep_view().take(i as int),
        decreases tokens.len() - i,
    {
        let ghost before = copy.deep_view();
        copy.push(tokens[i].clone());
        assert(copy.deep_view() =~= before.push(tokens[i as int]@));
        assert(tokens.deep_view().take(i as int + 1) =~= before.push(tokens[i as int]@));
        i += 1;
    }
    assert(tokens.deep_view().take(tokens.len() as int) =~= tokens.deep_view());
    copy
}

/// Plans the eviction of the sessions `tokens`. A batch without tokens is
/// planned like any other: its removals name nothing, and a store that
/// refuses such a removal thereby ends the worker.
pub fn eviction_commands(tokens: Vec<String>, full: bool) -> (plan: Vec<Command>)
    ensures
        plan_view(plan@) == eviction_plan(tokens.deep_view(), full),
{
    let keys = session_keys(&tokens, full);
    let fields = copy_of(&tokens);
    let mut plan: Vec<Command> = Vec::new();
    plan.push(Command::Delete { keys });
    plan.push(Command::HashDelete { key: "login:".to_owned(), fields });
    plan.push(Command::SortedRemove { key: "recent:".to_owned(), members: tokens });
    assert(plan_view(plan@) =~= eviction_plan(tokens.deep_view(), full));
    plan
}

fn step(limit: i64, full: bool, event: ReaperEvent) -> (action: ReaperAction)
    ensures
        action@ == reaper_step(limit as int, full, event@),
{
    match event {
        ReaperEvent::Wake { cancelled } => {
            if cancelled {
                ReaperAction::Stop
            } else {
                ReaperAction::Measure(Query::SortedCount { key: "recent:".to_owned() })
            }
        },
        ReaperEvent::Size(size) => {
            if size <= limit {
                ReaperAction::Sleep { millis: IDLE_MILLIS }
            } else {
                let excess: i128 = size as i128 - limit as i128;
                let batch: i64 = if excess < BATCH_LIMIT as i128 {
                    excess as i64
                } else {
                    BATCH_LIMIT
                };
                ReaperAction::Select(
                    Query::SortedRange { key: "recent:".to_owned(), start: 0, stop: batch - 1 },
                )
            }
        },
        ReaperEvent::Batch(tokens) => ReaperAction::Evict(eviction_commands(tokens, full)),
    }
}

/// One step of the plain reaper: it evicts sessions and their view histories.
pub fn clean_sessions(limit: i64, event: ReaperEvent) -> (action: ReaperAction)
    ensures
        action@ == reaper_step(limit as int, false, event@),
        event matches ReaperEvent::Size(size) ==> (action matches ReaperAction::Select(
            Query::SortedRange { start, stop, .. },
        ) ==> start == 0 && 0 <= stop < BATCH_LIMIT),
{
    step(limit, false, event)
}

/// One step of the full reaper: it evicts sessions, their view histories and their carts.
pub fn clean_full_sessions(limit: i64, event: ReaperEvent) -> (action: ReaperAction)
    ensures
        action@ == reaper_step(limit as int, true, event@),
        event matches ReaperEvent::Size(size) ==> (action matches ReaperAction::Select(
            Query::SortedRange { start, stop, .. },
        ) ==> start == 0 && 0 <= stop < BATCH_LIMIT),
{
    step(limit, true, event)
}

} // verus!
