//! The refresh worker on the store.

use vstd::prelude::*;
use vstd::string::*;
use crate::command::{CommandView, QueryView};
use crate::keys::{delay_key, row_key, schedule_key};
use crate::laws::plans::{lemma_apply_three, lemma_apply_two, lemma_apply_well_formed};
use crate::model::{
    answer, apply, apply_all, ranked, ranking, Entry, Reply, Scores, Store,
};
use crate::order::lemma_ranking;
use crate::schedule::{
    refresh_step, schedule_plan, store_plan, unschedule_plan, RefreshActionView, RefreshEventView,
};

verus! {

/// The schedule: the ordered set of rows by the time at which each is due.
pub open spec fn schedule(store: Store) -> Scores {
    store.scores(schedule_key())
}

/// The delays: the ordered set of rows by the delay between two refreshes.
pub open spec fn delays(store: Store) -> Scores {
    store.scores(delay_key())
}

/// The cached copy of a row, if the store has one.
pub open spec fn cached_row(store: Store, row_id: Seq<char>) -> Option<Seq<char>> {
    store.text(row_key(row_id))
}

/// The earliest entry of the schedule, as the store answers the worker's peek.
pub open spec fn earliest(store: Store) -> Option<(Seq<char>, int)> {
    match answer(store, QueryView::SortedRangeScored { key: schedule_key(), start: 0, stop: 0 }) {
        Reply::Scored(entries) => if entries.len() > 0 {
            Some(entries[0])
        } else {
            None
        },
        _ => None,
    }
}

/// The store after one pass of the refresh worker that was not cancelled and
/// read `now` from the clock; `payload` is what writing the fetched row as
/// JSON gives, should the pass fetch one. A pass that sleeps or fails leaves
/// the store as it was.
pub open spec fn refresh_pass(store: Store, now: int, payload: Option<Seq<char>>) -> Store {
    match refresh_step(RefreshEventView::Next { entry: earliest(store), now }, None) {
        RefreshActionView::ReadDelay { row_id, now, query } => match answer(store, query) {
            Reply::Score(Some(delay)) => match refresh_step(
                RefreshEventView::Delay { row_id, delay, now },
                None,
            ) {
                RefreshActionView::Unschedule(plan) => apply_all(store, plan),
                RefreshActionView::Fetch { row_id, due } => match refresh_step(
                    RefreshEventView::Record { row_id, due, record: Seq::empty() },
                    payload,
                ) {
                    RefreshActionView::Store(plan) => apply_all(store, plan),
                    _ => store,
                },
                _ => store,
            },
            _ => store,
        },
        _ => store,
    }
}

/// A row that is due no later than every other row of the schedule is its earliest entry.
pub proof fn lemma_earliest(store: Store, row_id: Seq<char>)
    requires
        store.well_formed(),
        schedule(store).contains_key(row_id),
        forall|other: Seq<char>|
            schedule(store).contains_key(other) && other != row_id ==> schedule(store)[other]
                > schedule(store)[row_id],
    ensures
        earliest(store) == Some((row_id, schedule(store)[row_id])),
{
    let scores = schedule(store);
    lemma_ranking(scores);
    let order = ranking(scores);
    assert(order.contains(row_id));
    let i = choose|i: int| 0 <= i < order.len() && order[i] == row_id;
    if i > 0 {
        assert(order.contains(order[0]));
        assert(scores[order[0]] <= scores[order[i]]);
        assert(false);
    }
    assert(ranked(scores, 0, 0) =~= seq![row_id]);
}

/// The keys of the schedule and of the delays differ, and two rows have one
/// cache key only if they are one row.
pub proof fn lemma_row_keys(a: Seq<char>, b: Seq<char>)
    ensures
        schedule_key() != delay_key(),
        row_key(a) == row_key(b) ==> a == b,
{
    reveal_strlit("schedule:");
    reveal_strlit("delay:");
    reveal_strlit("inv:");
    assert(schedule_key()[0] == 's');
    assert(delay_key()[0] == 'd');
    if row_key(a) == row_key(b) {
        assert(row_key(a).skip(4) =~= a);
        assert(row_key(b).skip(4) =~= b);
    }
}

/// After a row was scheduled with a delay of zero or less while no other row
/// was due, the next pass of the worker leaves no cached copy of it, no
/// schedule entry and no delay.
pub proof fn law_unscheduled_at_once(
    store: Store,
    row_id: Seq<char>,
    delay: int,
    now: int,
    later: int,
    payload: Option<Seq<char>>,
)
    requires
        store.well_formed(),
        delay <= 0,
        now <= later,
        forall|other: Seq<char>|
            schedule(store).contains_key(other) && other != row_id ==> schedule(store)[other] > now,
    ensures
        ({
            let scheduled = apply_all(store, schedule_plan(row_id, delay, now));
            let after = refresh_pass(scheduled, later, payload);
            &&& cached_row(after, row_id) is None
            &&& !schedule(after).contains_key(row_id)
            &&& !delays(after).contains_key(row_id)
        }),
{
    let scheduled = lemma_scheduled(store, row_id, delay, now);
    let plan = unschedule_plan(row_id);
    lemma_apply_three(scheduled, plan[0], plan[1], plan[2]);
    assert(plan =~= seq![plan[0], plan[1], plan[2]]);
    assert(seq![row_id].to_set().contains(row_id)) by {
        assert(seq![row_id][0] == row_id);
    }
    assert(seq![row_key(row_id)].to_set().contains(row_key(row_id))) by {
        assert(seq![row_key(row_id)][0] == row_key(row_id));
    }
}

/// Scheduling a row notes its delay and makes it due now; where no other row
/// is due by then, it is the earliest entry.
proof fn lemma_scheduled(store: Store, row_id: Seq<char>, delay: int, now: int) -> (scheduled: Store)
    requires
        store.well_formed(),
        forall|other: Seq<char>|
            schedule(store).contains_key(other) && other != row_id ==> schedule(store)[other] > now,
    ensures
        scheduled == apply_all(store, schedule_plan(row_id, delay, now)),
        scheduled.well_formed(),
        earliest(scheduled) == Some((row_id, now)),
        delays(scheduled) == delays(store).insert(row_id, delay),
        schedule(scheduled) == schedule(store).insert(row_id, now),
        scheduled.strings == store.strings,
        scheduled.clock == store.clock,
{
    let note = CommandView::SortedAdd { key: delay_key(), member: row_id, score: delay };
    let due = CommandView::SortedAdd { key: schedule_key(), member: row_id, score: now };
    lemma_apply_two(store, note, due);
    lemma_row_keys(row_id, row_id);
    let scheduled = apply(apply(store, note), due);
    lemma_apply_well_formed(store, note);
    lemma_apply_well_formed(apply(store, note), due);
    assert(schedule(apply(store, note)) == schedule(store));
    lemma_earliest(scheduled, row_id);
    scheduled
}

/// After a row was scheduled with a delay above zero while no other row was
/// due, the next pass of the worker stores the copy of the row, if it can
/// write it, and makes the row due one delay after the time of the pass.
pub proof fn law_refreshed_at_once(
    store: Store,
    row_id: Seq<char>,
    delay: int,
    now: int,
    later: int,
    payload: Seq<char>,
)
    requires
        store.well_formed(),
        delay > 0,
        now <= later,
        forall|other: Seq<char>|
            schedule(store).contains_key(other) && other != row_id ==> schedule(store)[other] > now,
    ensures
        ({
            let scheduled = apply_all(store, schedule_plan(row_id, delay, now));
            let after = refresh_pass(scheduled, later, Some(payload));
            &&& cached_row(after, row_id) == Some(payload)
            &&& schedule(after).contains_key(row_id)
            &&& schedule(after)[row_id] == later + delay
            &&& delays(after) == delays(scheduled)
        }),
{
    let scheduled = lemma_scheduled(store, row_id, delay, now);
    let plan = store_plan(row_id, later + delay, payload);
    lemma_apply_two(scheduled, plan[0], plan[1]);
    assert(plan =~= seq![plan[0], plan[1]]);
    lemma_row_keys(row_id, row_id);
}

/// What a pass of the worker does to the store. It takes the earliest entry
/// of the schedule if that is due and has a delay. Where the delay is zero or
/// less, the row loses its copy, its schedule entry and its delay. Where it
/// is more and the row was written, the copy is stored and the row is due one
/// delay from now. Nothing else changes.
pub proof fn lemma_pass(store: Store, now: int, payload: Option<Seq<char>>)
    requires
        store.well_formed(),
    ensures
        ({
            let after = refresh_pass(store, now, payload);
            match earliest(store) {
                Some((first, due)) => {
                    &&& schedule(store).contains_key(first)
                    &&& due == schedule(store)[first]
                    &&& forall|other: Seq<char>| #[trigger]
                        schedule(store).contains_key(other) ==> due <= schedule(store)[other]
                    &&& if due <= now && delays(store).contains_key(first) {
                        if delays(store)[first] <= 0 {
                            &&& after.strings == store.strings.remove(row_key(first))
                            &&& schedule(after) == schedule(store).remove(first)
                            &&& delays(after) == delays(store).remove(first)
                            &&& after.clock == store.clock
                        } else {
                            match payload {
                                Some(text) => {
                                    &&& after.strings == store.strings.insert(
                                        row_key(first),
                                        Entry { value: text, expires: None },
                                    )
                                    &&& schedule(after) == schedule(store).insert(
                                        first,
                                        now + delays(store)[first],
                                    )
                                    &&& delays(after) == delays(store)
                                    &&& after.clock == store.clock
                                },
                                None => after == store,
                            }
                        }
                    } else {
                        after == store
                    }
                },
                None => after == store && forall|other: Seq<char>| !schedule(store).contains_key(other),
            }
        }),
{
    let scores = schedule(store);
    lemma_ranking(scores);
    let order = ranking(scores);
    match earliest(store) {
        Some((first, due)) => {
            assert(ranked(scores, 0, 0).len() > 0);
            assert(first == order[0]);
            assert(order.contains(order[0]));
            assert forall|other: Seq<char>| #[trigger] scores.contains_key(other) implies due
                <= scores[other] by {
                assert(order.contains(other));
                let i = choose|i: int| 0 <= i < order.len() && order[i] == other;
                if i > 0 {
                    assert(scores[order[0]] <= scores[order[i]]);
                }
            }
            if due <= now && delays(store).contains_key(first) {
                let delay = delays(store)[first];
                lemma_row_keys(first, first);
                reveal_strlit("schedule:");
                reveal_strlit("delay:");
                reveal_strlit("inv:");
                assert(row_key(first)[0] == 'i');
                assert(schedule_key()[0] == 's');
                assert(delay_key()[0] == 'd');
                if delay <= 0 {
                    let plan = unschedule_plan(first);
                    lemma_apply_three(store, plan[0], plan[1], plan[2]);
                    assert(plan =~= seq![plan[0], plan[1], plan[2]]);
                    let after = refresh_pass(store, now, payload);
                    assert(seq![first].to_set() =~= set![first]) by {
                        assert(seq![first][0] == first);
                    }
                    assert(seq![row_key(first)].to_set() =~= set![row_key(first)]) by {
                        assert(seq![row_key(first)][0] == row_key(first));
                    }
                    assert(after.strings =~= store.strings.remove(row_key(first)));
                    assert(schedule(after) =~= schedule(store).remove(first));
                    assert(delays(after) =~= delays(store).remove(first));
                } else {
                    match payload {
                        Some(text) => {
                            let plan = store_plan(first, now + delay, text);
                            lemma_apply_two(store, plan[0], plan[1]);
                            assert(plan =~= seq![plan[0], plan[1]]);
                        },
                        None => {},
                    }
                }
            }
        },
        None => {
            assert forall|other: Seq<char>| !scores.contains_key(other) by {
                if scores.contains_key(other) {
                    assert(order.contains(other));
                    assert(ranked(scores, 0, 0) =~= order.subrange(0, 1));
                }
            }
        },
    }
}

/// A pass of the worker leaves the cached copy of a row as it is while the
/// row is scheduled and not yet due: a copy is not written again before one
/// delay has passed.
pub proof fn law_not_before_due(
    store: Store,
    row_id: Seq<char>,
    now: int,
    payload: Option<Seq<char>>,
)
    requires
        store.well_formed(),
        schedule(store).contains_key(row_id),
        schedule(store)[row_id] > now,
    ensures
        cached_row(refresh_pass(store, now, payload), row_id) == cached_row(store, row_id),
        schedule(refresh_pass(store, now, payload)).contains_key(row_id),
        schedule(refresh_pass(store, now, payload))[row_id] == schedule(store)[row_id],
{
    lemma_pass(store, now, payload);
    match earliest(store) {
        Some((first, due)) => {
            lemma_row_keys(first, row_id);
        },
        None => {},
    }
}

/// Every row that has a cached copy is scheduled, with a delay above zero.
pub open spec fn cached_rows_scheduled(store: Store) -> bool {
    forall|row_id: Seq<char>|
        (#[trigger] cached_row(store, row_id)) is Some ==> schedule(store).contains_key(row_id)
            && delays(store).contains_key(row_id) && delays(store)[row_id] > 0
}

/// A pass of the worker keeps every cached row scheduled with a delay above zero.
pub proof fn law_pass_keeps_scheduled(store: Store, now: int, payload: Option<Seq<char>>)
    requires
        store.well_formed(),
        cached_rows_scheduled(store),
    ensures
        cached_rows_scheduled(refresh_pass(store, now, payload)),
{
    lemma_pass(store, now, payload);
    let after = refresh_pass(store, now, payload);
    match earliest(store) {
        Some((first, due)) => {
            assert forall|row_id: Seq<char>| (#[trigger] cached_row(after, row_id)) is Some implies schedule(
                after,
            ).contains_key(row_id) && delays(after).contains_key(row_id) && delays(after)[row_id]
                > 0 by {
                lemma_row_keys(first, row_id);
                if row_id != first {
                    assert(cached_row(after, row_id) == cached_row(store, row_id));
                }
            }
        },
        None => {},
    }
}

/// A pass of the worker that finds nothing due leaves the store as it is.
pub proof fn law_idle_pass(store: Store, now: int, payload: Option<Seq<char>>)
    requires
        store.well_formed(),
        forall|row_id: Seq<char>| #[trigger]
            schedule(store).contains_key(row_id) ==> schedule(store)[row_id] > now,
    ensures
        refresh_pass(store, now, payload) == store,
{
    lemma_pass(store, now, payload);
}

/// Every scheduled row has a delay.
pub open spec fn all_delayed(store: Store) -> bool {
    forall|row_id: Seq<char>| #[trigger]
        schedule(store).contains_key(row_id) ==> delays(store).contains_key(row_id)
}

/// The rows ahead of `row_id` at the time `now`: the other rows that are due by then.
pub open spec fn ahead(store: Store, row_id: Seq<char>, now: int) -> Set<Seq<char>> {
    schedule(store).dom().filter(|other: Seq<char>| other != row_id && schedule(store)[other] <= now)
}

/// The store after passes of the worker, one after another without a sleep
/// between them; each pass has the time it reads from the clock and the JSON
/// text of the row that it fetches, should it fetch one.
pub open spec fn refresh_passes(store: Store, passes: Seq<(int, Seq<char>)>) -> Store
    decreases passes.len(),
{
    if passes.len() == 0 {
        store
    } else {
        refresh_passes(refresh_pass(store, passes[0].0, Some(passes[0].1)), passes.skip(1))
    }
}

/// A pass of the worker leaves every ordered set finite and every scheduled
/// row with a delay.
pub proof fn lemma_pass_valid(store: Store, now: int, payload: Option<Seq<char>>)
    requires
        store.well_formed(),
        all_delayed(store),
    ensures
        refresh_pass(store, now, payload).well_formed(),
        all_delayed(refresh_pass(store, now, payload)),
{
    lemma_pass(store, now, payload);
    let after = refresh_pass(store, now, payload);
    match earliest(store) {
        Some((first, due)) => {
            if due <= now && delays(store).contains_key(first) {
                let delay = delays(store)[first];
                if delay <= 0 {
                    let plan = unschedule_plan(first);
                    lemma_apply_three(store, plan[0], plan[1], plan[2]);
                    assert(plan =~= seq![plan[0], plan[1], plan[2]]);
                    lemma_apply_well_formed(store, plan[0]);
                    lemma_apply_well_formed(apply(store, plan[0]), plan[1]);
                    lemma_apply_well_formed(apply(apply(store, plan[0]), plan[1]), plan[2]);
                } else {
                    match payload {
                        Some(text) => {
                            let plan = store_plan(first, now + delay, text);
                            lemma_apply_two(store, plan[0], plan[1]);
                            assert(plan =~= seq![plan[0], plan[1]]);
                            lemma_apply_well_formed(store, plan[0]);
                            lemma_apply_well_formed(apply(store, plan[0]), plan[1]);
                        },
                        None => {},
                    }
                }
            }
            assert forall|row_id: Seq<char>| #[trigger]
                schedule(after).contains_key(row_id) implies delays(after).contains_key(row_id) by {
                assert(schedule(store).contains_key(row_id));
            }
        },
        None => {},
    }
}

/// A pass at or after `now` that does not take the row `row_id`, which is
/// due at `now`, takes a row ahead of it; that row is then no longer ahead,
/// and the row `row_id` is scheduled as before.
proof fn lemma_pass_ahead(store: Store, row_id: Seq<char>, now: int, time: int, text: Seq<char>)
    requires
        store.well_formed(),
        all_delayed(store),
        schedule(store).contains_key(row_id),
        schedule(store)[row_id] == now,
        now <= time,
        earliest(store) matches Some((first, _)) && first != row_id,
    ensures
        ({
            let after = refresh_pass(store, time, Some(text));
            &&& ahead(store, row_id, now).finite()
            &&& ahead(store, row_id, now).len() > 0
            &&& ahead(after, row_id, now).len() == ahead(store, row_id, now).len() - 1
            &&& schedule(after).contains_key(row_id)
            &&& schedule(after)[row_id] == now
            &&& delays(after)[row_id] == delays(store)[row_id]
            &&& cached_row(after, row_id) == cached_row(store, row_id)
        }),
{
    lemma_pass(store, time, Some(text));
    let after = refresh_pass(store, time, Some(text));
    let first = earliest(store).unwrap().0;
    let before = ahead(store, row_id, now);
    lemma_row_keys(first, row_id);
    schedule(store).dom().lemma_len_filter(
        |other: Seq<char>| other != row_id && schedule(store)[other] <= now,
    );
    assert(schedule(store)[first] <= schedule(store)[row_id]);
    assert(before.contains(first));
    assert(ahead(after, row_id, now) =~= before.remove(first));
}

/// The state in which passes find a row that was scheduled at `now` with
/// `delay` and not taken since.
spec fn waiting(store: Store, row_id: Seq<char>, delay: int, now: int) -> bool {
    &&& schedule(store).contains_key(row_id)
    &&& schedule(store)[row_id] == now
    &&& delays(store).contains_key(row_id)
    &&& delays(store)[row_id] == delay
}

/// A row without a cached copy, a schedule entry and a delay.
pub open spec fn uncached(store: Store, row_id: Seq<char>) -> bool {
    &&& cached_row(store, row_id) is None
    &&& !schedule(store).contains_key(row_id)
    &&& !delays(store).contains_key(row_id)
}

/// A row with a cached copy that is scheduled with `delay`, due no earlier than `due`.
pub open spec fn cached(store: Store, row_id: Seq<char>, delay: int, due: int) -> bool {
    &&& cached_row(store, row_id) is Some
    &&& schedule(store).contains_key(row_id)
    &&& schedule(store)[row_id] >= due
    &&& delays(store).contains_key(row_id)
    &&& delays(store)[row_id] == delay
}

proof fn lemma_unscheduled_after(
    store: Store,
    row_id: Seq<char>,
    delay: int,
    now: int,
    passes: Seq<(int, Seq<char>)>,
)
    requires
        store.well_formed(),
        all_delayed(store),
        delay <= 0,
        forall|i: int| 0 <= i < passes.len() ==> (#[trigger] passes[i]).0 >= now,
        uncached(store, row_id) || (waiting(store, row_id, delay, now) && passes.len() > ahead(
            store,
            row_id,
            now,
        ).len()),
    ensures
        uncached(refresh_passes(store, passes), row_id),
    decreases passes.len(),
{
    if passes.len() > 0 {
        let time = passes[0].0;
        let text = passes[0].1;
        let after = refresh_pass(store, time, Some(text));
        lemma_pass(store, time, Some(text));
        lemma_pass_valid(store, time, Some(text));
        assert forall|i: int| 0 <= i < passes.skip(1).len() implies (#[trigger] passes.skip(1)[i]).0
            >= now by {
            assert(passes.skip(1)[i] == passes[i + 1]);
        }
        if uncached(store, row_id) {
            match earliest(store) {
                Some((first, due)) => {
                    lemma_row_keys(first, row_id);
                },
                None => {},
            }
            assert(uncached(after, row_id));
        } else {
            let first = earliest(store).unwrap().0;
            if first == row_id {
                assert(uncached(after, row_id));
            } else {
                lemma_pass_ahead(store, row_id, now, time, text);
                assert(waiting(after, row_id, delay, now));
            }
        }
        lemma_unscheduled_after(after, row_id, delay, now, passes.skip(1));
    } else {
        if !uncached(store, row_id) {
            schedule(store).dom().lemma_len_filter(
                |other: Seq<char>| other != row_id && schedule(store)[other] <= now,
            );
        }
    }
}

proof fn lemma_refreshed_after(
    store: Store,
    row_id: Seq<char>,
    delay: int,
    now: int,
    passes: Seq<(int, Seq<char>)>,
)
    requires
        store.well_formed(),
        all_delayed(store),
        delay > 0,
        forall|i: int| 0 <= i < passes.len() ==> (#[trigger] passes[i]).0 >= now,
        cached(store, row_id, delay, now + delay) || (waiting(store, row_id, delay, now)
            && passes.len() > ahead(store, row_id, now).len()),
    ensures
        cached(refresh_passes(store, passes), row_id, delay, now + delay),
    decreases passes.len(),
{
    if passes.len() > 0 {
        let time = passes[0].0;
        let text = passes[0].1;
        let after = refresh_pass(store, time, Some(text));
        lemma_pass(store, time, Some(text));
        lemma_pass_valid(store, time, Some(text));
        assert forall|i: int| 0 <= i < passes.skip(1).len() implies (#[trigger] passes.skip(1)[i]).0
            >= now by {
            assert(passes.skip(1)[i] == passes[i + 1]);
        }
        if cached(store, row_id, delay, now + delay) {
            match earliest(store) {
                Some((first, due)) => {
                    lemma_row_keys(first, row_id);
                },
                None => {},
            }
            assert(cached(after, row_id, delay, now + delay));
        } else {
            let first = earliest(store).unwrap().0;
            if first == row_id {
                assert(cached(after, row_id, delay, now + delay));
            } else {
                lemma_pass_ahead(store, row_id, now, time, text);
                assert(waiting(after, row_id, delay, now));
            }
        }
        lemma_refreshed_after(after, row_id, delay, now, passes.skip(1));
    } else {
        if !cached(store, row_id, delay, now + delay) {
            schedule(store).dom().lemma_len_filter(
                |other: Seq<char>| other != row_id && schedule(store)[other] <= now,
            );
        }
    }
}

/// What scheduling a row does: the row is due now, with the delay given, and
/// the rows ahead of it are those that were.
proof fn lemma_scheduled_waiting(store: Store, row_id: Seq<char>, delay: int, now: int) -> (scheduled:
    Store)
    requires
        store.well_formed(),
        all_delayed(store),
    ensures
        scheduled == apply_all(store, schedule_plan(row_id, delay, now)),
        scheduled.well_formed(),
        all_delayed(scheduled),
        waiting(scheduled, row_id, delay, now),
        ahead(scheduled, row_id, now) == ahead(store, row_id, now),
{
    let note = CommandView::SortedAdd { key: delay_key(), member: row_id, score: delay };
    let due = CommandView::SortedAdd { key: schedule_key(), member: row_id, score: now };
    lemma_apply_two(store, note, due);
    lemma_row_keys(row_id, row_id);
    let scheduled = apply(apply(store, note), due);
    lemma_apply_well_formed(store, note);
    lemma_apply_well_formed(apply(store, note), due);
    assert(schedule(apply(store, note)) == schedule(store));
    assert(schedule(scheduled) == schedule(store).insert(row_id, now));
    assert(delays(scheduled) == delays(store).insert(row_id, delay));
    assert forall|other: Seq<char>| #[trigger]
        schedule(scheduled).contains_key(other) implies delays(scheduled).contains_key(other) by {
        if other != row_id {
            assert(schedule(store).contains_key(other));
        }
    }
    assert(ahead(scheduled, row_id, now) =~= ahead(store, row_id, now));
    scheduled
}

/// After a row was scheduled with a delay of zero or less, the worker takes
/// one row in each pass, without a sleep, until the row has no cached copy, no
/// schedule entry and no delay: this is so after one pass more than there were
/// rows ahead of it, and stays so. The passes are taken to read the clock no
/// earlier than the row was scheduled and to be able to write what they fetch.
pub proof fn law_unscheduled(
    store: Store,
    row_id: Seq<char>,
    delay: int,
    now: int,
    passes: Seq<(int, Seq<char>)>,
)
    requires
        store.well_formed(),
        all_delayed(store),
        delay <= 0,
        forall|i: int| 0 <= i < passes.len() ==> (#[trigger] passes[i]).0 >= now,
        passes.len() > ahead(store, row_id, now).len(),
    ensures
        uncached(refresh_passes(apply_all(store, schedule_plan(row_id, delay, now)), passes), row_id),
{
    let scheduled = lemma_scheduled_waiting(store, row_id, delay, now);
    lemma_unscheduled_after(scheduled, row_id, delay, now, passes);
}

/// After a row was scheduled with a delay above zero, the worker takes one
/// row in each pass, without a sleep, until the row has a cached copy and is
/// due no earlier than one delay after it was scheduled: this is so after one
/// pass more than there were rows ahead of it, and stays so. The passes are
/// taken to read the clock no earlier than the row was scheduled and to be
/// able to write what they fetch.
pub proof fn law_refreshed(
    store: Store,
    row_id: Seq<char>,
    delay: int,
    now: int,
    passes: Seq<(int, Seq<char>)>,
)
    requires
        store.well_formed(),
        all_delayed(store),
        delay > 0,
        forall|i: int| 0 <= i < passes.len() ==> (#[trigger] passes[i]).0 >= now,
        passes.len() > ahead(store, row_id, now).len(),
    ensures
        cached(
            refresh_passes(apply_all(store, schedule_plan(row_id, delay, now)), passes),
            row_id,
            delay,
            now + delay,
        ),
{
    let scheduled = lemma_scheduled_waiting(store, row_id, delay, now);
    lemma_refreshed_after(scheduled, row_id, delay, now, passes);
}

} // verus!
