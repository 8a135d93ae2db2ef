//! The reapers on the store: how much a pass evicts, and that passes end.

use vstd::prelude::*;
use vstd::string::*;
use crate::command::{CommandView, QueryView};
use crate::keys::{cart_key, history_key, login_key, recent_key};
use crate::laws::plans::{lemma_apply_three, lemma_apply_well_formed};
use crate::laws::sessions::{bound_user, cart_line, history, in_step, registry};
use crate::model::{answer, apply, apply_all, ranked, ranking, Reply, Scores, Store};
use crate::order::{lemma_cut_lowest, lemma_ranked_lowest, lemma_ranking};
use crate::reaper::{
    batch_size, eviction_plan, owned_keys, reaper_step, ReaperActionView, ReaperEventView,
    BATCH_LIMIT,
};

verus! {

/// The tokens that a pass of a reaper with `limit` selects: none where the
/// registry is within the limit.
pub open spec fn selected(store: Store, limit: int, full: bool) -> Seq<Seq<char>> {
    match reaper_step(limit, full, ReaperEventView::Size(registry(store).dom().len() as int)) {
        ReaperActionView::Select(select) => match answer(store, select) {
            Reply::Members(tokens) => tokens,
            _ => Seq::empty(),
        },
        _ => Seq::empty(),
    }
}

/// The store after one pass of a reaper that was not cancelled: the size is
/// read, and where it is over the limit, a batch is selected and evicted.
pub open spec fn reap_pass(store: Store, limit: int, full: bool) -> Store {
    match reaper_step(limit, full, ReaperEventView::Size(registry(store).dom().len() as int)) {
        ReaperActionView::Select(_) => match reaper_step(
            limit,
            full,
            ReaperEventView::Batch(selected(store, limit, full)),
        ) {
            ReaperActionView::Evict(plan) => apply_all(store, plan),
            _ => store,
        },
        _ => store,
    }
}

/// The store after `passes` passes of a reaper.
pub open spec fn reap_passes(store: Store, limit: int, full: bool, passes: nat) -> Store
    decreases passes,
{
    if passes == 0 {
        store
    } else {
        reap_passes(reap_pass(store, limit, full), limit, full, (passes - 1) as nat)
    }
}

/// How many passes bring a registry of `size` sessions within `limit`.
pub open spec fn passes_needed(size: int, limit: int) -> nat
    decreases size - limit,
{
    if size <= limit {
        0
    } else {
        1 + passes_needed(size - batch_size(size, limit), limit)
    }
}

/// What belongs to a session is among the keys listed for eviction if the
/// session is, and the registry itself never is.
pub proof fn lemma_owned_keys(tokens: Seq<Seq<char>>, full: bool)
    ensures
        !owned_keys(tokens, full).contains(recent_key()),
        !owned_keys(tokens, full).contains(login_key()),
        forall|token: Seq<char>| #[trigger]
            tokens.contains(token) ==> owned_keys(tokens, full).contains(history_key(token)) && (full
                ==> owned_keys(tokens, full).contains(cart_key(token))),
    decreases tokens.len(),
{
    reveal_strlit("viewed:");
    reveal_strlit("recent:");
    reveal_strlit("cart:");
    reveal_strlit("login:");
    if tokens.len() > 0 {
        let front = tokens.drop_last();
        let last = tokens.last();
        lemma_owned_keys(front, full);
        let keys = owned_keys(tokens, full);
        assert(history_key(last)[0] == 'v');
        assert(cart_key(last)[0] == 'c');
        assert(recent_key()[0] == 'r');
        assert(login_key()[0] == 'l');
        if keys.contains(login_key()) {
            let i = choose|i: int| 0 <= i < keys.len() && keys[i] == login_key();
            if i < owned_keys(front, full).len() {
                assert(owned_keys(front, full)[i] == keys[i]);
                assert(owned_keys(front, full).contains(login_key()));
            }
            assert(false);
        }
        if keys.contains(recent_key()) {
            let i = choose|i: int| 0 <= i < keys.len() && keys[i] == recent_key();
            if i < owned_keys(front, full).len() {
                assert(owned_keys(front, full)[i] == keys[i]);
                assert(owned_keys(front, full).contains(recent_key()));
            }
            assert(false);
        }
        assert forall|token: Seq<char>| #[trigger] tokens.contains(token) implies keys.contains(
            history_key(token),
        ) && (full ==> keys.contains(cart_key(token))) by {
            let i = choose|i: int| 0 <= i < tokens.len() && tokens[i] == token;
            let before = owned_keys(front, full);
            if i < front.len() {
                assert(front[i] == token);
                assert(front.contains(token));
                let h = choose|h: int| 0 <= h < before.len() && before[h] == history_key(token);
                assert(keys[h] == history_key(token));
                if full {
                    let c = choose|c: int| 0 <= c < before.len() && before[c] == cart_key(token);
                    assert(keys[c] == cart_key(token));
                }
            } else {
                assert(token == last);
                assert(keys[before.len() as int] == history_key(token));
                if full {
                    assert(keys[before.len() as int + 1] == cart_key(token));
                }
            }
        }
    }
}

/// Evicting sessions takes their tokens out of the registry and leaves the
/// rest of it alone.
pub proof fn lemma_registry_after_eviction(store: Store, tokens: Seq<Seq<char>>, full: bool)
    ensures
        registry(apply_all(store, eviction_plan(tokens, full))) == registry(store).remove_keys(
            tokens.to_set(),
        ),
{
    let clear = CommandView::Delete { keys: owned_keys(tokens, full) };
    let unbind = CommandView::HashDelete { key: login_key(), fields: tokens };
    let forget = CommandView::SortedRemove { key: recent_key(), members: tokens };
    lemma_apply_three(store, clear, unbind, forget);
    lemma_owned_keys(tokens, full);
    assert(!owned_keys(tokens, full).to_set().contains(recent_key()));
    assert(registry(apply(store, clear)) == registry(store));
}

/// A pass of a reaper leaves a registry within the limit alone. From one
/// over the limit it evicts the excess, but no more than `BATCH_LIMIT`
/// sessions, and none that was seen later than one it leaves.
pub proof fn law_pass_bounded(store: Store, limit: int, full: bool)
    requires
        store.well_formed(),
        0 <= limit,
    ensures
        ({
            let size = registry(store).dom().len();
            let batch = selected(store, limit, full);
            let after = reap_pass(store, limit, full);
            &&& size <= limit ==> after == store
            &&& batch.len() <= BATCH_LIMIT
            &&& size > limit ==> batch.len() == batch_size(size as int, limit) && batch.len() >= 1
            &&& registry(after).dom().finite()
            &&& registry(after).dom().len() == size - batch.len()
            &&& registry(after).submap_of(registry(store))
            &&& forall|kept: Seq<char>, evicted: Seq<char>|
                #![trigger registry(after).contains_key(kept), batch.contains(evicted)]
                registry(after).contains_key(kept) && batch.contains(evicted) ==> registry(
                    store,
                )[evicted] <= registry(store)[kept]
        }),
{
    let size = registry(store).dom().len();
    lemma_ranking(registry(store));
    if size > limit {
        let count = batch_size(size as int, limit);
        lemma_ranked_lowest(registry(store), count);
        lemma_cut_lowest(registry(store), count);
        let batch = selected(store, limit, full);
        assert(batch == ranking(registry(store)).subrange(0, count));
        lemma_registry_after_eviction(store, batch, full);
    }
}

/// A pass of a reaper leaves every ordered set finite.
pub proof fn lemma_pass_well_formed(store: Store, limit: int, full: bool)
    requires
        store.well_formed(),
    ensures
        reap_pass(store, limit, full).well_formed(),
{
    let tokens = selected(store, limit, full);
    let clear = CommandView::Delete { keys: owned_keys(tokens, full) };
    let unbind = CommandView::HashDelete { key: login_key(), fields: tokens };
    let forget = CommandView::SortedRemove { key: recent_key(), members: tokens };
    lemma_apply_three(store, clear, unbind, forget);
    lemma_apply_well_formed(store, clear);
    lemma_apply_well_formed(apply(store, clear), unbind);
    lemma_apply_well_formed(apply(apply(store, clear), unbind), forget);
}

/// Passes of a reaper bring the registry within the limit, and
/// `passes_needed` says after how many at the latest.
pub proof fn law_passes_end(store: Store, limit: int, full: bool)
    requires
        store.well_formed(),
        0 <= limit,
    ensures
        registry(
            reap_passes(store, limit, full, passes_needed(registry(store).dom().len() as int, limit)),
        ).dom().len() <= limit,
    decreases registry(store).dom().len() - limit,
{
    let size = registry(store).dom().len();
    if size > limit {
        law_pass_bounded(store, limit, full);
        lemma_pass_well_formed(store, limit, full);
        law_passes_end(reap_pass(store, limit, full), limit, full);
    }
}

/// After sessions were evicted, none of them is bound to a user or has a view
/// history, and after the full reaper evicted them none has a cart.
pub proof fn law_evicted_gone(
    store: Store,
    tokens: Seq<Seq<char>>,
    full: bool,
    token: Seq<char>,
    item: Seq<char>,
)
    requires
        tokens.contains(token),
    ensures
        ({
            let after = apply_all(store, eviction_plan(tokens, full));
            &&& bound_user(after, token) == Reply::Text(None)
            &&& history(after, token) == Map::<Seq<char>, int>::empty()
            &&& full ==> cart_line(after, token, item) == Reply::Text(None)
            &&& !registry(after).contains_key(token)
        }),
{
    let clear = CommandView::Delete { keys: owned_keys(tokens, full) };
    let unbind = CommandView::HashDelete { key: login_key(), fields: tokens };
    let forget = CommandView::SortedRemove { key: recent_key(), members: tokens };
    lemma_apply_three(store, clear, unbind, forget);
    lemma_owned_keys(tokens, full);
    reveal_strlit("viewed:");
    reveal_strlit("recent:");
    reveal_strlit("cart:");
    reveal_strlit("login:");
    assert(history_key(token)[0] == 'v');
    assert(cart_key(token)[0] == 'c');
    assert(recent_key()[0] == 'r');
    assert(login_key()[0] == 'l');
    assert(tokens.to_set().contains(token));
    assert(owned_keys(tokens, full).to_set().contains(history_key(token)));
    if full {
        assert(owned_keys(tokens, full).to_set().contains(cart_key(token)));
    }
}

/// Evicting sessions keeps the registry and the bindings in step.
pub proof fn law_eviction_in_step(store: Store, tokens: Seq<Seq<char>>, full: bool)
    requires
        in_step(store),
    ensures
        in_step(apply_all(store, eviction_plan(tokens, full))),
{
    let clear = CommandView::Delete { keys: owned_keys(tokens, full) };
    let unbind = CommandView::HashDelete { key: login_key(), fields: tokens };
    let forget = CommandView::SortedRemove { key: recent_key(), members: tokens };
    lemma_apply_three(store, clear, unbind, forget);
    lemma_owned_keys(tokens, full);
    lemma_registry_after_eviction(store, tokens, full);
    let after = apply_all(store, eviction_plan(tokens, full));
    assert(!owned_keys(tokens, full).to_set().contains(login_key()));
    assert(apply(store, clear).fields(login_key()) == store.fields(login_key()));
    assert(after.fields(login_key()) == store.fields(login_key()).remove_keys(tokens.to_set()));
    assert forall|token: Seq<char>| #[trigger]
        registry(after).contains_key(token) <==> after.fields(login_key()).contains_key(token) by {
        assert(registry(store).contains_key(token) <==> store.fields(login_key()).contains_key(token));
    }
}

} // verus!
