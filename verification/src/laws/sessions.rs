//! Sessions, view histories and carts on the store.

use vstd::prelude::*;
use vstd::string::*;
use crate::command::{CommandView, QueryView};
use crate::keys::{cart_key, history_key, login_key, popularity_key, recent_key};
use crate::laws::plans::{lemma_apply_concat, lemma_apply_three, lemma_apply_two};
use crate::model::{answer, apply, apply_all, trimmed, Reply, Scores, Store};
use crate::order::lemma_keep_highest;
use crate::session::{add_to_cart_command, update_token_plan, HISTORY_LIMIT};
use crate::text::signed_decimal;

verus! {

/// The user that the store has for a token, as a reply to `check_token`.
pub open spec fn bound_user(store: Store, token: Seq<char>) -> Reply {
    answer(store, QueryView::HashGet { key: login_key(), field: token })
}

/// After a token was updated, looking it up gives the user it was updated with.
pub proof fn law_update_then_check(
    store: Store,
    token: Seq<char>,
    user: Seq<char>,
    item: Option<Seq<char>>,
    now: int,
)
    ensures
        bound_user(apply_all(store, update_token_plan(token, user, item, now)), token) == Reply::Text(
            Some(user),
        ),
{
    let bind = CommandView::HashSet { key: login_key(), field: token, value: user };
    let mark = CommandView::SortedAdd { key: recent_key(), member: token, score: now };
    lemma_apply_two(store, bind, mark);
    let seen = apply_all(store, seq![bind, mark]);
    assert(seen.hashes == apply(store, bind).hashes);
    match item {
        Some(viewed) => {
            let add = CommandView::SortedAdd { key: history_key(token), member: viewed, score: now };
            let trim = CommandView::SortedTrim {
                key: history_key(token),
                start: 0,
                stop: -(HISTORY_LIMIT + 1),
            };
            let count = CommandView::SortedIncrement { key: popularity_key(), member: viewed, delta: -1 };
            lemma_apply_concat(store, seq![bind, mark], seq![add, trim, count]);
            lemma_apply_three(seen, add, trim, count);
        },
        None => {},
    }
}

/// Whether a command writes the binding of `token`: it sets or removes the
/// token's entry in the login hash, or deletes the hash.
pub open spec fn writes_binding(command: CommandView, token: Seq<char>) -> bool {
    match command {
        CommandView::HashSet { key, field, .. } => key == login_key() && field == token,
        CommandView::HashDelete { key, fields } => key == login_key() && fields.contains(token),
        CommandView::Delete { keys } => keys.contains(login_key()),
        _ => false,
    }
}

/// The user bound to a token stays the same under every command that does
/// not write the token's binding.
pub proof fn law_binding_stays(store: Store, command: CommandView, token: Seq<char>)
    requires
        !writes_binding(command, token),
    ensures
        bound_user(apply(store, command), token) == bound_user(store, token),
{
}

/// The quantity that the store has for an item in a session's cart.
pub open spec fn cart_line(store: Store, session: Seq<char>, item: Seq<char>) -> Reply {
    answer(store, QueryView::HashGet { key: cart_key(session), field: item })
}

/// After an item was added to a cart with a quantity above zero the cart has
/// the item with that quantity; after it was added with zero or less the cart
/// does not have it.
pub proof fn law_cart_line(store: Store, session: Seq<char>, item: Seq<char>, count: int)
    ensures
        cart_line(apply(store, add_to_cart_command(session, item, count)), session, item) == Reply::Text(
            if count > 0 {
                Some(signed_decimal(count))
            } else {
                None
            },
        ),
{
    if count <= 0 {
        assert(seq![item].to_set().contains(item)) by {
            assert(seq![item][0] == item);
        }
    }
}

/// The view history of a session: the ordered set of the items it viewed.
pub open spec fn history(store: Store, token: Seq<char>) -> Scores {
    store.scores(history_key(token))
}

/// After a view was recorded for a session, its history holds no more than
/// `HISTORY_LIMIT` items: those that it held before together with the item
/// viewed now, cut down to the latest. No item that was dropped was viewed
/// later than one that was kept.
pub proof fn law_history_capped(
    store: Store,
    token: Seq<char>,
    user: Seq<char>,
    item: Seq<char>,
    now: int,
)
    requires
        store.well_formed(),
        token.len() > 0,
    ensures
        ({
            let after = apply_all(store, update_token_plan(token, user, Some(item), now));
            let viewed = history(store, token).insert(item, now);
            &&& history(after, token).dom().finite()
            &&& history(after, token).dom().len() <= HISTORY_LIMIT
            &&& history(after, token).dom().len() == if viewed.dom().len() <= HISTORY_LIMIT {
                viewed.dom().len()
            } else {
                HISTORY_LIMIT as nat
            }
            &&& history(after, token).submap_of(viewed)
            &&& forall|kept: Seq<char>, dropped: Seq<char>|
                #![trigger history(after, token).contains_key(kept), viewed.contains_key(dropped)]
                history(after, token).contains_key(kept) && viewed.contains_key(dropped) && !history(
                    after,
                    token,
                ).contains_key(dropped) ==> viewed[dropped] <= viewed[kept]
        }),
{
    let bind = CommandView::HashSet { key: login_key(), field: token, value: user };
    let mark = CommandView::SortedAdd { key: recent_key(), member: token, score: now };
    let add = CommandView::SortedAdd { key: history_key(token), member: item, score: now };
    let trim = CommandView::SortedTrim { key: history_key(token), start: 0, stop: -(HISTORY_LIMIT + 1) };
    let count = CommandView::SortedIncrement { key: popularity_key(), member: item, delta: -1 };
    lemma_apply_two(store, bind, mark);
    let seen = apply_all(store, seq![bind, mark]);
    lemma_apply_concat(store, seq![bind, mark], seq![add, trim, count]);
    lemma_apply_three(seen, add, trim, count);
    reveal_strlit("viewed:");
    reveal_strlit("recent:");
    assert(history_key(token) != recent_key()) by {
        assert(history_key(token)[0] == 'v');
        assert(recent_key()[0] == 'r');
    }
    assert(history_key(token) != popularity_key()) by {
        assert(history_key(token).len() == 7 + token.len());
    }
    let viewed = history(store, token).insert(item, now);
    assert(history(seen, token) == history(store, token));
    assert(history(apply(seen, add), token) == viewed);
    lemma_keep_highest(viewed, HISTORY_LIMIT as nat);
    let after = apply_all(store, update_token_plan(token, user, Some(item), now));
    assert(history(after, token) == trimmed(viewed, 0, -(HISTORY_LIMIT + 1)));
}

/// A request without a viewed item leaves every view history as it was.
pub proof fn law_history_untouched(
    store: Store,
    token: Seq<char>,
    user: Seq<char>,
    now: int,
    other: Seq<char>,
)
    ensures
        history(apply_all(store, update_token_plan(token, user, None, now)), other) == history(
            store,
            other,
        ),
{
    reveal_strlit("viewed:");
    reveal_strlit("recent:");
    assert(history_key(other) != recent_key()) by {
        assert(history_key(other)[0] == 'v');
        assert(recent_key()[0] == 'r');
    }
    let bind = CommandView::HashSet { key: login_key(), field: token, value: user };
    let mark = CommandView::SortedAdd { key: recent_key(), member: token, score: now };
    lemma_apply_two(store, bind, mark);
}

/// The session registry: the ordered set of tokens by the time they were last seen.
pub open spec fn registry(store: Store) -> Scores {
    store.scores(recent_key())
}

/// The registry and the bindings are in step: a token has a place in the
/// registry if and only if it is bound to a user.
pub open spec fn in_step(store: Store) -> bool {
    forall|token: Seq<char>| #[trigger]
        registry(store).contains_key(token) <==> store.fields(login_key()).contains_key(token)
}

/// No session with a token that is not empty has more than `HISTORY_LIMIT`
/// items in its view history.
pub open spec fn histories_capped(store: Store) -> bool {
    forall|token: Seq<char>|
        token.len() > 0 ==> (#[trigger] history(store, token)).dom().finite() && history(
            store,
            token,
        ).dom().len() <= HISTORY_LIMIT
}

/// What recording a request changes: the binding and the registry entry of
/// its token, the history of its token, and the popularity index.
proof fn lemma_updated(
    store: Store,
    token: Seq<char>,
    user: Seq<char>,
    item: Option<Seq<char>>,
    now: int,
) -> (after: Store)
    ensures
        after == apply_all(store, update_token_plan(token, user, item, now)),
        after.fields(login_key()) == store.fields(login_key()).insert(token, user),
        registry(after) == registry(store).insert(token, now),
        forall|other: Seq<char>|
            other != token && other.len() > 0 ==> #[trigger] history(after, other) == history(
                store,
                other,
            ),
{
    let bind = CommandView::HashSet { key: login_key(), field: token, value: user };
    let mark = CommandView::SortedAdd { key: recent_key(), member: token, score: now };
    lemma_apply_two(store, bind, mark);
    let seen = apply_all(store, seq![bind, mark]);
    reveal_strlit("viewed:");
    reveal_strlit("recent:");
    assert(recent_key()[0] == 'r');
    assert(popularity_key()[0] == 'v');
    assert(history_key(token)[0] == 'v');
    assert forall|other: Seq<char>| other != token && other.len() > 0 implies history_key(other)
        != history_key(token) && history_key(other) != popularity_key() && history_key(other)
        != recent_key() by {
        assert(history_key(other)[0] == 'v');
        assert(history_key(other).len() == 7 + other.len());
        if history_key(other) == history_key(token) {
            assert(history_key(other).skip(7) =~= other);
            assert(history_key(token).skip(7) =~= token);
        }
    }
    match item {
        Some(viewed) => {
            let add = CommandView::SortedAdd { key: history_key(token), member: viewed, score: now };
            let trim = CommandView::SortedTrim {
                key: history_key(token),
                start: 0,
                stop: -(HISTORY_LIMIT + 1),
            };
            let count = CommandView::SortedIncrement { key: popularity_key(), member: viewed, delta: -1 };
            lemma_apply_concat(store, seq![bind, mark], seq![add, trim, count]);
            lemma_apply_three(seen, add, trim, count);
            let after = apply(apply(apply(seen, add), trim), count);
            assert forall|other: Seq<char>| other != token && other.len() > 0 implies #[trigger] history(
                after,
                other,
            ) == history(store, other) by {
                assert(history_key(other) != history_key(token));
            }
            after
        },
        None => {
            assert forall|other: Seq<char>| other != token && other.len() > 0 implies #[trigger] history(
                seen,
                other,
            ) == history(store, other) by {
                assert(history_key(other) != recent_key());
            }
            seen
        },
    }
}

/// Recording a request keeps the registry and the bindings in step.
pub proof fn law_update_in_step(
    store: Store,
    token: Seq<char>,
    user: Seq<char>,
    item: Option<Seq<char>>,
    now: int,
)
    requires
        in_step(store),
    ensures
        in_step(apply_all(store, update_token_plan(token, user, item, now))),
{
    let after = lemma_updated(store, token, user, item, now);
    assert forall|other: Seq<char>| #[trigger]
        registry(after).contains_key(other) <==> after.fields(login_key()).contains_key(other) by {
        assert(registry(store).contains_key(other) <==> store.fields(login_key()).contains_key(other));
    }
}

/// Recording a request keeps every view history within `HISTORY_LIMIT`,
/// whatever the request: the cap holds after any number of them.
pub proof fn law_histories_capped(
    store: Store,
    token: Seq<char>,
    user: Seq<char>,
    item: Option<Seq<char>>,
    now: int,
)
    requires
        store.well_formed(),
        histories_capped(store),
    ensures
        histories_capped(apply_all(store, update_token_plan(token, user, item, now))),
{
    let after = lemma_updated(store, token, user, item, now);
    assert forall|other: Seq<char>| other.len() > 0 implies (#[trigger] history(
        after,
        other,
    )).dom().finite() && history(after, other).dom().len() <= HISTORY_LIMIT by {
        assert(history(store, other).dom().len() <= HISTORY_LIMIT);
        if other == token {
            match item {
                Some(viewed) => {
                    law_history_capped(store, token, user, viewed, now);
                },
                None => {
                    law_history_untouched(store, token, user, now, other);
                },
            }
        }
    }
}

} // verus!
