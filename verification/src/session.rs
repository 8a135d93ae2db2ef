//! Login sessions, per-session view history and carts.

use vstd::prelude::*;
use vstd::string::*;
use crate::command::{plan_view, Command, CommandView, Query, QueryView};
use crate::keys::{cart_key, cart_key_of, history_key, history_key_of, login_key, popularity_key, recent_key};
use crate::text::{signed_decimal, signed_text};

verus! {

/// How many viewed items a session's history keeps.
pub const HISTORY_LIMIT: i64 = 25;

/// The writes that record a request by `user` under `token` at time `now`.
///
/// The session is bound to the user and marked as seen now. If an item was
/// viewed, it is put into the session's history, the history is cut down to
/// its `HISTORY_LIMIT` latest entries, and the item is made one step more popular.
pub open spec fn update_token_plan(
    token: Seq<char>,
    user: Seq<char>,
    item: Option<Seq<char>>,
    now: int,
) -> Seq<CommandView> {
    let seen = seq![
        CommandView::HashSet { key: login_key(), field: token, value: user },
        CommandView::SortedAdd { key: recent_key(), member: token, score: now },
    ];
    match item {
        Some(item) => seen + seq![
            CommandView::SortedAdd { key: history_key(token), member: item, score: now },
            CommandView::SortedTrim { key: history_key(token), start: 0, stop: -(HISTORY_LIMIT + 1) },
            CommandView::SortedIncrement { key: popularity_key(), member: item, delta: -1 },
        ],
        None => seen,
    }
}

/// Plans the writes for a request by `user` under `token` at `now`
/// (milliseconds since the epoch), `item` being the item viewed, if any.
pub fn update_token(token: &str, user: &str, item: Option<&str>, now: i64) -> (plan: Vec<Command>)
    ensures
        plan_view(plan@) == update_token_plan(
            token@,
            user@,
            match item {
                Some(i) => Some(i@),
                None => None,
            },
            now as int,
        ),
{
    let mut plan: Vec<Command> = Vec::new();
    plan.push(
        Command::HashSet { key: "login:".to_owned(), field: token.to_owned(), value: user.to_owned() },
    );
    plan.push(
        Command::SortedAdd { key: "recent:".to_owned(), member: token.to_owned(), score: now },
    );
    if let Some(item) = item {
        plan.push(
            Command::SortedAdd { key: history_key_of(token), member: item.to_owned(), score: now },
        );
        plan.push(
            Command::SortedTrim { key: history_key_of(token), start: 0, stop: -(HISTORY_LIMIT + 1) },
        );
        plan.push(
            Command::SortedIncrement { key: "viewed:".to_owned(), member: item.to_owned(), delta: -1 },
        );
        assert(plan_view(plan@) =~= update_token_plan(token@, user@, Some(item@), now as int));
    } else {
        assert(plan_view(plan@) =~= update_token_plan(token@, user@, None, now as int));
    }
    plan
}

/// A session lookup that found nothing.
#[derive(Debug, Clone, Copy, PartialEq, Eq)]
pub enum SessionError {
    /// No user is bound to the token: it was never seen, or it was evicted.
    NotFound,
}

impl SessionError {
    /// The error in words.
    pub fn message(&self) -> (text: String)
        ensures
            text@ == "no session has this token"@,
    {
        "no session has this token".to_owned()
    }
}

/// The read that finds the user bound to `token`.
pub fn check_token(token: &str) -> (query: Query)
    ensures
        query@ == (QueryView::HashGet { key: login_key(), field: token@ }),
{
    Query::HashGet { key: "login:".to_owned(), field: token.to_owned() }
}

/// Reads the reply to [`check_token`]: the user, or `NotFound` where the store had no entry.
pub fn token_user(reply: Option<String>) -> (user: Result<String, SessionError>)
    ensures
        match reply {
            Some(name) => user == Ok::<String, SessionError>(name),
            None => user == Err::<String, SessionError>(SessionError::NotFound),
        },
{
    match reply {
        Some(name) => Ok(name),
        None => Err(SessionError::NotFound),
    }
}

/// The write that sets the quantity of `item` in the cart of `session`:
/// a quantity of zero or less takes the line out, any other replaces it.
pub open spec fn add_to_cart_command(session: Seq<char>, item: Seq<char>, count: int) -> CommandView {
    if count <= 0 {
        CommandView::HashDelete { key: cart_key(session), fields: seq![item] }
    } else {
        CommandView::HashSet { key: cart_key(session), field: item, value: signed_decimal(count) }
    }
}

/// Plans the write that sets the quantity of `item` in the cart of `session`.
pub fn add_to_cart(session: &str, item: &str, count: i64) -> (command: Command)
    ensures
        command@ == add_to_cart_command(session@, item@, count as int),
{
    let key = cart_key_of(session);
    if count <= 0 {
        let mut fields: Vec<String> = Vec::new();
        fields.push(item.to_owned());
        assert(fields.deep_view() =~= seq![item@]);
        Command::HashDelete { key, fields }
    } else {
        Command::HashSet { key, field: item.to_owned(), value: signed_text(count) }
    }
}

} // verus!
