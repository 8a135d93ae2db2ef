//! Names of the store keys that the library reads and writes.

use vstd::prelude::*;
use vstd::string::*;

verus! {

/// Hash from session token to user name.
pub open spec fn login_key() -> Seq<char> {
    "login:"@
}

/// Ordered set of session tokens, scored by the time each was last seen.
pub open spec fn recent_key() -> Seq<char> {
    "recent:"@
}

/// Ordered set of items, scored by popularity (lower is more popular).
pub open spec fn popularity_key() -> Seq<char> {
    "viewed:"@
}

/// Ordered set of the items one session viewed, scored by view time.
pub open spec fn history_key(token: Seq<char>) -> Seq<char> {
    "viewed:"@ + token
}

/// Hash from item to quantity for one session.
pub open spec fn cart_key(session: Seq<char>) -> Seq<char> {
    "cart:"@ + session
}

/// Ordered set of row ids, scored by the delay between two refreshes of the row.
pub open spec fn delay_key() -> Seq<char> {
    "delay:"@
}

/// Ordered set of row ids, scored by the time at which the row is next due.
pub open spec fn schedule_key() -> Seq<char> {
    "schedule:"@
}

/// The cached copy of one row.
pub open spec fn row_key(row_id: Seq<char>) -> Seq<char> {
    "inv:"@ + row_id
}

/// Prefixes `name` with `prefix`.
pub fn prefixed(prefix: &str, name: &str) -> (key: String)
    ensures
        key@ == prefix@ + name@,
{
    let mut key = prefix.to_owned();
    key.append(name);
    key
}

/// The key of the view history of the session `token`.
pub fn history_key_of(token: &str) -> (key: String)
    ensures
        key@ == history_key(token@),
{
    prefixed("viewed:", token)
}

/// The key of the cart of `session`.
pub fn cart_key_of(session: &str) -> (key: String)
    ensures
        key@ == cart_key(session@),
{
    prefixed("cart:", session)
}

/// The key of the cached copy of the row `row_id`.
pub fn row_key_of(row_id: &str) -> (key: String)
    ensures
        key@ == row_key(row_id@),
{
    prefixed("inv:", row_id)
}

} // verus!
