//! The store operations that the library asks its caller to perform.
//!
//! A [`Command`] changes the store and has no reply that the library reads.
//! A [`Query`] reads the store; the caller hands its reply back to the step
//! that asked for it.

use vstd::prelude::*;

verus! {

/// A write to the store.
#[derive(Debug, Clone)]
pub enum Command {
    /// Set `field` of the hash at `key` to `value`.
    HashSet { key: String, field: String, value: String },
    /// Remove `fields` from the hash at `key`.
    HashDelete { key: String, fields: Vec<String> },
    /// Put `member` into the ordered set at `key` with `score`, replacing its old score.
    SortedAdd { key: String, member: String, score: i64 },
    /// Add `delta` to the score of `member` in the ordered set at `key` (absent counts as 0).
    SortedIncrement { key: String, member: String, delta: i64 },
    /// Remove `members` from the ordered set at `key`.
    SortedRemove { key: String, members: Vec<String> },
    /// Remove the members of the ordered set at `key` whose rank lies in
    /// `start..=stop`; a negative rank counts from the highest rank, -1 being the last.
    SortedTrim { key: String, start: i64, stop: i64 },
    /// Store `value` at `key` without expiry.
    Put { key: String, value: String },
    /// Store `value` at `key`, to expire after `seconds`.
    PutExpiring { key: String, value: String, seconds: u64 },
    /// Delete every key in `keys`, whatever it holds.
    Delete { keys: Vec<String> },
}

/// What a [`Command`] says, over mathematical strings.
pub enum CommandView {
    HashSet { key: Seq<char>, field: Seq<char>, value: Seq<char> },
    HashDelete { key: Seq<char>, fields: Seq<Seq<char>> },
    SortedAdd { key: Seq<char>, member: Seq<char>, score: int },
    SortedIncrement { key: Seq<char>, member: Seq<char>, delta: int },
    SortedRemove { key: Seq<char>, members: Seq<Seq<char>> },
    SortedTrim { key: Seq<char>, start: int, stop: int },
    Put { key: Seq<char>, value: Seq<char> },
    PutExpiring { key: Seq<char>, value: Seq<char>, seconds: nat },
    Delete { keys: Seq<Seq<char>> },
}

impl View for Command {
    type V = CommandView;

    open spec fn view(&self) -> CommandView {
        match *self {
            Command::HashSet { key, field, value } => CommandView::HashSet {
                key: key@,
                field: field@,
                value: value@,
            },
            Command::HashDelete { key, fields } => CommandView::HashDelete {
                key: key@,
                fields: fields.deep_view(),
            },
            Command::SortedAdd { key, member, score } => CommandView::SortedAdd {
                key: key@,
                member: member@,
                score: score as int,
            },
            Command::SortedIncrement { key, member, delta } => CommandView::SortedIncrement {
                key: key@,
                member: member@,
                delta: delta as int,
            },
            Command::SortedRemove { key, members } => CommandView::SortedRemove {
                key: key@,
                members: members.deep_view(),
            },
            Command::SortedTrim { key, start, stop } => CommandView::SortedTrim {
                key: key@,
                start: start as int,
                stop: stop as int,
            },
            Command::Put { key, value } => CommandView::Put { key: key@, value: value@ },
            Command::PutExpiring { key, value, seconds } => CommandView::PutExpiring {
                key: key@,
                value: value@,
                seconds: seconds as nat,
            },
            Command::Delete { keys } => CommandView::Delete { keys: keys.deep_view() },
        }
    }
}

/// The views of the commands of a plan, in order.
pub open spec fn plan_view(plan: Seq<Command>) -> Seq<CommandView> {
    Seq::new(plan.len(), |i: int| plan[i]@)
}

/// A read of the store.
#[derive(Debug, Clone)]
pub enum Query {
    /// The value of `field` in the hash at `key`, if any.
    HashGet { key: String, field: String },
    /// The number of members of the ordered set at `key`.
    SortedCount { key: String },
    /// The members of the ordered set at `key` with rank in `start..=stop`, lowest first.
    SortedRange { key: String, start: i64, stop: i64 },
    /// As `SortedRange`, each member with its score.
    SortedRangeScored { key: String, start: i64, stop: i64 },
    /// The rank of `member` in the ordered set at `key`, if it is a member.
    SortedRank { key: String, member: String },
    /// The score of `member` in the ordered set at `key`, if it is a member.
    SortedScore { key: String, member: String },
    /// The string stored at `key`, if any.
    Get { key: String },
}

/// What a [`Query`] asks, over mathematical strings.
pub enum QueryView {
    HashGet { key: Seq<char>, field: Seq<char> },
    SortedCount { key: Seq<char> },
    SortedRange { key: Seq<char>, start: int, stop: int },
    SortedRangeScored { key: Seq<char>, start: int, stop: int },
    SortedRank { key: Seq<char>, member: Seq<char> },
    SortedScore { key: Seq<char>, member: Seq<char> },
    Get { key: Seq<char> },
}

impl View for Query {
    type V = QueryView;

    open spec fn view(&self) -> QueryView {
        match *self {
            Query::HashGet { key, field } => QueryView::HashGet { key: key@, field: field@ },
            Query::SortedCount { key } => QueryView::SortedCount { key: key@ },
            Query::SortedRange { key, start, stop } => QueryView::SortedRange {
                key: key@,
                start: start as int,
                stop: stop as int,
            },
            Query::SortedRangeScored { key, start, stop } => QueryView::SortedRangeScored {
                key: key@,
                start: start as int,
                stop: stop as int,
            },
            Query::SortedRank { key, member } => QueryView::SortedRank {
                key: key@,
                member: member@,
            },
            Query::SortedScore { key, member } => QueryView::SortedScore {
                key: key@,
                member: member@,
            },
            Query::Get { key } => QueryView::Get { key: key@ },
        }
    }
}

} // verus!
