//! A model of the ordered key-value store that the commands are meant for.
//!
//! The library never performs its commands; what they achieve depends on the
//! store that its caller runs them against. This module says, as mathematics,
//! what the library takes that store to do, so that the properties of the
//! plans can be stated and proved. Among members of an ordered set with equal
//! scores the store ranks as it sees fit: nothing here depends on how.

use vstd::prelude::*;
use crate::command::{CommandView, QueryView};

verus! {

/// A stored string with the time at which it expires, if it does.
pub struct Entry {
    pub value: Seq<char>,
    pub expires: Option<int>,
}

/// The scores of the members of one ordered set.
pub type Scores = Map<Seq<char>, int>;

/// What the store holds, and its clock in seconds.
pub struct Store {
    pub hashes: Map<Seq<char>, Map<Seq<char>, Seq<char>>>,
    pub sorted: Map<Seq<char>, Scores>,
    pub strings: Map<Seq<char>, Entry>,
    pub clock: int,
}

/// What the store answers to a query.
pub enum Reply {
    /// A string, or nothing.
    Text(Option<Seq<char>>),
    /// A number of members.
    Count(nat),
    /// Members in rank order.
    Members(Seq<Seq<char>>),
    /// Members in rank order, each with its score.
    Scored(Seq<(Seq<char>, int)>),
    /// A rank, or nothing.
    Rank(Option<nat>),
    /// A score, or nothing.
    Score(Option<int>),
}

impl Store {
    /// The fields of the hash at `key`; none where there is no hash.
    pub open spec fn fields(self, key: Seq<char>) -> Map<Seq<char>, Seq<char>> {
        if self.hashes.contains_key(key) {
            self.hashes[key]
        } else {
            Map::empty()
        }
    }

    /// The scores of the ordered set at `key`; none where there is no set.
    pub open spec fn scores(self, key: Seq<char>) -> Scores {
        if self.sorted.contains_key(key) {
            self.sorted[key]
        } else {
            Map::empty()
        }
    }

    /// The string at `key`, if there is one that has not expired.
    pub open spec fn text(self, key: Seq<char>) -> Option<Seq<char>> {
        if self.strings.contains_key(key) && (self.strings[key].expires matches Some(end)
            ==> self.clock < end) {
            Some(self.strings[key].value)
        } else {
            None
        }
    }

    /// Every ordered set has finitely many members.
    pub open spec fn well_formed(self) -> bool {
        forall|key: Seq<char>| #[trigger] self.sorted.contains_key(key) ==> self.sorted[key].dom().finite()
    }

    /// The store after `seconds` have passed.
    pub open spec fn later(self, seconds: nat) -> Store {
        Store { clock: self.clock + seconds, ..self }
    }
}

/// `order` lists the members of an ordered set once each, by ascending score.
pub open spec fn is_ranking(scores: Scores, order: Seq<Seq<char>>) -> bool {
    &&& order.no_duplicates()
    &&& forall|member: Seq<char>| #[trigger] order.contains(member) <==> scores.contains_key(member)
    &&& forall|i: int, j: int|
        0 <= i < j < order.len() ==> scores[#[trigger] order[i]] <= scores[#[trigger] order[j]]
}

/// The order in which the store ranks the members of an ordered set.
pub open spec fn ranking(scores: Scores) -> Seq<Seq<char>> {
    choose|order: Seq<Seq<char>>| is_ranking(scores, order)
}

/// The first index that a rank range covers in a set of `len` members.
pub open spec fn range_start(len: int, start: int) -> int {
    if start >= 0 {
        start
    } else if len + start >= 0 {
        len + start
    } else {
        0
    }
}

/// The index after the last that a rank range covers in a set of `len` members.
pub open spec fn range_end(len: int, stop: int) -> int {
    let last = if stop >= 0 {
        stop
    } else {
        len + stop
    };
    if last >= len {
        len
    } else {
        last + 1
    }
}

/// Whether the rank range `start..=stop` covers index `i` in a set of `len`
/// members; a negative rank counts from the end.
pub open spec fn covers(len: int, start: int, stop: int, i: int) -> bool {
    0 <= i < len && range_start(len, start) <= i < range_end(len, stop)
}

/// The members that the rank range `start..=stop` covers, in rank order.
pub open spec fn ranked(scores: Scores, start: int, stop: int) -> Seq<Seq<char>> {
    let order = ranking(scores);
    let from = range_start(order.len() as int, start);
    let to = range_end(order.len() as int, stop);
    if from < to {
        order.subrange(from, to)
    } else {
        Seq::empty()
    }
}

/// The set without the members that the rank range `start..=stop` covers.
pub open spec fn trimmed(scores: Scores, start: int, stop: int) -> Scores {
    scores.remove_keys(ranked(scores, start, stop).to_set())
}

/// The score of a member, 0 where it is none.
pub open spec fn score_or_zero(scores: Scores, member: Seq<char>) -> int {
    if scores.contains_key(member) {
        scores[member]
    } else {
        0
    }
}

/// The store after one command.
pub open spec fn apply(store: Store, command: CommandView) -> Store {
    match command {
        CommandView::HashSet { key, field, value } => Store {
            hashes: store.hashes.insert(key, store.fields(key).insert(field, value)),
            ..store
        },
        CommandView::HashDelete { key, fields } => Store {
            hashes: store.hashes.insert(key, store.fields(key).remove_keys(fields.to_set())),
            ..store
        },
        CommandView::SortedAdd { key, member, score } => Store {
            sorted: store.sorted.insert(key, store.scores(key).insert(member, score)),
            ..store
        },
        CommandView::SortedIncrement { key, member, delta } => Store {
            sorted: store.sorted.insert(
                key,
                store.scores(key).insert(member, score_or_zero(store.scores(key), member) + delta),
            ),
            ..store
        },
        CommandView::SortedRemove { key, members } => Store {
            sorted: store.sorted.insert(key, store.scores(key).remove_keys(members.to_set())),
            ..store
        },
        CommandView::SortedTrim { key, start, stop } => Store {
            sorted: store.sorted.insert(key, trimmed(store.scores(key), start, stop)),
            ..store
        },
        CommandView::Put { key, value } => Store {
            strings: store.strings.insert(key, Entry { value, expires: None }),
            ..store
        },
        CommandView::PutExpiring { key, value, seconds } => Store {
            strings: store.strings.insert(
                key,
                Entry { value, expires: Some(store.clock + seconds) },
            ),
            ..store
        },
        CommandView::Delete { keys } => Store {
            hashes: store.hashes.remove_keys(keys.to_set()),
            sorted: store.sorted.remove_keys(keys.to_set()),
            strings: store.strings.remove_keys(keys.to_set()),
            ..store
        },
    }
}

/// The store after the commands of a plan, performed in order.
pub open spec fn apply_all(store: Store, plan: Seq<CommandView>) -> Store
    decreases plan.len(),
{
    if plan.len() == 0 {
        store
    } else {
        apply(apply_all(store, plan.drop_last()), plan.last())
    }
}

/// What the store answers to a query.
pub open spec fn answer(store: Store, query: QueryView) -> Reply {
    match query {
        QueryView::HashGet { key, field } => Reply::Text(
            if store.fields(key).contains_key(field) {
                Some(store.fields(key)[field])
            } else {
                None
            },
        ),
        QueryView::SortedCount { key } => Reply::Count(store.scores(key).dom().len()),
        QueryView::SortedRange { key, start, stop } => Reply::Members(
            ranked(store.scores(key), start, stop),
        ),
        QueryView::SortedRangeScored { key, start, stop } => Reply::Scored(
            ranked(store.scores(key), start, stop).map_values(
                |member: Seq<char>| (member, store.scores(key)[member]),
            ),
        ),
        QueryView::SortedRank { key, member } => Reply::Rank(
            if store.scores(key).contains_key(member) {
                Some(ranking(store.scores(key)).index_of(member) as nat)
            } else {
                None
            },
        ),
        QueryView::SortedScore { key, member } => Reply::Score(
            if store.scores(key).contains_key(member) {
                Some(store.scores(key)[member])
            } else {
                None
            },
        ),
        QueryView::Get { key } => Reply::Text(store.text(key)),
    }
}

} // verus!
