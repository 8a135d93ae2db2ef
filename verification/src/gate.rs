//! The cache gate: which requests may be cached, under which key, and what a
//! request is answered with.

use std::collections::hash_map::DefaultHasher;
use std::hash::{Hash, Hasher};
use vstd::prelude::*;
use vstd::std_specs::hash::*;
use vstd::string::*;
use crate::command::{Command, CommandView, Query, QueryView};
use crate::keys::{popularity_key, prefixed};
use crate::params::{
    fields_view, first_value, has_field, lemma_lookup_lists, lists, parse_query, query_fields,
    request_fields, request_query, text_view, Field,
};
use crate::text::{decimal, unsigned_text};

verus! {

/// Only items ranked below this may have their pages cached.
pub const POPULARITY_LIMIT: u64 = 10000;

/// How long a cached page lives, in seconds.
pub const PAGE_SECONDS: u64 = 300;

/// What hashing a string writes into a hasher, as `<str as Hash>::hash` does it.
pub uninterp spec fn str_hash_writes(text: Seq<char>) -> Seq<Seq<u8>>;

/// Calls `<str as Hash>::hash` on `text` with `hasher`. Believed: what this
/// writes into the hasher depends on the text alone; it is named [`str_hash_writes`].
#[verifier::external_body]
fn feed(hasher: &mut DefaultHasher, text: &str)
    ensures
        final(hasher)@ == old(hasher)@ + str_hash_writes(text@),
{
    text.hash(hasher)
}

/// The number that stands for a request in cache keys.
pub open spec fn request_digest(request: Seq<char>) -> u64 {
    DefaultHasher::spec_finish(str_hash_writes(request))
}

/// The item that a request asks for: the first value of its `item` parameter.
pub open spec fn item_id(request: Seq<char>) -> Option<Seq<char>> {
    match request_fields(request) {
        Some(fields) => if fields.contains_key("item"@) {
            Some(fields["item"@][0])
        } else {
            None
        },
        None => None,
    }
}

/// Whether a request is marked as dynamic: it has a parameter called `_`.
pub open spec fn dynamic(request: Seq<char>) -> bool {
    match request_fields(request) {
        Some(fields) => fields.contains_key("_"@),
        None => false,
    }
}

/// Whether a request whose item has the popularity rank `rank` may be cached.
pub open spec fn cacheable(request: Seq<char>, rank: Option<u64>) -> bool {
    &&& item_id(request) is Some
    &&& !dynamic(request)
    &&& rank matches Some(r) && r < POPULARITY_LIMIT
}

/// The key under which the page of a request is cached.
pub open spec fn page_key(request: Seq<char>) -> Seq<char> {
    "cache:"@ + decimal(request_digest(request) as nat)
}

/// The text that stands for a request in cache keys: its digest in decimal.
pub fn hash_request(request: &str) -> (text: String)
    ensures
        text@ == decimal(request_digest(request@) as nat),
{
    let mut hasher = DefaultHasher::new();
    feed(&mut hasher, request);
    assert(hasher@ =~= str_hash_writes(request@));
    unsigned_text(hasher.finish())
}

/// The parameters of a request, as `Url::get_parsed_query` of `urlparse`
/// gives them: those that `parse_qs` reads out of the query component, and
/// `None` where the request has no query component.
fn parameters(request: &str) -> (fields: Option<Vec<Field>>)
    ensures
        match fields {
            Some(f) => request_fields(request@) matches Some(map) && lists(fields_view(f@), map),
            None => request_fields(request@) is None,
        },
{
    match request_query(request) {
        Some(query) => Some(parse_query(query.as_str())),
        None => None,
    }
}

/// The item that a request asks for, if it names one.
pub fn extract_item_id(request: &str) -> (item: Option<String>)
    ensures
        text_view(item) == item_id(request@),
{
    match parameters(request) {
        Some(fields) => {
            proof {
                lemma_lookup_lists(fields_view(fields@), request_fields(request@).unwrap(), "item"@);
            }
            first_value(&fields, "item")
        },
        None => None,
    }
}

/// Whether a request is marked as dynamic.
pub fn is_dynamic(request: &str) -> (marked: bool)
    ensures
        marked == dynamic(request@),
{
    match parameters(request) {
        Some(fields) => {
            proof {
                lemma_lookup_lists(fields_view(fields@), request_fields(request@).unwrap(), "_"@);
            }
            has_field(&fields, "_")
        },
        None => false,
    }
}

/// The read that admission of a request depends on: the popularity rank of
/// its item. `None` where the request cannot be cached whatever the store
/// holds, because it names no item or is marked as dynamic.
pub fn popularity_query(request: &str) -> (query: Option<Query>)
    ensures
        match query {
            Some(q) => item_id(request@) matches Some(item) && !dynamic(request@) && q@ == (
            QueryView::SortedRank { key: popularity_key(), member: item }),
            None => item_id(request@) is None || dynamic(request@),
        },
{
    match extract_item_id(request) {
        Some(item) => {
            if is_dynamic(request) {
                None
            } else {
                Some(Query::SortedRank { key: "viewed:".to_owned(), member: item })
            }
        },
        None => None,
    }
}

/// Decides whether a request may be cached, `rank` being the popularity rank
/// of its item as the store gave it (`None` where the item has no rank).
pub fn can_cache(request: &str, rank: Option<u64>) -> (admitted: bool)
    ensures
        admitted == cacheable(request@, rank),
{
    if extract_item_id(request).is_none() || is_dynamic(request) {
        return false;
    }
    match rank {
        Some(r) => r < POPULARITY_LIMIT,
        None => false,
    }
}

/// An event in the answering of one request.
#[derive(Debug, Clone)]
pub enum GateEvent {
    /// The request has arrived.
    Arrived,
    /// The popularity rank of the request's item, `None` where it has none.
    Rank(Option<u64>),
    /// The page found in the cache under the request's key, `None` where the
    /// read found nothing or failed; `rank` is the rank that admitted the request.
    Cached { rank: Option<u64>, page: Option<String> },
}

/// What the caller is asked to do next for the request.
#[derive(Debug, Clone)]
pub enum GateAction {
    /// Read the rank of the request's item and hand it in as `Rank`.
    AskRank(Query),
    /// Read the cached page and hand it in, with the rank, as `Cached`.
    AskCached(Query),
    /// Perform `store`, if there is one, and answer the request with `content`.
    Serve { content: String, store: Option<Command> },
}

/// The write that caches `content` as the page of `request`.
pub open spec fn page_write(request: Seq<char>, content: Seq<char>) -> CommandView {
    CommandView::PutExpiring {
        key: page_key(request),
        value: content,
        seconds: PAGE_SECONDS as nat,
    }
}

/// The key under which the page of a request is cached.
pub fn page_key_of(request: &str) -> (key: String)
    ensures
        key@ == page_key(request@),
{
    let digest = hash_request(request);
    prefixed("cache:", digest.as_str())
}

fn serve_uncached<F: Fn(&str) -> String>(request: &str, callback: &F) -> (action: GateAction)
    requires
        call_requires(*callback, (request,)),
    ensures
        action matches GateAction::Serve { content, store } && store is None && call_ensures(
            *callback,
            (request,),
            content,
        ),
{
    GateAction::Serve { content: callback(request), store: None }
}

/// One step of answering `request` through the page cache; `callback` renders
/// the page where the cache cannot give it.
///
/// A request that may not be cached is rendered and served, and nothing is
/// stored. One that may be cached is served from the cache if the page is
/// there and rendered if not; either way the page served is stored again, for
/// `PAGE_SECONDS` from now. A page is stored only for a request that the
/// rank handed in with the cached page admits.
pub fn cache_request<F: Fn(&str) -> String>(request: &str, event: GateEvent, callback: F) -> (action:
    GateAction)
    requires
        call_requires(callback, (request,)),
    ensures
        match event {
            GateEvent::Arrived => if item_id(request@) is None || dynamic(request@) {
                action matches GateAction::Serve { content, store } && store is None
                    && call_ensures(callback, (request,), content)
            } else {
                action matches GateAction::AskRank(query) && query@ == (QueryView::SortedRank {
                    key: popularity_key(),
                    member: item_id(request@).unwrap(),
                })
            },
            GateEvent::Rank(rank) => if cacheable(request@, rank) {
                action matches GateAction::AskCached(query) && query@ == (QueryView::Get {
                    key: page_key(request@),
                })
            } else {
                action matches GateAction::Serve { content, store } && store is None
                    && call_ensures(callback, (request,), content)
            },
            GateEvent::Cached { rank, page } => if !cacheable(request@, rank) {
                action matches GateAction::Serve { content, store } && store is None
                    && call_ensures(callback, (request,), content)
            } else {
                action matches GateAction::Serve { content, store } && store matches Some(write)
                    && write@ == page_write(request@, content@) && match page {
                    Some(found) => content == found,
                    None => call_ensures(callback, (request,), content),
                }
            },
        },
        action matches GateAction::Serve { store: Some(_), .. } ==> event matches GateEvent::Cached {
            rank,
            ..
        } && cacheable(request@, rank),
{
    match event {
        GateEvent::Arrived => match popularity_query(request) {
            Some(query) => GateAction::AskRank(query),
            None => serve_uncached(request, &callback),
        },
        GateEvent::Rank(rank) => {
            if can_cache(request, rank) {
                GateAction::AskCached(Query::Get { key: page_key_of(request) })
            } else {
                serve_uncached(request, &callback)
            }
        },
        GateEvent::Cached { rank, page } => {
            if !can_cache(request, rank) {
                return serve_uncached(request, &callback);
            }
            let content = match page {
                Some(found) => found,
                None => callback(request),
            };
            let write = Command::PutExpiring {
                key: page_key_of(request),
                value: content.clone(),
                seconds: PAGE_SECONDS,
            };
            GateAction::Serve { content, store: Some(write) }
        },
    }
}

} // verus!
