//! The page cache on the store.

use vstd::prelude::*;
use crate::command::QueryView;
use crate::gate::{page_key, page_write, PAGE_SECONDS};
use crate::model::{answer, apply, Reply, Store};

verus! {

/// What the store answers to the read of a request's cached page.
pub open spec fn cached_page(store: Store, request: Seq<char>) -> Reply {
    answer(store, QueryView::Get { key: page_key(request) })
}

/// The page that a request which may be cached is answered with: the cached
/// page where there is one, else the page rendered for it.
pub open spec fn served(cached: Reply, rendered: Seq<char>) -> Seq<char> {
    match cached {
        Reply::Text(Some(found)) => found,
        _ => rendered,
    }
}

/// A page that was served for a request is what the cache gives for that
/// request until `PAGE_SECONDS` have passed since.
pub proof fn law_page_kept(store: Store, request: Seq<char>, content: Seq<char>, seconds: nat)
    requires
        seconds < PAGE_SECONDS,
    ensures
        cached_page(apply(store, page_write(request, content)).later(seconds), request) == Reply::Text(
            Some(content),
        ),
{
}

/// Two answers to one request that may be cached, the second less than
/// `PAGE_SECONDS` after the first, give the same page, whatever would be
/// rendered for the second.
pub proof fn law_page_served_again(
    store: Store,
    request: Seq<char>,
    rendered: Seq<char>,
    rendered_again: Seq<char>,
    seconds: nat,
)
    requires
        seconds < PAGE_SECONDS,
    ensures
        ({
            let first = served(cached_page(store, request), rendered);
            let after = apply(store, page_write(request, first)).later(seconds);
            served(cached_page(after, request), rendered_again) == first
        }),
{
    law_page_kept(store, request, served(cached_page(store, request), rendered), seconds);
}

} // verus!
