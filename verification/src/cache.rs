//! The disk-backed feed cache record and its freshness window.
//!
//! The cache holds exactly the post list of the most recent successful fetch,
//! the moment that fetch happened, and the user-facing refresh tick counter.
//! Reading and writing the file is the caller's job; this module owns the
//! record itself and the rule that decides whether a cached list is still
//! fresh enough to spare a network fetch at startup.

use vstd::prelude::*;

use crate::post::{Post, PostView};

verus! {

/// Seconds a cached fetch stays fresh: within this window the session starts
/// from the cache and skips the initial network fetch.
pub const FRESHNESS_WINDOW_SECS: i64 = 60;

/// Ghost model of the durable cache record.
pub ghost struct CacheView {
    pub last_fetched_at: Option<i64>,
    pub posts: Seq<PostView>,
    pub refresh_tick: u64,
}

/// The durable cache record: the last successfully fetched post list
/// (newest first), when it was fetched (seconds of Unix time), and the
/// refresh tick counter carried across sessions.
pub struct FeedCache {
    pub last_fetched_at: Option<i64>,
    pub posts: Vec<Post>,
    pub refresh_tick: u64,
}

impl View for FeedCache {
    type V = CacheView;

    open spec fn view(&self) -> CacheView {
        CacheView {
            last_fetched_at: self.last_fetched_at,
            posts: self.posts.deep_view(),
            refresh_tick: self.refresh_tick,
        }
    }
}

/// A cache is fresh at `now` iff it has fetched at all and that fetch lies
/// within the freshness window.
pub open spec fn spec_is_fresh(last_fetched_at: Option<i64>, now: int, window: int) -> bool {
    match last_fetched_at {
        Some(t) => now - t < window,
        None => false,
    }
}

impl FeedCache {
    /// Whether the most recent fetch is recent enough, judged against the
    /// caller's clock reading `now`.
    pub fn is_fresh(&self, now: i64, freshness_window: i64) -> (r: bool)
        ensures
            r == spec_is_fresh(self.last_fetched_at, now as int, freshness_window as int),
    {
        match self.last_fetched_at {
            Some(t) => (now as i128) - (t as i128) < (freshness_window as i128),
            None => false,
        }
    }
}

/// The freshness check is a function of the record and the clock value alone:
/// two checks made with the same clock reading agree.
pub proof fn lemma_freshness_idempotent(
    last_fetched_at: Option<i64>,
    now: int,
    window: int,
    r1: bool,
    r2: bool,
)
    requires
        r1 == spec_is_fresh(last_fetched_at, now, window),
        r2 == spec_is_fresh(last_fetched_at, now, window),
    ensures
        r1 == r2,
{
}

} // verus!
