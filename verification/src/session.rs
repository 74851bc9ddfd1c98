//! The timeline session state machine.
//!
//! One control loop consumes one `Event` per iteration. The session owns the
//! live post list (newest first), the selection cursor, the refresh countdown
//! and its copy of the durable cache. Network work is never done here: when a
//! transition needs the feed service, `apply` hands the caller a `Step` that
//! names the request, and the caller reports the outcome back through one of
//! the `apply_*` functions, which are verified for every possible outcome.

use vstd::prelude::*;

use crate::cache::{spec_is_fresh, CacheView, FeedCache};
use crate::numfmt::{all_digits, dec_val, parse_u64};
use crate::post::{clone_posts, Post, PostView};

verus! {

/// Ticks between automatic background refreshes.
pub const DEFAULT_REFRESH_PERIOD: u64 = 60;

/// How many posts one refresh asks the feed service for.
pub const FETCH_LIMIT: u64 = 30;

/// One item of the merged event stream: a decoded key, or the periodic timer.
#[derive(Clone, Copy, Debug, PartialEq, Eq)]
pub enum Event<I> {
    Input(I),
    Tick,
}

/// The semantic commands the control loop understands; the mapping from raw
/// keys to these is owned by the terminal layer.
#[derive(Clone, Copy, Debug, PartialEq, Eq)]
pub enum Command {
    SelectNext,
    SelectPrev,
    ClearSelection,
    Like,
    Reshare,
    Quit,
}

/// What the caller must do after a transition: nothing, perform a feed
/// request and report its outcome, tell the user nothing is selected, or
/// flush the cache and leave the loop.
#[derive(Debug, PartialEq, Eq)]
pub enum Step {
    Continue,
    FetchDue(Option<u64>),
    LikeDue(String),
    ReshareDue(String),
    NoSelection,
    Exit,
}

/// The refresh cursor: the numeric value of the newest known post id, `None`
/// when the list is empty or the id does not read as a number (then a full
/// fetch is due).
pub open spec fn cursor_of(posts: Seq<PostView>) -> Option<u64> {
    if posts.len() == 0 {
        None
    } else if posts[0].id.len() > 0 && all_digits(posts[0].id) && dec_val(posts[0].id) <= u64::MAX {
        Some(dec_val(posts[0].id) as u64)
    } else {
        None
    }
}

/// Where the cursor moves on select-next over a list of length `len > 0`.
pub open spec fn sel_next(sel: Option<usize>, len: int) -> int {
    let cur: int = match sel {
        Some(i) => i as int,
        None => 0,
    };
    if cur + 1 <= len - 1 {
        cur + 1
    } else {
        len - 1
    }
}

/// Where the cursor moves on select-prev over a non-empty list.
pub open spec fn sel_prev(sel: Option<usize>) -> int {
    let cur: int = match sel {
        Some(i) => i as int,
        None => 0,
    };
    if cur >= 1 {
        cur - 1
    } else {
        0
    }
}

/// The transient session state, mutated only by the control loop.
pub struct TimelineSession {
    /// Live post list, newest first.
    pub posts: Vec<Post>,
    /// Selection cursor; `None` or an index into `posts`.
    pub selection: Option<usize>,
    /// Ticks counted since the last refresh, always below `refresh_period`.
    pub tick_count: u64,
    /// Ticks between automatic refreshes; positive.
    pub refresh_period: u64,
    /// Owned copy of the durable cache, written back by the caller on exit.
    pub cache: FeedCache,
}

/// Everything but the selection cursor agrees.
pub open spec fn same_except_selection(pre: TimelineSession, post: TimelineSession) -> bool {
    &&& post.posts == pre.posts
    &&& post.tick_count == pre.tick_count
    &&& post.refresh_period == pre.refresh_period
    &&& post.cache == pre.cache
}

/// Everything but the tick counter agrees.
pub open spec fn same_except_tick(pre: TimelineSession, post: TimelineSession) -> bool {
    &&& post.posts == pre.posts
    &&& post.selection == pre.selection
    &&& post.refresh_period == pre.refresh_period
    &&& post.cache == pre.cache
}

impl TimelineSession {
    /// The session invariant: the countdown stays below the (positive)
    /// period, and the selection is `None` or a valid index.
    pub open spec fn wf(&self) -> bool {
        &&& self.refresh_period > 0
        &&& self.tick_count < self.refresh_period
        &&& (match self.selection {
            Some(i) => i < self.posts@.len(),
            None => true,
        })
        &&& (self.posts@.len() == 0 ==> self.selection is None)
    }

    /// One transition of the state machine: consumes one event, updates the
    /// state, and returns what the caller must now do.
    pub fn apply(&mut self, ev: Event<Command>) -> (step: Step)
        requires
            old(self).wf(),
        ensures
            final(self).wf(),
            final(self).posts@.len() >= old(self).posts@.len(),
            match ev {
                Event::Tick => {
                    if old(self).tick_count + 1 < old(self).refresh_period {
                        &&& same_except_tick(*old(self), *final(self))
                        &&& final(self).tick_count == old(self).tick_count + 1
                        &&& step is Continue
                    } else {
                        &&& *final(self) == *old(self)
                        &&& step matches Step::FetchDue(cursor) && cursor == cursor_of(
                            old(self).posts.deep_view(),
                        )
                    }
                },
                Event::Input(cmd) => match cmd {
                    Command::SelectNext => {
                        &&& same_except_selection(*old(self), *final(self))
                        &&& step is Continue
                        &&& if old(self).posts@.len() == 0 {
                            final(self).selection is None
                        } else {
                            final(self).selection matches Some(j) && j as int == sel_next(
                                old(self).selection,
                                old(self).posts@.len() as int,
                            )
                        }
                    },
                    Command::SelectPrev => {
                        &&& same_except_selection(*old(self), *final(self))
                        &&& step is Continue
                        &&& if old(self).posts@.len() == 0 {
                            final(self).selection is None
                        } else {
                            final(self).selection matches Some(j) && j as int == sel_prev(
                                old(self).selection,
                            )
                        }
                    },
                    Command::ClearSelection => {
                        &&& same_except_selection(*old(self), *final(self))
                        &&& final(self).selection is None
                        &&& step is Continue
                    },
                    Command::Like => {
                        &&& *final(self) == *old(self)
                        &&& match old(self).selection {
                            Some(i) => step matches Step::LikeDue(id) && id@ == old(
                                self,
                            ).posts.deep_view()[i as int].id,
                            None => step is NoSelection,
                        }
                    },
                    Command::Reshare => {
                        &&& *final(self) == *old(self)
                        &&& match old(self).selection {
                            Some(i) => step matches Step::ReshareDue(id) && id@ == old(
                                self,
                            ).posts.deep_view()[i as int].id,
                            None => step is NoSelection,
                        }
                    },
                    Command::Quit => {
                        &&& *final(self) == *old(self)
                        &&& step is Exit
                    },
                },
            },
    {
        match ev {
            Event::Tick => {
                if self.tick_count + 1 < self.refresh_period {
                    self.tick_count = self.tick_count + 1;
                    Step::Continue
                } else {
                    let cursor = if self.posts.len() == 0 {
                        None
                    } else {
                        parse_u64(self.posts[0].id.as_str())
                    };
                    Step::FetchDue(cursor)
                }
            },
            Event::Input(cmd) => match cmd {
                Command::SelectNext => {
                    let len = self.posts.len();
                    if len > 0 {
                        let cur: usize = match self.selection {
                            Some(i) => i,
                            None => 0,
                        };
                        let next: usize = if cur + 1 <= len - 1 {
                            cur + 1
                        } else {
                            len - 1
                        };
                        self.selection = Some(next);
                    }
                    Step::Continue
                },
                Command::SelectPrev => {
                    let len = self.posts.len();
                    if len > 0 {
                        let cur: usize = match self.selection {
                            Some(i) => i,
                            None => 0,
                        };
                        let prev: usize = if cur >= 1 {
                            cur - 1
                        } else {
                            0
                        };
                        self.selection = Some(prev);
                    }
                    Step::Continue
                },
                Command::ClearSelection => {
                    self.selection = None;
                    Step::Continue
                },
                Command::Like => {
                    match self.selection {
                        Some(i) => Step::LikeDue(self.posts[i].id.clone()),
                        None => Step::NoSelection,
                    }
                },
                Command::Reshare => {
                    match self.selection {
                        Some(i) => Step::ReshareDue(self.posts[i].id.clone()),
                        None => Step::NoSelection,
                    }
                },
                Command::Quit => Step::Exit,
            },
        }
    }

    /// A due refresh came back with the posts strictly newer than the
    /// cursor: prepend them, shift the selection so the user's visual target
    /// stays put (re-clamped defensively), restart the countdown, and bring
    /// the owned cache up to date. An empty batch still records the fetch
    /// moment but does not rewrite the cached list.
    pub fn apply_fetch_success(&mut self, new_posts: Vec<Post>, now: i64)
        requires
            old(self).wf(),
        ensures
            final(self).wf(),
            final(self).posts.deep_view() == new_posts.deep_view() + old(self).posts.deep_view(),
            final(self).posts@.len() >= old(self).posts@.len(),
            match old(self).selection {
                Some(i) => final(self).selection matches Some(j) && j as int == i + new_posts@.len(),
                None => final(self).selection is None,
            },
            final(self).tick_count == 0,
            final(self).refresh_period == old(self).refresh_period,
            final(self).cache.last_fetched_at == Some(now),
            final(self).cache.refresh_tick == 0,
            new_posts@.len() > 0 ==> final(self).cache@.posts == final(self).posts.deep_view(),
            new_posts@.len() == 0 ==> final(self).cache@.posts == old(self).cache@.posts,
    {
        let n_new = new_posts.len();
        let ghost old_posts_dv = self.posts.deep_view();
        let ghost new_dv = new_posts.deep_view();
        let mut merged = new_posts;
        merged.append(&mut self.posts);
        self.posts = merged;
        proof {
            assert(self.posts.deep_view() =~= new_dv + old_posts_dv);
        }
        let total: usize = self.posts.len();
        self.selection = match self.selection {
            Some(i) => {
                assert(i < total - n_new);
                let shifted: usize = i + n_new;
                let last: usize = self.posts.len() - 1;
                let clamped: usize = if shifted <= last {
                    shifted
                } else {
                    last
                };
                Some(clamped)
            },
            None => None,
        };
        self.tick_count = 0;
        self.cache.last_fetched_at = Some(now);
        self.cache.refresh_tick = 0;
        if n_new > 0 {
            self.cache.posts = clone_posts(&self.posts);
        }
    }

    /// A due refresh failed: the state is left untouched, so the refresh
    /// fires again at the next tick and nothing the user sees changes.
    pub fn apply_fetch_failure(&mut self)
        ensures
            *final(self) == *old(self),
    {
    }

    /// The service acknowledged a like of the selected post: bump that
    /// post's like counter, touching nothing else.
    pub fn apply_like_success(&mut self)
        requires
            old(self).wf(),
            old(self).selection matches Some(i) && old(self).posts.deep_view()[i as int].like_count
                < u64::MAX,
        ensures
            final(self).wf(),
            old(self).selection matches Some(i) ==> final(self).posts.deep_view() == old(
                self,
            ).posts.deep_view().update(
                i as int,
                (PostView {
                    like_count: (old(self).posts.deep_view()[i as int].like_count + 1) as u64,
                    ..old(self).posts.deep_view()[i as int]
                }),
            ),
            final(self).selection == old(self).selection,
            final(self).tick_count == old(self).tick_count,
            final(self).refresh_period == old(self).refresh_period,
            final(self).cache == old(self).cache,
    {
        if let Some(i) = self.selection {
            let p = self.posts[i].clone();
            let updated = Post { like_count: p.like_count + 1, ..p };
            self.posts.set(i, updated);
            proof {
                assert(self.posts.deep_view() =~= old(self).posts.deep_view().update(
                    i as int,
                    (PostView {
                        like_count: (old(self).posts.deep_view()[i as int].like_count + 1) as u64,
                        ..old(self).posts.deep_view()[i as int]
                    }),
                ));
            }
        }
    }

    /// A like of the selected post failed: counters stay untouched and the
    /// loop goes on; the next event is processed as usual.
    pub fn apply_like_failure(&mut self)
        ensures
            *final(self) == *old(self),
    {
    }

    /// The service acknowledged a reshare of the selected post: bump that
    /// post's reshare counter, touching nothing else.
    pub fn apply_reshare_success(&mut self)
        requires
            old(self).wf(),
            old(self).selection matches Some(i) && old(
                self,
            ).posts.deep_view()[i as int].reshare_count < u64::MAX,
        ensures
            final(self).wf(),
            old(self).selection matches Some(i) ==> final(self).posts.deep_view() == old(
                self,
            ).posts.deep_view().update(
                i as int,
                (PostView {
                    reshare_count: (old(self).posts.deep_view()[i as int].reshare_count + 1) as u64,
                    ..old(self).posts.deep_view()[i as int]
                }),
            ),
            final(self).selection == old(self).selection,
            final(self).tick_count == old(self).tick_count,
            final(self).refresh_period == old(self).refresh_period,
            final(self).cache == old(self).cache,
    {
        if let Some(i) = self.selection {
            let p = self.posts[i].clone();
            let updated = Post { reshare_count: p.reshare_count + 1, ..p };
            self.posts.set(i, updated);
            proof {
                assert(self.posts.deep_view() =~= old(self).posts.deep_view().update(
                    i as int,
                    (PostView {
                        reshare_count: (old(self).posts.deep_view()[i as int].reshare_count
                            + 1) as u64,
                        ..old(self).posts.deep_view()[i as int]
                    }),
                ));
            }
        }
    }

    /// A reshare of the selected post failed: the state is left untouched.
    pub fn apply_reshare_failure(&mut self)
        ensures
            *final(self) == *old(self),
    {
    }
}

/// What startup decided: a session seeded from the fresh cache, or the need
/// for a full fetch first (then `startup_after_fetch`).
pub enum Startup {
    Ready(TimelineSession),
    FetchNeeded,
}

/// The startup rule: a durable cache that is fresh at `now` seeds the
/// session and spares the initial network fetch; anything else demands a
/// full fetch first.
pub fn startup(
    cache: Option<FeedCache>,
    now: i64,
    freshness_window: i64,
    refresh_period: u64,
) -> (r: Startup)
    requires
        refresh_period > 0,
    ensures
        match r {
            Startup::Ready(s) => {
                &&& cache matches Some(c)
                &&& spec_is_fresh(c.last_fetched_at, now as int, freshness_window as int)
                &&& s.wf()
                &&& s.posts.deep_view() == c@.posts
                &&& s.selection is None
                &&& s.tick_count == (if c.refresh_tick < refresh_period {
                    c.refresh_tick
                } else {
                    0
                })
                &&& s.refresh_period == refresh_period
                &&& s.cache == c
            },
            Startup::FetchNeeded => match cache {
                Some(c) => !spec_is_fresh(c.last_fetched_at, now as int, freshness_window as int),
                None => true,
            },
        },
{
    match cache {
        Some(c) => {
            if c.is_fresh(now, freshness_window) {
                let posts = clone_posts(&c.posts);
                let tick_count: u64 = if c.refresh_tick < refresh_period {
                    c.refresh_tick
                } else {
                    0
                };
                Startup::Ready(
                    TimelineSession {
                        posts,
                        selection: None,
                        tick_count,
                        refresh_period,
                        cache: c,
                    },
                )
            } else {
                Startup::FetchNeeded
            }
        },
        None => Startup::FetchNeeded,
    }
}

/// Builds the session after the full startup fetch; the caller then writes
/// the fresh cache record out before entering the loop.
pub fn startup_after_fetch(posts: Vec<Post>, now: i64, refresh_period: u64) -> (s: TimelineSession)
    requires
        refresh_period > 0,
    ensures
        s.wf(),
        s.posts.deep_view() == posts.deep_view(),
        s.selection is None,
        s.tick_count == 0,
        s.refresh_period == refresh_period,
        s.cache.last_fetched_at == Some(now),
        s.cache@.posts == posts.deep_view(),
        s.cache.refresh_tick == 0,
{
    let cached = clone_posts(&posts);
    TimelineSession {
        posts,
        selection: None,
        tick_count: 0,
        refresh_period,
        cache: FeedCache { last_fetched_at: Some(now), posts: cached, refresh_tick: 0 },
    }
}

} // verus!
