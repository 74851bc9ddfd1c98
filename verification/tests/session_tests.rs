use kuon_cli::cache::FeedCache;
use kuon_cli::input::Input;
use kuon_cli::post::Post;
use kuon_cli::session::{startup, startup_after_fetch, Command, Event, Startup, Step, TimelineSession};

fn plain_post(id: &str, author: &str, text: &str) -> Post {
    Post {
        id: String::from(id),
        author: String::from(author),
        text: String::from(text),
        like_count: 0,
        reshare_count: 0,
        reshared_from: None,
    }
}

fn session_with(posts: Vec<Post>) -> TimelineSession {
    TimelineSession {
        posts,
        selection: None,
        tick_count: 0,
        refresh_period: 60,
        cache: FeedCache { last_fetched_at: None, posts: Vec::new(), refresh_tick: 0 },
    }
}

fn three_posts() -> Vec<Post> {
    vec![
        plain_post("3", "ann", "newest"),
        plain_post("2", "bob", "middle"),
        plain_post("1", "cyd", "oldest"),
    ]
}

#[test]
fn select_next_on_empty_list_keeps_no_selection() {
    let mut s = session_with(Vec::new());
    let step = s.apply(Event::Input(Command::SelectNext));
    assert_eq!(step, Step::Continue);
    assert_eq!(s.selection, None);
}

#[test]
fn select_next_moves_and_saturates_at_end() {
    let mut s = session_with(three_posts());
    s.apply(Event::Input(Command::SelectNext));
    assert_eq!(s.selection, Some(1));
    s.apply(Event::Input(Command::SelectNext));
    assert_eq!(s.selection, Some(2));
    s.apply(Event::Input(Command::SelectNext));
    assert_eq!(s.selection, Some(2));
}

#[test]
fn select_prev_moves_and_saturates_at_start() {
    let mut s = session_with(three_posts());
    s.selection = Some(2);
    s.apply(Event::Input(Command::SelectPrev));
    assert_eq!(s.selection, Some(1));
    s.apply(Event::Input(Command::SelectPrev));
    assert_eq!(s.selection, Some(0));
    s.apply(Event::Input(Command::SelectPrev));
    assert_eq!(s.selection, Some(0));
}

#[test]
fn clear_selection_always_clears() {
    let mut s = session_with(three_posts());
    s.selection = Some(1);
    let step = s.apply(Event::Input(Command::ClearSelection));
    assert_eq!(step, Step::Continue);
    assert_eq!(s.selection, None);
}

#[test]
fn like_acknowledged_bumps_only_the_selected_counter() {
    let mut s = session_with(three_posts());
    s.selection = Some(0);
    let step = s.apply(Event::Input(Command::Like));
    assert_eq!(step, Step::LikeDue(String::from("3")));
    s.apply_like_success();
    assert_eq!(s.posts[0].like_count, 1);
    assert_eq!(s.posts[1].like_count, 0);
    assert_eq!(s.posts[2].like_count, 0);
    assert_eq!(s.selection, Some(0));
    assert_eq!(s.posts.len(), 3);
    assert_eq!(s.posts[0].id, "3");
    assert_eq!(s.posts[1].id, "2");
    assert_eq!(s.posts[2].id, "1");
}

#[test]
fn like_without_selection_is_refused() {
    let mut s = session_with(three_posts());
    let step = s.apply(Event::Input(Command::Like));
    assert_eq!(step, Step::NoSelection);
    assert_eq!(s.posts[0].like_count, 0);
}

#[test]
fn like_failure_changes_nothing_and_loop_goes_on() {
    let mut s = session_with(three_posts());
    s.selection = Some(1);
    let step = s.apply(Event::Input(Command::Like));
    assert_eq!(step, Step::LikeDue(String::from("2")));
    s.apply_like_failure();
    assert_eq!(s.posts[0].like_count, 0);
    assert_eq!(s.posts[1].like_count, 0);
    assert_eq!(s.posts[2].like_count, 0);
    assert_eq!(s.selection, Some(1));
    let step = s.apply(Event::Input(Command::SelectNext));
    assert_eq!(step, Step::Continue);
    assert_eq!(s.selection, Some(2));
}

#[test]
fn reshare_acknowledged_bumps_only_the_selected_counter() {
    let mut s = session_with(three_posts());
    s.selection = Some(2);
    let step = s.apply(Event::Input(Command::Reshare));
    assert_eq!(step, Step::ReshareDue(String::from("1")));
    s.apply_reshare_success();
    assert_eq!(s.posts[2].reshare_count, 1);
    assert_eq!(s.posts[0].reshare_count, 0);
    assert_eq!(s.selection, Some(2));
}

#[test]
fn tick_counts_up_until_the_refresh_boundary() {
    let mut s = session_with(three_posts());
    let step = s.apply(Event::Tick);
    assert_eq!(step, Step::Continue);
    assert_eq!(s.tick_count, 1);
}

#[test]
fn refresh_fires_at_the_boundary_with_the_newest_id_as_cursor() {
    let mut s = session_with(three_posts());
    s.tick_count = 59;
    let step = s.apply(Event::Tick);
    assert_eq!(step, Step::FetchDue(Some(3)));
    assert_eq!(s.tick_count, 59);

    s.apply_fetch_success(
        vec![plain_post("5", "dee", "newer"), plain_post("4", "eli", "new")],
        1000,
    );
    let ids: Vec<&str> = s.posts.iter().map(|p| p.id.as_str()).collect();
    assert_eq!(ids, vec!["5", "4", "3", "2", "1"]);
    assert_eq!(s.tick_count, 0);
    assert_eq!(s.cache.last_fetched_at, Some(1000));
    assert_eq!(s.cache.refresh_tick, 0);
    let cached: Vec<&str> = s.cache.posts.iter().map(|p| p.id.as_str()).collect();
    assert_eq!(cached, vec!["5", "4", "3", "2", "1"]);
}

#[test]
fn refresh_on_empty_list_asks_for_a_full_fetch() {
    let mut s = session_with(Vec::new());
    s.tick_count = 59;
    let step = s.apply(Event::Tick);
    assert_eq!(step, Step::FetchDue(None));
}

#[test]
fn refresh_with_non_numeric_newest_id_asks_for_a_full_fetch() {
    let mut s = session_with(vec![plain_post("abc", "ann", "odd id")]);
    s.tick_count = 59;
    let step = s.apply(Event::Tick);
    assert_eq!(step, Step::FetchDue(None));
}

#[test]
fn fetch_failure_leaves_the_countdown_so_the_next_tick_retries() {
    let mut s = session_with(three_posts());
    s.tick_count = 59;
    let step = s.apply(Event::Tick);
    assert!(matches!(step, Step::FetchDue(_)));
    s.apply_fetch_failure();
    assert_eq!(s.tick_count, 59);
    assert_eq!(s.posts.len(), 3);
    let step = s.apply(Event::Tick);
    assert!(matches!(step, Step::FetchDue(_)));
}

#[test]
fn fetch_success_shifts_the_selection_so_the_target_stays_put() {
    let mut s = session_with(three_posts());
    s.selection = Some(1);
    s.apply_fetch_success(vec![plain_post("5", "dee", "newer")], 7);
    assert_eq!(s.selection, Some(2));
    assert_eq!(s.posts[2].id, "2");
}

#[test]
fn empty_fetch_batch_updates_the_fetch_moment_but_not_the_cached_list() {
    let mut s = session_with(three_posts());
    s.cache.posts = vec![plain_post("3", "ann", "newest")];
    s.apply_fetch_success(Vec::new(), 42);
    assert_eq!(s.cache.last_fetched_at, Some(42));
    assert_eq!(s.cache.posts.len(), 1);
    assert_eq!(s.posts.len(), 3);
}

#[test]
fn quit_asks_for_the_exit_flush() {
    let mut s = session_with(three_posts());
    let step = s.apply(Event::Input(Command::Quit));
    assert_eq!(step, Step::Exit);
}

#[test]
fn posts_never_shrink_across_refreshes() {
    let mut s = session_with(Vec::new());
    let mut last_len = s.posts.len();
    for round in 0..3u64 {
        s.tick_count = 59;
        let step = s.apply(Event::Tick);
        assert!(matches!(step, Step::FetchDue(_)));
        let batch = if round == 1 {
            Vec::new()
        } else {
            vec![plain_post(&format!("{}", 10 + round), "ann", "more")]
        };
        s.apply_fetch_success(batch, round as i64);
        assert!(s.posts.len() >= last_len);
        last_len = s.posts.len();
    }
}

#[test]
fn startup_with_a_fresh_cache_skips_the_network() {
    let now: i64 = 1_000_000;
    let cache = FeedCache {
        last_fetched_at: Some(now - 30),
        posts: three_posts(),
        refresh_tick: 5,
    };
    match startup(Some(cache), now, 60, 60) {
        Startup::Ready(s) => {
            assert_eq!(s.posts.len(), 3);
            assert_eq!(s.posts[0].id, "3");
            assert_eq!(s.selection, None);
            assert_eq!(s.tick_count, 5);
            assert_eq!(s.cache.last_fetched_at, Some(now - 30));
        },
        Startup::FetchNeeded => panic!("a fresh cache must seed the session"),
    }
}

#[test]
fn startup_with_a_stale_cache_demands_a_fetch() {
    let now: i64 = 1_000_000;
    let cache = FeedCache {
        last_fetched_at: Some(now - 60),
        posts: three_posts(),
        refresh_tick: 0,
    };
    assert!(matches!(startup(Some(cache), now, 60, 60), Startup::FetchNeeded));
}

#[test]
fn startup_without_a_cache_demands_a_fetch() {
    assert!(matches!(startup(None, 12, 60, 60), Startup::FetchNeeded));
}

#[test]
fn startup_after_fetch_writes_a_fresh_cache_record() {
    let s = startup_after_fetch(three_posts(), 777, 60);
    assert_eq!(s.tick_count, 0);
    assert_eq!(s.selection, None);
    assert_eq!(s.cache.last_fetched_at, Some(777));
    assert_eq!(s.cache.refresh_tick, 0);
    assert_eq!(s.cache.posts.len(), 3);
    assert_eq!(s.cache.posts[1].id, "2");
}

#[test]
fn input_editing_appends_and_removes_characters() {
    let mut input = Input::new();
    input.push_char('h');
    input.push_char('i');
    assert_eq!(input.value, "hi");
    input.backspace();
    assert_eq!(input.value, "h");
    input.backspace();
    assert_eq!(input.value, "");
    input.backspace();
    assert_eq!(input.value, "");
}
