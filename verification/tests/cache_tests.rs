use kuon_cli::cache::FeedCache;
use kuon_cli::codec::{decode_cache, encode_cache};
use kuon_cli::post::{OriginalPost, Post};

fn sample_cache() -> FeedCache {
    FeedCache {
        last_fetched_at: Some(-1234),
        posts: vec![
            Post {
                id: String::from("42"),
                author: String::from("ann \"the\" author"),
                text: String::from("line one\nline\ttwo \\ done\r"),
                like_count: 7,
                reshare_count: 18446744073709551615,
                reshared_from: None,
            },
            Post {
                id: String::from("41"),
                author: String::from("bob"),
                text: String::from("passing on — ünïcödé 🙂"),
                like_count: 0,
                reshare_count: 1,
                reshared_from: Some(OriginalPost {
                    id: String::from("40"),
                    author: String::from("cyd"),
                    text: String::from("the original"),
                    like_count: 3,
                    reshare_count: 4,
                }),
            },
        ],
        refresh_tick: 59,
    }
}

#[test]
fn freshness_holds_inside_the_window() {
    let c = FeedCache { last_fetched_at: Some(970), posts: Vec::new(), refresh_tick: 0 };
    assert!(c.is_fresh(1000, 60));
}

#[test]
fn freshness_fails_at_and_past_the_window() {
    let c = FeedCache { last_fetched_at: Some(940), posts: Vec::new(), refresh_tick: 0 };
    assert!(!c.is_fresh(1000, 60));
    let c = FeedCache { last_fetched_at: Some(900), posts: Vec::new(), refresh_tick: 0 };
    assert!(!c.is_fresh(1000, 60));
}

#[test]
fn freshness_fails_without_a_recorded_fetch() {
    let c = FeedCache { last_fetched_at: None, posts: Vec::new(), refresh_tick: 0 };
    assert!(!c.is_fresh(0, 60));
}

#[test]
fn freshness_tolerates_a_clock_that_ran_backwards() {
    let c = FeedCache { last_fetched_at: Some(2000), posts: Vec::new(), refresh_tick: 0 };
    assert!(c.is_fresh(1000, 60));
}

#[test]
fn freshness_check_is_idempotent_for_one_clock_value() {
    let c = FeedCache { last_fetched_at: Some(970), posts: Vec::new(), refresh_tick: 0 };
    let first = c.is_fresh(1000, 60);
    let second = c.is_fresh(1000, 60);
    assert_eq!(first, second);
}

#[test]
fn saving_and_loading_reproduces_the_record() {
    let original = sample_cache();
    let text = encode_cache(&original);
    let loaded = decode_cache(text.as_str()).expect("the encoder's output must read back");
    assert_eq!(loaded.last_fetched_at, original.last_fetched_at);
    assert_eq!(loaded.refresh_tick, original.refresh_tick);
    assert_eq!(loaded.posts.len(), original.posts.len());
    for (a, b) in loaded.posts.iter().zip(original.posts.iter()) {
        assert_eq!(a.id, b.id);
        assert_eq!(a.author, b.author);
        assert_eq!(a.text, b.text);
        assert_eq!(a.like_count, b.like_count);
        assert_eq!(a.reshare_count, b.reshare_count);
        match (&a.reshared_from, &b.reshared_from) {
            (None, None) => {},
            (Some(x), Some(y)) => {
                assert_eq!(x.id, y.id);
                assert_eq!(x.author, y.author);
                assert_eq!(x.text, y.text);
                assert_eq!(x.like_count, y.like_count);
                assert_eq!(x.reshare_count, y.reshare_count);
            },
            _ => panic!("reshare field lost in the round trip"),
        }
    }
}

#[test]
fn an_empty_record_round_trips_too() {
    let original = FeedCache { last_fetched_at: None, posts: Vec::new(), refresh_tick: 0 };
    let text = encode_cache(&original);
    assert_eq!(text, "{\"last_fetched_at\":null,\"refresh_tick\":0,\"posts\":[]}");
    let loaded = decode_cache(text.as_str()).expect("the encoder's output must read back");
    assert_eq!(loaded.last_fetched_at, None);
    assert_eq!(loaded.refresh_tick, 0);
    assert!(loaded.posts.is_empty());
}

#[test]
fn the_written_text_has_the_documented_shape() {
    let c = FeedCache {
        last_fetched_at: Some(5),
        posts: vec![Post {
            id: String::from("1"),
            author: String::from("a"),
            text: String::from("hi"),
            like_count: 0,
            reshare_count: 0,
            reshared_from: None,
        }],
        refresh_tick: 2,
    };
    assert_eq!(
        encode_cache(&c),
        "{\"last_fetched_at\":5,\"refresh_tick\":2,\"posts\":[{\"id\":\"1\",\"author\":\"a\",\"text\":\"hi\",\"like_count\":0,\"reshare_count\":0,\"reshared_from\":null}]}"
    );
}

#[test]
fn absent_or_foreign_content_reads_as_a_cache_miss() {
    assert!(decode_cache("").is_none());
    assert!(decode_cache("not a cache file").is_none());
    assert!(decode_cache("{\"something\":1}").is_none());
}

#[test]
fn truncated_or_padded_content_reads_as_a_cache_miss() {
    let text = encode_cache(&sample_cache());
    let mut truncated = String::from(text.as_str());
    truncated.pop();
    assert!(decode_cache(truncated.as_str()).is_none());
    let mut padded = String::from(text.as_str());
    padded.push(' ');
    assert!(decode_cache(padded.as_str()).is_none());
}
