use kuon_cli::post::{OriginalPost, Post, TweetView};
use kuon_cli::render::{parse_display_type, render_json, timeline_rows, to_ascii_lower, DisplayType};

fn plain_post(id: &str, author: &str, text: &str) -> Post {
    Post {
        id: String::from(id),
        author: String::from(author),
        text: String::from(text),
        like_count: 2,
        reshare_count: 5,
        reshared_from: None,
    }
}

fn reshare_post() -> Post {
    Post {
        id: String::from("9"),
        author: String::from("rae"),
        text: String::from("RT text"),
        like_count: 0,
        reshare_count: 0,
        reshared_from: Some(OriginalPost {
            id: String::from("8"),
            author: String::from("ori"),
            text: String::from("the original words"),
            like_count: 11,
            reshare_count: 4,
        }),
    }
}

#[test]
fn display_words_parse_without_regard_to_case() {
    assert_eq!(parse_display_type("standard"), Ok(DisplayType::Standard));
    assert_eq!(parse_display_type("JSON"), Ok(DisplayType::Json));
    assert_eq!(parse_display_type("Csv"), Ok(DisplayType::Csv));
}

#[test]
fn an_unknown_display_word_is_an_error() {
    assert_eq!(parse_display_type("xml"), Err(String::from("no match string")));
    assert_eq!(parse_display_type(""), Err(String::from("no match string")));
}

#[test]
fn lower_casing_touches_only_ascii_letters() {
    assert_eq!(to_ascii_lower("AbC-12Ö"), "abc-12Ö");
}

#[test]
fn the_standard_line_names_author_and_text() {
    let tv = TweetView::from_post(&plain_post("3", "ann", "hello"));
    assert_eq!(tv.render_standard_line(), "ann\n hello\n\n");
}

#[test]
fn the_standard_line_of_a_reshare_names_both_authors() {
    let tv = TweetView::from_post(&reshare_post());
    assert_eq!(tv.render_standard_line(), "ori RT:@rae\n the original words\n\n");
}

#[test]
fn the_csv_line_flattens_newlines_onto_one_line() {
    let tv = TweetView::from_post(&plain_post("3", "ann", "two\nlines"));
    assert_eq!(tv.render_csv_line(), "3\tann\ttwo lines\n");
}

#[test]
fn the_csv_line_of_a_reshare_appends_the_resharing_author() {
    let tv = TweetView::from_post(&reshare_post());
    assert_eq!(tv.render_csv_line(), "8\tori\tthe original words\trae\n");
}

#[test]
fn the_projection_flattens_a_reshare_to_the_original() {
    let tv = TweetView::from_post(&reshare_post());
    assert_eq!(tv.id, "8");
    assert_eq!(tv.user_name, "ori");
    assert_eq!(tv.retweet_user_name, Some(String::from("rae")));
    assert_eq!(tv.tweet, "the original words");
    assert_eq!(tv.retweet_count, 4);
    assert_eq!(tv.favorite_count, 11);
}

#[test]
fn the_json_display_is_the_wire_schema() {
    let posts = vec![plain_post("3", "ann", "hello")];
    assert_eq!(
        render_json(&posts),
        "[{\"id\":\"3\",\"author\":\"ann\",\"text\":\"hello\",\"like_count\":2,\"reshare_count\":5,\"reshared_from\":null}]"
    );
}

#[test]
fn expanded_rows_hold_heading_wrapped_text_counters_and_a_blank() {
    let tv = TweetView::from_post(&plain_post("3", "ann", "hello world"));
    let rows = tv.to_rows(80, true);
    assert_eq!(rows, vec!["ann", "hello world", "🔁 5 ❤️ 2", ""]);
}

#[test]
fn expanded_rows_wrap_the_text_to_the_width() {
    let tv = TweetView::from_post(&plain_post("3", "ann", "aaa bbb ccc"));
    let rows = tv.to_rows(7, true);
    assert_eq!(rows, vec!["ann", "aaa bbb", "ccc", "🔁 5 ❤️ 2", ""]);
}

#[test]
fn expanded_rows_of_a_reshare_name_the_resharer_in_the_heading() {
    let tv = TweetView::from_post(&reshare_post());
    let rows = tv.to_rows(80, true);
    assert_eq!(rows[0], "ori 🔁 rae Retweeted");
    assert_eq!(rows[2], "🔁 4 ❤️ 11");
}

#[test]
fn the_list_transform_concatenates_per_post_rows() {
    let posts = vec![plain_post("3", "ann", "one"), plain_post("2", "bob", "two")];
    let compact = timeline_rows(&posts, 80, false);
    assert_eq!(compact, vec!["ann\n one\n\n", "bob\n two\n\n"]);
    let expanded = timeline_rows(&posts, 80, true);
    assert_eq!(
        expanded,
        vec!["ann", "one", "🔁 5 ❤️ 2", "", "bob", "two", "🔁 5 ❤️ 2", ""]
    );
}
