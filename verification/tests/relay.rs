use chirp_relay::account::TrackedAccount;
use chirp_relay::account::get_name_from_id;
use chirp_relay::batch::plan_batch;
use chirp_relay::batch::plan_fetch;
use chirp_relay::batch::process_planned;
use chirp_relay::batch::process_post;
use chirp_relay::batch::is_suppressed;
use chirp_relay::markdown::escape;
use chirp_relay::markdown::escape_link_url;
use chirp_relay::message::render_message;
use chirp_relay::numeral::u64_to_dec;
use chirp_relay::post::Post;
use chirp_relay::post::RelayError;
use chirp_relay::post::ReplyOutcome;
use chirp_relay::query::build_query_of_tweets_from_multiple_users;

fn account(name: &str, id: u64) -> TrackedAccount {
    TrackedAccount { name: String::from(name), id }
}

fn post(id: u64, author: u64, body: &str) -> Post {
    Post { id, author_id: Some(author), body: String::from(body), reply_target: None }
}

#[test]
fn query_joins_terms_with_or() {
    let users = vec![account("a", 12), account("b", 345)];
    let q = build_query_of_tweets_from_multiple_users(&users);
    assert_eq!(q, "from:12 OR from:345");
}

#[test]
fn query_single_account_has_no_separator() {
    let users = vec![account("a", 7)];
    assert_eq!(build_query_of_tweets_from_multiple_users(&users), "from:7");
}

#[test]
fn query_empty_registry_is_empty() {
    let users: Vec<TrackedAccount> = Vec::new();
    assert_eq!(build_query_of_tweets_from_multiple_users(&users), "");
}

#[test]
fn query_is_deterministic() {
    let users = vec![account("a", 3), account("b", 5)];
    let q1 = build_query_of_tweets_from_multiple_users(&users);
    let q2 = build_query_of_tweets_from_multiple_users(&users);
    assert_eq!(q1, q2);
}

#[test]
fn decimal_rendering_exact() {
    assert_eq!(u64_to_dec(0), "0");
    assert_eq!(u64_to_dec(9), "9");
    assert_eq!(u64_to_dec(10), "10");
    assert_eq!(u64_to_dec(1590199074457112044), "1590199074457112044");
    assert_eq!(u64_to_dec(u64::MAX), "18446744073709551615");
}

#[test]
fn name_lookup_finds_first_match() {
    let users = vec![account("one", 1), account("two", 2), account("also two", 2)];
    assert_eq!(get_name_from_id(2, &users), Some(&String::from("two")));
    assert_eq!(get_name_from_id(1, &users), Some(&String::from("one")));
}

#[test]
fn name_lookup_misses_unknown_id() {
    let users = vec![account("one", 1)];
    assert_eq!(get_name_from_id(9, &users), None);
}

#[test]
fn escape_prefixes_markup_characters() {
    assert_eq!(escape("a_b.c!"), "a\\_b\\.c\\!");
    assert_eq!(escape(""), "");
    assert_eq!(escape("plain"), "plain");
    assert_eq!(escape("\\"), "\\\\");
}

#[test]
fn escape_link_url_touches_only_link_specials() {
    assert_eq!(escape_link_url("https://x/(1)"), "https://x/(1\\)");
    assert_eq!(escape_link_url("a`b"), "a\\`b");
    assert_eq!(escape_link_url("a_b.c"), "a_b.c");
}

#[test]
fn suppression_marker_detected_inside_body() {
    assert!(is_suppressed(&post(1, 1, "前置質問箱後置")));
    assert!(!is_suppressed(&post(1, 1, "nothing here")));
}

#[test]
fn render_plain_post_exact_text() {
    let p = post(100, 1, "hello");
    let m = render_message("A", &p, &ReplyOutcome::NotAReply);
    assert_eq!(m, "A just [tweeted](https://fxtwitter.com/_/status/100):\nhello\n");
}

#[test]
fn render_repost_labelled_retweeted() {
    let p = post(101, 2, "RT @x: hi");
    let m = render_message("B", &p, &ReplyOutcome::NotAReply);
    assert_eq!(m, "B just [retweeted](https://fxtwitter.com/_/status/101):\nRT @x: hi\n");
}

#[test]
fn render_denied_reply_shows_placeholder() {
    let p = post(7, 1, "hi");
    let m = render_message("N", &p, &ReplyOutcome::Denied);
    assert_eq!(m, "N just [tweeted](https://fxtwitter.com/_/status/7):\nhi\n\\[你无权查看\\]");
    assert!(m.contains("你无权查看"));
}

#[test]
fn render_found_reply_quotes_target() {
    let p = post(8, 1, "answer");
    let m = render_message("N", &p, &ReplyOutcome::Found(String::from("question")));
    assert_eq!(
        m,
        "N just [tweeted](https://fxtwitter.com/_/status/8):\nanswer\n\nIn reply to:\nquestion"
    );
}

#[test]
fn plan_orders_ascending_and_drops_stale() {
    let posts = vec![post(103, 1, "c"), post(101, 1, "a"), post(102, 1, "b")];
    let planned = plan_batch(101, posts);
    let ids: Vec<u64> = planned.iter().map(|p| p.id).collect();
    assert_eq!(ids, vec![102, 103]);
}

#[test]
fn plan_drops_post_at_watermark() {
    let planned = plan_batch(50, vec![post(50, 1, "x")]);
    assert!(planned.is_empty());
}

#[test]
fn scenario_two_new_posts() {
    let users = vec![account("A", 1), account("B", 2)];
    // The search API reports newest first.
    let batch = vec![post(101, 2, "RT @x: hi"), post(100, 1, "hello")];
    let mut watermark: u64 = 50;
    let planned = plan_fetch(watermark, Some(batch));
    let replies = vec![ReplyOutcome::NotAReply, ReplyOutcome::NotAReply];
    let msgs = process_planned(&mut watermark, &planned, &replies, &users).unwrap();
    assert_eq!(msgs.len(), 2);
    assert_eq!(msgs[0], "A just [tweeted](https://fxtwitter.com/_/status/100):\nhello\n");
    assert_eq!(msgs[1], "B just [retweeted](https://fxtwitter.com/_/status/101):\nRT @x: hi\n");
    assert_eq!(watermark, 101);
}

#[test]
fn scenario_no_data_leaves_watermark_alone() {
    let users = vec![account("A", 1)];
    let mut watermark: u64 = 77;
    let planned = plan_fetch(watermark, None);
    assert!(planned.is_empty());
    let replies: Vec<ReplyOutcome> = Vec::new();
    let msgs = process_planned(&mut watermark, &planned, &replies, &users).unwrap();
    assert!(msgs.is_empty());
    assert_eq!(watermark, 77);
}

#[test]
fn suppressed_post_advances_watermark_without_message() {
    let users = vec![account("A", 1)];
    let mut watermark: u64 = 10;
    let p = post(42, 1, "質問箱のお知らせ");
    let r = process_post(&mut watermark, &p, &ReplyOutcome::NotAReply, &users);
    assert!(matches!(r, Ok(None)));
    assert_eq!(watermark, 42);
}

#[test]
fn unknown_author_aborts_batch() {
    let users = vec![account("A", 1)];
    let mut watermark: u64 = 0;
    let planned = plan_batch(0, vec![post(5, 1, "ok"), post(6, 99, "who?")]);
    let replies = vec![ReplyOutcome::NotAReply, ReplyOutcome::NotAReply];
    let r = process_planned(&mut watermark, &planned, &replies, &users);
    assert!(matches!(r, Err(RelayError::UnknownAuthor(Some(99)))));
    // The watermark already covers the offending post.
    assert_eq!(watermark, 6);
}

#[test]
fn missing_author_field_aborts() {
    let users = vec![account("A", 1)];
    let mut watermark: u64 = 0;
    let p = Post { id: 3, author_id: None, body: String::from("x"), reply_target: None };
    let r = process_post(&mut watermark, &p, &ReplyOutcome::NotAReply, &users);
    assert!(matches!(r, Err(RelayError::UnknownAuthor(None))));
}

#[test]
fn denied_reply_does_not_stop_the_batch() {
    let users = vec![account("A", 1)];
    let mut watermark: u64 = 0;
    let planned = plan_batch(0, vec![post(1, 1, "first"), post(2, 1, "second")]);
    let replies = vec![ReplyOutcome::Denied, ReplyOutcome::NotAReply];
    let msgs = process_planned(&mut watermark, &planned, &replies, &users).unwrap();
    assert_eq!(msgs.len(), 2);
    assert!(msgs[0].contains("你无权查看"));
    assert!(!msgs[1].contains("你无权查看"));
    assert_eq!(watermark, 2);
}

#[test]
fn watermark_keeps_previous_maximum() {
    let users = vec![account("A", 1)];
    let mut watermark: u64 = 500;
    let planned = plan_fetch(watermark, Some(vec![post(400, 1, "old")]));
    assert!(planned.is_empty());
    let replies: Vec<ReplyOutcome> = Vec::new();
    let msgs = process_planned(&mut watermark, &planned, &replies, &users).unwrap();
    assert!(msgs.is_empty());
    assert_eq!(watermark, 500);
}
