use zcash_radio_scan::{
    default_denylist, extract_video_id, is_valid_youtube_id, parses_as_url, post_video_ids, process_posts,
    source_post_url, topic_json_url, trim_trailing_slashes, video_id_from_parts, Denylist, Post,
};

fn post(n: i64, cooked: &str, user: &str) -> Post {
    Post {
        post_number: n,
        cooked: cooked.to_string(),
        username: user.to_string(),
    }
}

fn deny(ids: &[&str]) -> Denylist {
    Denylist::from_ids(ids.iter().map(|s| s.to_string()).collect())
}

#[test]
fn test_is_valid_youtube_id() {
    assert!(is_valid_youtube_id("aaaaaaaaaaa"));
    assert!(!is_valid_youtube_id("short"));
    assert!(!is_valid_youtube_id("invalid$chars"));
}

#[test]
fn test_extract_video_id_various() {
    assert_eq!(
        extract_video_id("https://youtu.be/AAAAAAAAAAA"),
        Some("AAAAAAAAAAA".into())
    );
    assert_eq!(
        extract_video_id("https://www.youtube.com/watch?v=BBBBBBBBBBB"),
        Some("BBBBBBBBBBB".into())
    );
    assert_eq!(
        extract_video_id("https://youtube.com/shorts/CCCCCCCCCCC"),
        Some("CCCCCCCCCCC".into())
    );
    assert_eq!(
        extract_video_id("https://www.youtube.com/embed/DDDDDDDDDDD/extra"),
        Some("DDDDDDDDDDD".into())
    );
    assert_eq!(
        extract_video_id("https://www.youtube.com/live/EEEEEEEEEEE?feature=share"),
        Some("EEEEEEEEEEE".into())
    );
    assert_eq!(
        extract_video_id("https://example.com/watch?v=AAAAAAAAAAA"),
        None
    );
    assert_eq!(extract_video_id("https://youtu.be/SHORT"), None);
    assert_eq!(
        extract_video_id("https://www.youtube.com/watch?v=invalidid"),
        None
    );
    assert_eq!(extract_video_id("https://www.youtube.com/user/some"), None);
}

#[test]
fn test_process_posts_dedup_and_denylist() {
    let posts = vec![
        post(1, "<a href=\"https://youtu.be/AAAAAAAAAAA\">one</a>", "alice"),
        post(
            2,
            "<a href=\"https://www.youtube.com/watch?v=BBBBBBBBBBB\">two</a>",
            "bob",
        ),
        post(3, "<a href=\"https://youtu.be/BBBBBBBBBBB\">dup</a>", "carol"),
        post(4, "<a href=\"https://example.com/video\">nope</a>", "dave"),
    ];
    let denylist = deny(&["AAAAAAAAAAA"]);
    let map = process_posts(&posts, "https://forum", &denylist);
    assert_eq!(map.len(), 1);
    let entry = map.get("BBBBBBBBBBB").unwrap();
    assert_eq!(entry.source_post_url, "https://forum/2");
    assert_eq!(entry.username, "bob");
}

#[test]
fn test_default_denylist_parses() {
    assert!(default_denylist().contains("G7g44Bca1UQ"));
}

#[test]
fn normalizer_other_shapes() {
    assert_eq!(
        extract_video_id("https://m.youtube.com/watch?feature=x&v=FFFFFFFFFFF&v=GGGGGGGGGGG"),
        Some("FFFFFFFFFFF".into())
    );
    assert_eq!(
        extract_video_id("https://YOUTU.BE/HHHHHHHHHHH"),
        None,
        "the cheap filter looks for the lower-case domain"
    );
    assert_eq!(
        extract_video_id("http://music.youtube.com/shorts/a-b_c-d_e-f"),
        Some("a-b_c-d_e-f".into())
    );
    assert_eq!(extract_video_id("https://youtube.com/shorts/"), None);
    assert_eq!(extract_video_id("https://youtu.be/"), None);
    assert_eq!(extract_video_id("not a url youtu.be"), None);
    assert_eq!(extract_video_id("https://youtube.com.evil.org/watch?v=AAAAAAAAAAA"), None);
    assert_eq!(extract_video_id("https://www.youtube.com/watch?v=AAAAAAAAAAAA"), None);
}

#[test]
fn normalizer_from_parts() {
    let q = vec![("v".to_string(), "IIIIIIIIIII".to_string())];
    assert_eq!(
        video_id_from_parts("www.youtube.com", "/watch", &q),
        Some("IIIIIIIIIII".into())
    );
    assert_eq!(video_id_from_parts("youtube.org", "/watch", &q), None);
    assert_eq!(
        video_id_from_parts("youtu.be", "/JJJJJJJJJJJ/x", &vec![]),
        Some("JJJJJJJJJJJ".into())
    );
    assert_eq!(video_id_from_parts("youtu.be", "/watch", &q), None);
    assert_eq!(
        video_id_from_parts("youtube.com", "/live/KKKKKKKKKKK", &vec![]),
        Some("KKKKKKKKKKK".into())
    );
    assert_eq!(video_id_from_parts("youtube.com", "/user/KKKKKKKKKKK", &vec![]), None);
}

#[test]
fn scenario_dedup_and_denylist() {
    let posts = vec![
        post(1, "<p><a href=\"https://youtu.be/AAAAAAAAAAA\">a</a></p>", "alice"),
        post(2, "<a href=\"https://youtu.be/BBBBBBBBBBB\">b</a>", "bob"),
        post(3, "<a href=\"https://youtu.be/BBBBBBBBBBB\">b again</a>", "carol"),
        post(4, "<a href=\"https://vimeo.com/12345\">elsewhere</a>", "dave"),
    ];
    let map = process_posts(&posts, "https://forum.example/t/x/9", &deny(&["AAAAAAAAAAA"]));
    assert_eq!(map.len(), 1);
    let e = map.get("BBBBBBBBBBB").unwrap();
    assert_eq!(e.username, "bob");
    assert!(e.source_post_url.ends_with("/2"));
    assert!(map.get("AAAAAAAAAAA").is_none());
}

#[test]
fn dedup_counts_distinct_ids_in_first_seen_order() {
    let posts = vec![
        post(
            10,
            "<a href=\"https://youtu.be/CCCCCCCCCCC\">c</a> <a href=\"https://youtu.be/DDDDDDDDDDD\">d</a>",
            "erin",
        ),
        post(
            11,
            "<a href=\"https://youtu.be/DDDDDDDDDDD\">d</a><a href=\"https://www.youtube.com/embed/EEEEEEEEEEE\">e</a><a>no href</a>",
            "frank",
        ),
        post(12, "<a href=\"https://youtu.be/AAAAAAAAAAA\">a</a>", "gina"),
        post(13, "<a href=\"https://youtu.be/AAAAAAAAAAA\">a</a>", "hal"),
    ];
    let map = process_posts(&posts, "https://f", &deny(&["AAAAAAAAAAA", "ZZZZZZZZZZZ"]));
    assert_eq!(map.len(), 3);
    let ids: Vec<&str> = map.entries().iter().map(|e| e.video_id.as_str()).collect();
    assert_eq!(ids, vec!["CCCCCCCCCCC", "DDDDDDDDDDD", "EEEEEEEEEEE"]);
    assert_eq!(map.get("DDDDDDDDDDD").unwrap().source_post_url, "https://f/10");
    assert_eq!(map.get("EEEEEEEEEEE").unwrap().username, "frank");
    assert!(!map.contains_key("AAAAAAAAAAA"));
    assert!(map.entries().iter().all(|e| e.tip_unified_address.is_none()));
}

#[test]
fn extraction_is_repeatable() {
    let posts = vec![
        post(1, "<a href=\"https://youtu.be/CCCCCCCCCCC\">c</a>", "a"),
        post(2, "<a href=\"https://youtu.be/DDDDDDDDDDD\">d</a>", "b"),
    ];
    let d = deny(&[]);
    let first = process_posts(&posts, "https://f", &d);
    let second = process_posts(&posts, "https://f", &d);
    assert_eq!(first.entries(), second.entries());
}

#[test]
fn empty_inputs() {
    let map = process_posts(&[], "https://f", &deny(&[]));
    assert_eq!(map.len(), 0);
    assert!(post_video_ids("").is_empty());
}

#[test]
fn post_ids_in_document_order() {
    let html = "<a href=\"https://youtu.be/BBBBBBBBBBB\">1</a><a href=\"https://example.com\">x</a><a href=\"https://youtu.be/AAAAAAAAAAA\">2</a><a href=\"https://youtu.be/BBBBBBBBBBB\">3</a>";
    assert_eq!(
        post_video_ids(html),
        vec!["BBBBBBBBBBB", "AAAAAAAAAAA", "BBBBBBBBBBB"]
    );
}

#[test]
fn post_links_numbered() {
    assert_eq!(source_post_url("https://f/t/x", 0), "https://f/t/x/0");
    assert_eq!(source_post_url("https://f/t/x", 1234567), "https://f/t/x/1234567");
    assert_eq!(source_post_url("t", -45), "t/-45");
    assert_eq!(source_post_url("t", i64::MIN), "t/-9223372036854775808");
    assert_eq!(source_post_url("t", i64::MAX), "t/9223372036854775807");
}

#[test]
fn topic_link_must_parse() {
    assert!(parses_as_url("https://forum.example/t/x/1"));
    assert!(!parses_as_url("forum.example/t/x/1"));
    assert!(!parses_as_url(""));
}

#[test]
fn topic_links() {
    assert_eq!(trim_trailing_slashes("https://f/t/x//"), "https://f/t/x");
    assert_eq!(trim_trailing_slashes("https://f/t/x"), "https://f/t/x");
    assert_eq!(topic_json_url("https://f/t/x/"), "https://f/t/x.json?print=true");
}

#[test]
fn denylist_lines() {
    let text = "# header\n\nAAAAAAAAAAA\r\n  BBBBBBBBBBB | a note # comment\nshort\n#CCCCCCCCCCC\nDDDDDDDDDDD#x\n| EEEEEEEEEEE\nFFFFFFFFFFF";
    let d = Denylist::parse(text);
    assert!(d.contains("AAAAAAAAAAA"));
    assert!(d.contains("BBBBBBBBBBB"));
    assert!(!d.contains("CCCCCCCCCCC"));
    assert!(d.contains("DDDDDDDDDDD"));
    assert!(!d.contains("EEEEEEEEEEE"));
    assert!(d.contains("FFFFFFFFFFF"));
    assert!(!d.contains("short"));
    assert!(!Denylist::parse("").contains(""));
}
