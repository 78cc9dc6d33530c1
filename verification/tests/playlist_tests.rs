use ytt::playlist::{read_page, traverse, PlaylistPage, PlaylistStep, PlaylistWalk};

fn page(ids: &[&str], token: Option<&str>) -> PlaylistPage {
    PlaylistPage {
        video_ids: ids.iter().map(|s| s.to_string()).collect(),
        continuation: token.map(|s| s.to_string()),
    }
}

#[test]
fn walk_goes_on_while_pages_bear_a_token() {
    let mut walk = PlaylistWalk::new();
    assert_eq!(walk.accept(page(&["a", "b"], Some("t1"))), PlaylistStep::Fetch("t1".to_string()));
    assert!(!walk.finished);
    assert_eq!(walk.accept(page(&["c"], Some("t2"))), PlaylistStep::Fetch("t2".to_string()));
    assert_eq!(walk.accept(page(&["d", "e"], None)), PlaylistStep::Finished);
    assert!(walk.finished);
    assert_eq!(walk.into_video_ids(), vec!["a", "b", "c", "d", "e"]);
}

#[test]
fn walk_ignores_pages_after_the_end() {
    let mut walk = PlaylistWalk::new();
    assert_eq!(walk.accept(page(&["a"], None)), PlaylistStep::Finished);
    assert_eq!(walk.accept(page(&["late"], Some("t"))), PlaylistStep::Finished);
    assert!(walk.finished);
    assert_eq!(walk.into_video_ids(), vec!["a"]);
}

#[test]
fn traversal_stops_at_the_first_page_without_token() {
    let pages = vec![
        page(&["a", "b"], Some("t1")),
        page(&["c"], None),
        page(&["never"], Some("t3")),
    ];
    let (ids, read) = traverse(pages);
    assert_eq!(ids, vec!["a", "b", "c"]);
    assert_eq!(read, 2);
}

#[test]
fn traversal_keeps_repeated_videos() {
    let pages = vec![page(&["a", "b"], Some("t1")), page(&["b", "a"], None)];
    let (ids, read) = traverse(pages);
    assert_eq!(ids, vec!["a", "b", "b", "a"]);
    assert_eq!(read, 2);
}

#[test]
fn traversal_of_a_single_or_no_page() {
    let (ids, read) = traverse(vec![page(&[], None)]);
    assert!(ids.is_empty());
    assert_eq!(read, 1);
    let (ids, read) = traverse(Vec::new());
    assert!(ids.is_empty());
    assert_eq!(read, 0);
    let (ids, read) = traverse(vec![page(&["a"], Some("t"))]);
    assert_eq!(ids, vec!["a"]);
    assert_eq!(read, 1);
}

#[test]
fn page_is_read_out_of_its_text() {
    let json = r#"{"contents":[{"playlistVideoRenderer":{"videoId":"aaaaaaaaaaa","title":{}}},{"playlistVideoRenderer":{"videoId":"bbbbbbbbbbb"}},{"continuationItemRenderer":{"continuationEndpoint":{"continuationCommand":{"token":"NEXT%3D","request":"CONTINUATION_REQUEST_TYPE_BROWSE"}}}}]}"#;
    let page = read_page(json);
    assert_eq!(page.video_ids, vec!["aaaaaaaaaaa", "bbbbbbbbbbb"]);
    assert_eq!(page.continuation, Some("NEXT%3D".to_string()));
}

#[test]
fn last_page_bears_no_token() {
    let json = r#"{"items":[{"playlistVideoRenderer":{"videoId":"ccccccccccc"}},{"playlistVideoRenderer":{"videoId":"ccccccccccc"}}]}"#;
    let page = read_page(json);
    assert_eq!(page.video_ids, vec!["ccccccccccc", "ccccccccccc"]);
    assert_eq!(page.continuation, None);
    assert_eq!(read_page(""), PlaylistPage { video_ids: Vec::new(), continuation: None });
    assert_eq!(read_page("{}"), PlaylistPage { video_ids: Vec::new(), continuation: None });
}

#[test]
fn text_that_ends_inside_a_value_gives_what_is_there() {
    let page = read_page(r#""playlistVideoRenderer":{"videoId":"abc"#);
    assert_eq!(page.video_ids, vec!["abc"]);
    let page = read_page(r#""continuationCommand":{"token":""}"#);
    assert_eq!(page.continuation, Some(String::new()));
}

#[test]
fn pages_read_from_text_drive_the_traversal() {
    let first = read_page(r#"[{"playlistVideoRenderer":{"videoId":"a"}},{"continuationCommand":{"token":"t"}}]"#);
    let second = read_page(r#"[{"playlistVideoRenderer":{"videoId":"b"}}]"#);
    let (ids, read) = traverse(vec![first, second]);
    assert_eq!(ids, vec!["a", "b"]);
    assert_eq!(read, 2);
}
