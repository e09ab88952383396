use fmt_sentinel::item::Comment;
use fmt_sentinel::merger::ListingOutcome;
use fmt_sentinel::merger::Merger;
use fmt_sentinel::merger::cursor_item_live;
use fmt_sentinel::merger::refresh_wait_secs;

fn mk(id: &str, created: u64) -> Comment {
    Comment {
        id: id.to_string(),
        parent_id: format!("t3_p_{}", id),
        link_id: format!("t3_l_{}", id),
        name: format!("t1_{}", id),
        author: "someone".to_string(),
        created_utc: created,
        permalink: format!("/r/sub/{}/", id),
        body: "hi".to_string(),
        replies: Vec::new(),
    }
}

#[test]
fn two_sources_drain_in_creation_order() {
    let mut m = Merger::new(2);
    // Source A yields an item created at t=10, source B one at t=5.
    match m.sources[0].on_listing(vec![mk("a", 10)]) {
        ListingOutcome::Accepted => {}
        _ => panic!("expected the listing to be accepted"),
    }
    match m.sources[1].on_listing(vec![mk("b", 5)]) {
        ListingOutcome::Accepted => {}
        _ => panic!("expected the listing to be accepted"),
    }
    let first = m.next_item().expect("an item is pending");
    let second = m.next_item().expect("a second item is pending");
    assert_eq!("b", first.id);
    assert_eq!("a", second.id);
    assert!(m.next_item().is_none());
}

#[test]
fn ties_go_to_the_first_source() {
    let mut m = Merger::new(3);
    m.sources[1].on_listing(vec![mk("x", 7)]);
    m.sources[2].on_listing(vec![mk("y", 7)]);
    let first = m.next_item().expect("an item is pending");
    assert_eq!("x", first.id);
}

#[test]
fn listings_unreverse_into_chronological_order() {
    let mut m = Merger::new(1);
    // The remote lists newest first.
    m.sources[0].on_listing(vec![mk("n3", 30), mk("n2", 20), mk("n1", 10)]);
    assert_eq!("n1", m.next_item().unwrap().id);
    assert_eq!("n2", m.next_item().unwrap().id);
    assert_eq!("n3", m.next_item().unwrap().id);
    assert!(m.next_item().is_none());
}

#[test]
fn window_keeps_the_ten_newest_names() {
    let mut m = Merger::new(1);
    let mut listing = Vec::new();
    for k in 0..15u64 {
        listing.push(mk(&format!("c{}", 15 - k), 1000 - k));
    }
    m.sources[0].on_listing(listing);
    assert_eq!(10, m.sources[0].recent_names.len());
    // The newest item's name sits at the front, as the next cursor.
    assert_eq!("t1_c15", m.sources[0].cursor().unwrap().as_str());
    assert_eq!("t1_c6", m.sources[0].recent_names[9].as_str());
}

#[test]
fn source_with_pending_items_is_not_fetched() {
    let mut m = Merger::new(1);
    assert!(m.sources[0].needs_fetch());
    m.sources[0].on_listing(vec![mk("a", 1)]);
    assert!(!m.sources[0].needs_fetch());
    m.next_item();
    assert!(m.sources[0].needs_fetch());
}

#[test]
fn deleted_cursor_is_popped_and_retried() {
    let mut m = Merger::new(1);
    m.sources[0].on_listing(vec![mk("a", 1)]);
    m.next_item();
    assert_eq!("t1_a", m.sources[0].cursor().unwrap().as_str());
    // The listing comes back empty although a cursor was supplied.
    let name = match m.sources[0].on_listing(Vec::new()) {
        ListingOutcome::CheckCursor { name } => name,
        _ => panic!("expected a cursor check"),
    };
    assert_eq!("t1_a", name);
    // The direct lookup finds the item deleted: pop the cursor, retry.
    assert!(m.sources[0].on_cursor_checked(false));
    assert!(m.sources[0].cursor().is_none());
    // The retried fetch, now cursor-less, returns a fresh listing.
    match m.sources[0].on_listing(vec![mk("b", 2)]) {
        ListingOutcome::Accepted => {}
        _ => panic!("expected the listing to be accepted"),
    }
    assert_eq!("b", m.next_item().unwrap().id);
}

#[test]
fn live_cursor_means_the_empty_listing_was_legitimate() {
    let mut m = Merger::new(1);
    m.sources[0].on_listing(vec![mk("a", 1)]);
    m.next_item();
    match m.sources[0].on_listing(Vec::new()) {
        ListingOutcome::CheckCursor { .. } => {}
        _ => panic!("expected a cursor check"),
    }
    assert!(!m.sources[0].on_cursor_checked(true));
    assert_eq!("t1_a", m.sources[0].cursor().unwrap().as_str());
}

#[test]
fn popping_an_empty_window_leaves_it_empty() {
    let mut m = Merger::new(1);
    assert!(m.sources[0].on_cursor_checked(false));
    assert_eq!(0, m.sources[0].recent_names.len());
}

#[test]
fn refresh_wait_respects_minimum_spacing() {
    assert_eq!(0, refresh_wait_secs(None, 1000));
    assert_eq!(5, refresh_wait_secs(Some(1000), 1000));
    assert_eq!(2, refresh_wait_secs(Some(1000), 1003));
    assert_eq!(0, refresh_wait_secs(Some(1000), 1005));
    assert_eq!(0, refresh_wait_secs(Some(1000), 2000));
    // A clock that stepped backwards counts as no elapsed time.
    assert_eq!(5, refresh_wait_secs(Some(1000), 999));
}

#[test]
fn only_an_existing_item_by_a_live_author_counts_as_live() {
    let alive = mk("a", 1);
    assert!(cursor_item_live(Some(&alive)));
    let mut gone = mk("b", 1);
    gone.author = "[deleted]".to_string();
    assert!(!cursor_item_live(Some(&gone)));
    assert!(!cursor_item_live(None));
}
