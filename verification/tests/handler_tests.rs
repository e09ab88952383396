use fmt_sentinel::handler::ReplyDecision;
use fmt_sentinel::handler::Screening;
use fmt_sentinel::handler::decide_reply;
use fmt_sentinel::handler::screen_item;
use fmt_sentinel::item::Comment;
use fmt_sentinel::item::find_comment;
use fmt_sentinel::item::strip_type;

const BOT: &str = "fmt-sentinel";

fn mk(id: &str, author: &str, body: &str, replies: Vec<Comment>) -> Comment {
    Comment {
        id: id.to_string(),
        parent_id: format!("t1_parent_of_{}", id),
        link_id: "t3_link".to_string(),
        name: format!("t1_{}", id),
        author: author.to_string(),
        created_utc: 100,
        permalink: format!("/r/sub/{}/", id),
        body: body.to_string(),
        replies,
    }
}

#[test]
fn strip_type_drops_only_a_kind_tag() {
    assert_eq!("abc", strip_type("t1_abc"));
    assert_eq!("link", strip_type("t3_link"));
    assert_eq!("x1_abc", strip_type("x1_abc"));
    assert_eq!("tx_abc", strip_type("tx_abc"));
    assert_eq!("t1-abc", strip_type("t1-abc"));
    assert_eq!("ab", strip_type("ab"));
    assert_eq!("", strip_type(""));
}

#[test]
fn find_comment_checks_direct_children_before_descending() {
    let deep = mk("dup", "deep-author", "deep", Vec::new());
    let child_with_deep = mk("c1", "a1", "x", vec![deep]);
    let dup_direct = mk("dup", "direct-author", "direct", Vec::new());
    let tree = vec![child_with_deep, dup_direct];
    let hit = find_comment(&tree, "dup").expect("present");
    assert_eq!("direct-author", hit.author);
    let miss = find_comment(&tree, "absent");
    assert!(miss.is_none());
    let nested = find_comment(&tree, "c1").expect("present");
    assert_eq!("a1", nested.author);
}

#[test]
fn own_items_are_never_considered() {
    let item = mk("i1", BOT, "```\ncode\n```", Vec::new());
    match screen_item(&item, BOT) {
        Screening::OwnItem => {}
        _ => panic!("an own item must be ignored"),
    }
}

#[test]
fn undecodable_bodies_are_skipped() {
    let item = mk("i1", "user", "&#xffffff;", Vec::new());
    match screen_item(&item, BOT) {
        Screening::UndecodableBody => {}
        _ => panic!("the body does not decode"),
    }
}

#[test]
fn unflagged_bodies_need_no_tree() {
    let item = mk("i1", "user", "    indented\n", Vec::new());
    match screen_item(&item, BOT) {
        Screening::NoOffendingFeature => {}
        _ => panic!("no offending feature in the body"),
    }
}

#[test]
fn flagged_bodies_ask_for_the_stripped_link_tree() {
    let item = mk("i1", "user", "```\n&amp;\n```", Vec::new());
    match screen_item(&item, BOT) {
        Screening::NeedsTree { link } => assert_eq!("link", link),
        _ => panic!("the body is flagged"),
    }
}

#[test]
fn entity_encoding_alone_does_not_hide_the_feature() {
    // The raw body carries the fence only after decoding.
    let item = mk("i1", "user", "&#x60;&#x60;&#x60;\nhi\n&#x60;&#x60;&#x60;", Vec::new());
    match screen_item(&item, BOT) {
        Screening::NeedsTree { .. } => {}
        _ => panic!("the decoded body is flagged"),
    }
}

#[test]
fn fresh_flagged_item_gets_the_reply() {
    let item = mk("i1", "user", "```\ncode\n```", Vec::new());
    let in_tree = mk("i1", "user", "```\ncode\n```", Vec::new());
    let tree = vec![mk("top", "other", "hello", vec![in_tree])];
    match decide_reply(&item, &tree, BOT, 3600) {
        ReplyDecision::Post { body, target } => {
            assert_eq!("t1_i1", target);
            assert!(body.starts_with("Your comment uses fenced code blocks"));
            assert!(body.contains("[old](https://old.reddit.com/r/sub/i1/)"));
        }
        _ => panic!("a fresh flagged item warrants the reply"),
    }
}

#[test]
fn an_item_aged_a_day_and_more_is_left_alone() {
    let item = mk("i1", "user", "```\ncode\n```", Vec::new());
    let in_tree = mk("i1", "user", "```\ncode\n```", Vec::new());
    let tree = vec![mk("top", "other", "hello", vec![in_tree])];
    // 25 hours.
    match decide_reply(&item, &tree, BOT, 25 * 3600) {
        ReplyDecision::TooOld => {}
        _ => panic!("an item aged over a day is never replied to"),
    }
    // Exactly the maximum age still passes.
    match decide_reply(&item, &tree, BOT, 24 * 3600) {
        ReplyDecision::Post { .. } => {}
        _ => panic!("an item at the maximum age is still replied to"),
    }
}

#[test]
fn an_already_answered_item_is_not_answered_again() {
    let ours = mk("r1", BOT, "Your comment uses fenced code blocks", Vec::new());
    let in_tree = mk("i1", "user", "```\ncode\n```", vec![ours]);
    let tree = vec![in_tree];
    let item = mk("i1", "user", "```\ncode\n```", Vec::new());
    match decide_reply(&item, &tree, BOT, 60) {
        ReplyDecision::AlreadyReplied => {}
        _ => panic!("our reply already stands"),
    }
}

#[test]
fn an_item_missing_from_its_tree_is_skipped() {
    let tree = vec![mk("top", "other", "hello", Vec::new())];
    let item = mk("gone", "user", "```\ncode\n```", Vec::new());
    match decide_reply(&item, &tree, BOT, 60) {
        ReplyDecision::NotInTree => {}
        _ => panic!("the item is not in the tree"),
    }
}
