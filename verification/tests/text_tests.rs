use fmt_sentinel::item::Comment;
use fmt_sentinel::text::contains_substring;
use fmt_sentinel::text::escape_markdown_link;
use fmt_sentinel::text::str_eq;
use fmt_sentinel::text::write_reply;

#[test]
fn test_escape_markdown_link() {
    let tests: &[(&'static str, &'static str)] = &[
        ("/test", "/test"),
        ("/ test", "/%20test"),
        ("/ ", "/%20"),
        ("/\n", "/%0A"),
        ("/(x)", "/\\(x\\)"),
    ];
    for (input, expect) in tests {
        assert_eq!(*expect, escape_markdown_link(input).as_str());
    }
}

#[test]
fn escape_keeps_unicode_and_encodes_del() {
    assert_eq!("caf\u{e9}", escape_markdown_link("caf\u{e9}").as_str());
    assert_eq!("%7F", escape_markdown_link("\u{7f}").as_str());
    assert_eq!("a%09b", escape_markdown_link("a\tb").as_str());
}

#[test]
fn str_eq_compares_characters() {
    assert!(str_eq("", ""));
    assert!(str_eq("abc", "abc"));
    assert!(!str_eq("abc", "abd"));
    assert!(!str_eq("abc", "ab"));
    assert!(str_eq("\u{e9}x", "\u{e9}x"));
}

#[test]
fn contains_substring_finds_marker() {
    assert!(contains_substring("EDIT: Thanks!", "EDIT:"));
    assert!(contains_substring("before EDIT: after", "EDIT:"));
    assert!(!contains_substring("EDIT", "EDIT:"));
    assert!(!contains_substring("", "EDIT:"));
    assert!(contains_substring("anything", ""));
}

fn mk_comment(permalink: &str) -> Comment {
    Comment {
        id: "abc".to_string(),
        parent_id: "t3_link".to_string(),
        link_id: "t3_link".to_string(),
        name: "t1_abc".to_string(),
        author: "someone".to_string(),
        created_utc: 100,
        permalink: permalink.to_string(),
        body: "".to_string(),
        replies: Vec::new(),
    }
}

#[test]
fn write_reply_escapes_permalink_in_both_links() {
    let comment = mk_comment("/r/sub/comments/x/a (1)/");
    let mut out = String::new();
    write_reply(&mut out, &comment);
    let p = "/r/sub/comments/x/a%20\\(1\\)/";
    let expect = format!(
        "Your comment uses fenced code blocks (e.g. blocks surrounded \nwith ```` ``` ````). These don't render correctly in old \nreddit even if you authored them in new reddit. Please use \ncode blocks indented with 4 spaces instead. See what the \ncomment looks like in \n[new](https://new.reddit.com{p}) \nand \n[old](https://old.reddit.com{p}) \nreddit.",
        p = p
    );
    assert_eq!(expect, out);
}

#[test]
fn write_reply_appends_after_existing_text() {
    let comment = mk_comment("/r/a/");
    let mut out = String::from("EDIT: Thanks for editing your comment!\n\n");
    write_reply(&mut out, &comment);
    assert!(out.starts_with("EDIT: Thanks for editing your comment!\n\nYour comment uses"));
    assert!(out.contains("[new](https://new.reddit.com/r/a/)"));
}
