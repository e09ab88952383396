use fmt_sentinel::detect::contains_fenced_block;
use fmt_sentinel::detect::decode_transport_text;

#[test]
fn test_fenced_block() {
    let tests: &[(bool, &'static str)] = &[
        (true, "```\nhi\n```"),
        (true, "x\n```\nhi\n```"),
        (true, "```rust\nhi\n```"),
        (true, "> ```\n> hi\n> ```"),
        (true, "1.  hi\n    \n    ```\n    hi\n    ```\n"),
        (true, "```\n&\n```"),
        (false, ""),
        (false, "hi\n"),
        (false, "inline `codeblock`\n"),
        (false, "`code`\n"),
        (false, "    hi\n"),
        (false, ">     hi\n"),
    ];
    for (contains, body) in tests {
        assert_eq!(*contains, contains_fenced_block(body));
    }
}

#[test]
fn decode_transport_text_decodes_entities() {
    assert_eq!(Some("a & b".to_string()), decode_transport_text("a &amp; b"));
    assert_eq!(Some("plain".to_string()), decode_transport_text("plain"));
    assert_eq!(Some("".to_string()), decode_transport_text(""));
    assert_eq!(None, decode_transport_text("&#xffffff;"));
}

#[test]
fn decoded_fence_is_detected() {
    let body = "```\n&amp;\n```";
    let decoded = decode_transport_text(body).unwrap();
    assert_eq!("```\n&\n```", decoded);
    assert!(contains_fenced_block(&decoded));
}
