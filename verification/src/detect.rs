//! External collaborators the item handler consults: the markdown-feature
//! detector and the transport-text decoder. Both are pure functions of
//! their input text, so their results are named and every contract
//! downstream speaks of those names.

use vstd::prelude::*;

verus! {

/// Whether rendering a text as markdown yields at least one fenced code
/// block, the feature the legacy client cannot render.
pub uninterp spec fn has_fenced_block(s: Seq<char>) -> bool;

/// What decoding the transport-level entity encoding of a text yields;
/// nothing when the encoding is malformed.
pub uninterp spec fn html_decoded(s: Seq<char>) -> Option<Seq<char>>;

/// Relies on comrak::parse_document: parsing with fixed (default) options
/// is a function of the document text alone, so whether any node of the
/// parsed tree is a fenced code block depends only on that text.
#[verifier::external_body]
pub fn contains_fenced_block(body: &str) -> (r: bool)
    ensures
        r == has_fenced_block(body@),
{
    let arena = comrak::Arena::new();
    let root = comrak::parse_document(&arena, body, &comrak::Options::default());
    root.descendants().any(|node| match &node.data.borrow().value {
        comrak::nodes::NodeValue::CodeBlock(block) => block.fenced,
        _ => false,
    })
}

/// Relies on htmlescape::decode_html: decoding a string is a function of
/// its characters alone, and yields an error exactly on malformed input
/// (here folded to nothing).
#[verifier::external_body]
pub fn decode_transport_text(s: &str) -> (r: Option<String>)
    ensures
        match r {
            Some(t) => html_decoded(s@) == Some(t@),
            None => html_decoded(s@) is None,
        },
{
    match htmlescape::decode_html(s) {
        Ok(t) => Some(t),
        Err(_) => None,
    }
}

} // verus!
