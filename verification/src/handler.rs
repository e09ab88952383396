//! The item handler's decisions: whether a freshly merged item needs the
//! corrective reply, split around the one remote fetch (the parent's
//! reply tree) that the embedding loop performs in between.

use vstd::prelude::*;

use crate::detect::decode_transport_text;
use crate::detect::contains_fenced_block;
use crate::detect::has_fenced_block;
use crate::detect::html_decoded;
use crate::item::Comment;
use crate::item::find_comment;
use crate::item::find_in_tree;
use crate::item::strip_spec;
use crate::item::strip_type;
use crate::text::reply_text_spec;
use crate::text::str_eq;
use crate::text::write_reply;

verus! {

/// Items older than this, measured from their creation time, are never
/// replied to.
pub const MAX_ITEM_AGE_SECS: u64 = 86400;

/// What the handler decided about a merged item before any tree fetch.
pub enum Screening {
    /// Authored by this system itself: never replied to.
    OwnItem,
    /// The transport encoding of the body cannot be decoded: the item is
    /// skipped.
    UndecodableBody,
    /// The decoded body carries no offending feature: nothing to do.
    NoOffendingFeature,
    /// The decoded body is flagged: fetch the reply tree of the named
    /// content item and continue with [`decide_reply`].
    NeedsTree { link: String },
}

/// Screens one merged item: only an item by someone else, whose body
/// decodes and then carries the offending feature, warrants fetching its
/// tree.
pub fn screen_item(item: &Comment, username: &str) -> (r: Screening)
    ensures
        match r {
            Screening::OwnItem => item.author@ == username@,
            Screening::UndecodableBody => item.author@ != username@ && html_decoded(
                item.body@,
            ) is None,
            Screening::NoOffendingFeature => {
                &&& item.author@ != username@
                &&& html_decoded(item.body@) matches Some(d) && !has_fenced_block(d)
            },
            Screening::NeedsTree { link } => {
                &&& item.author@ != username@
                &&& html_decoded(item.body@) matches Some(d) && has_fenced_block(d)
                &&& link@ == strip_spec(item.link_id@)
            },
        },
{
    if str_eq(item.author.as_str(), username) {
        return Screening::OwnItem;
    }
    let body = match decode_transport_text(item.body.as_str()) {
        None => {
            return Screening::UndecodableBody;
        },
        Some(b) => b,
    };
    if !contains_fenced_block(body.as_str()) {
        return Screening::NoOffendingFeature;
    }
    let link = strip_type(item.link_id.as_str());
    Screening::NeedsTree { link: link.to_owned() }
}

/// Whether any direct reply under `replies` was written by `username`.
pub open spec fn replied_by(replies: Seq<Comment>, username: Seq<char>) -> bool {
    exists|i: int| 0 <= i < replies.len() && (#[trigger] replies[i]).author@ == username
}

/// What the handler decided about a flagged item once its tree arrived.
pub enum ReplyDecision {
    /// The item is not in its own tree (perhaps deleted): skip it.
    NotInTree,
    /// A direct reply of ours already stands under it: never reply twice.
    AlreadyReplied,
    /// The item is older than `MAX_ITEM_AGE_SECS`: leave it alone.
    TooOld,
    /// Post `body` as a reply to the item named `target`, and remember it
    /// in the ledger.
    Post { body: String, target: String },
}

/// Decides a flagged item against the fetched reply tree of its content
/// item. `age_secs` is how old the item was when it was handled.
pub fn decide_reply(item: &Comment, tree: &Vec<Comment>, username: &str, age_secs: u64) -> (r:
    ReplyDecision)
    ensures
        ({
            let found = find_in_tree(tree@, item.id@);
            match r {
                ReplyDecision::NotInTree => found is None,
                ReplyDecision::AlreadyReplied => found is Some && replied_by(
                    found.unwrap().replies@,
                    username@,
                ),
                ReplyDecision::TooOld => {
                    &&& found is Some
                    &&& !replied_by(found.unwrap().replies@, username@)
                    &&& age_secs > MAX_ITEM_AGE_SECS
                },
                ReplyDecision::Post { body, target } => {
                    &&& found is Some
                    &&& !replied_by(found.unwrap().replies@, username@)
                    &&& age_secs <= MAX_ITEM_AGE_SECS
                    &&& body@ == reply_text_spec(item.permalink@)
                    &&& target == item.name
                },
            }
        }),
{
    let tree_comment = match find_comment(tree, item.id.as_str()) {
        None => {
            return ReplyDecision::NotInTree;
        },
        Some(c) => c,
    };
    let replies = &tree_comment.replies;
    let mut i: usize = 0;
    while i < replies.len()
        invariant
            i <= replies@.len(),
            replies@ == tree_comment.replies@,
            find_in_tree(tree@, item.id@) == Some(*tree_comment),
            forall|q: int| 0 <= q < i ==> (#[trigger] replies@[q]).author@ != username@,
        decreases replies@.len() - i,
    {
        if str_eq(replies[i].author.as_str(), username) {
            proof {
                assert(replied_by(tree_comment.replies@, username@)) by {
                    assert(tree_comment.replies@[i as int].author@ == username@);
                }
            }
            return ReplyDecision::AlreadyReplied;
        }
        i = i + 1;
    }
    if age_secs > MAX_ITEM_AGE_SECS {
        return ReplyDecision::TooOld;
    }
    let mut body = String::new();
    write_reply(&mut body, item);
    proof {
        assert(body@ =~= reply_text_spec(item.permalink@));
    }
    ReplyDecision::Post { body, target: item.name.clone() }
}

} // verus!
