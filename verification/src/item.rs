//! The item (one remote comment), the reply tree formed of items, and the
//! search the follow-up logic runs over such a tree.

use vstd::prelude::*;
use crate::text::str_eq;

verus! {

/// One remote comment. Items arriving from the merged stream carry an
/// empty `replies` list; items inside a fetched tree carry their children.
pub struct Comment {
    /// Bare identifier of the comment.
    pub id: String,
    /// Full name of the parent comment or content item.
    pub parent_id: String,
    /// Full name of the content item the comment is attached to.
    pub link_id: String,
    /// Full name of the comment itself (identifier with its kind tag).
    pub name: String,
    /// Author account name.
    pub author: String,
    /// Creation time, seconds since the epoch.
    pub created_utc: u64,
    /// Site-relative permalink.
    pub permalink: String,
    /// Body text, transport-encoded as received.
    pub body: String,
    /// Direct replies, oldest context first, as the remote tree gives them.
    pub replies: Vec<Comment>,
}

/// Whether a full name carries a leading kind tag (`t` + digit + `_`).
pub open spec fn has_kind_tag(s: Seq<char>) -> bool {
    s.len() >= 3 && s[0] == 't' && 48 <= s[1] as u32 <= 57 && s[2] == '_'
}

/// A full name with its leading kind tag removed.
pub open spec fn strip_spec(s: Seq<char>) -> Seq<char> {
    if has_kind_tag(s) {
        s.subrange(3, s.len() as int)
    } else {
        s
    }
}

/// Drops the three-character kind tag from a full name, if present.
pub fn strip_type(s: &str) -> (r: &str)
    ensures
        r@ == strip_spec(s@),
{
    let n = s.unicode_len();
    if n >= 3 {
        let c0 = s.get_char(0);
        let c1 = s.get_char(1);
        let c2 = s.get_char(2);
        let d = c1 as u32;
        if c0 == 't' && 48 <= d && d <= 57 && c2 == '_' {
            return s.substring_char(3, n);
        }
    }
    s
}

/// First comment among `cs[i..]` whose identifier is `id`, scanning only
/// this level of the tree.
pub open spec fn find_direct_from(cs: Seq<Comment>, id: Seq<char>, i: int) -> Option<Comment>
    decreases cs.len() - i,
{
    if i < 0 || i >= cs.len() {
        None
    } else if cs[i].id@ == id {
        Some(cs[i])
    } else {
        find_direct_from(cs, id, i + 1)
    }
}

/// The search the follow-up logic runs: all comments of one level first,
/// then each comment's replies in turn, depth first.
pub open spec fn find_in_tree(cs: Seq<Comment>, id: Seq<char>) -> Option<Comment>
    decreases cs, 1int, 0int,
{
    match find_direct_from(cs, id, 0) {
        Some(c) => Some(c),
        None => find_in_replies_from(cs, id, 0),
    }
}

/// Depth-first continuation of [`find_in_tree`] over the replies of
/// `cs[i..]`.
pub open spec fn find_in_replies_from(cs: Seq<Comment>, id: Seq<char>, i: int) -> Option<Comment>
    decreases cs, 0int, cs.len() - i,
{
    if i < 0 || i >= cs.len() {
        None
    } else {
        match find_in_tree(cs[i].replies@, id) {
            Some(c) => Some(c),
            None => find_in_replies_from(cs, id, i + 1),
        }
    }
}

/// Finds the comment named `comment_id` in a fetched reply tree: the
/// direct children of every level are examined before any deeper level.
pub fn find_comment<'a>(comments: &'a Vec<Comment>, comment_id: &str) -> (r: Option<
    &'a Comment,
>)
    ensures
        match r {
            Some(c) => find_in_tree(comments@, comment_id@) == Some(*c),
            None => find_in_tree(comments@, comment_id@) is None,
        },
    decreases comments@,
{
    let n = comments.len();
    let mut i: usize = 0;
    while i < n
        invariant
            i <= n,
            n == comments@.len(),
            find_direct_from(comments@, comment_id@, 0) == find_direct_from(
                comments@,
                comment_id@,
                i as int,
            ),
        decreases n - i,
    {
        if str_eq(comments[i].id.as_str(), comment_id) {
            return Some(&comments[i]);
        }
        i = i + 1;
    }
    let mut j: usize = 0;
    while j < n
        invariant
            j <= n,
            n == comments@.len(),
            find_direct_from(comments@, comment_id@, 0) is None,
            find_in_replies_from(comments@, comment_id@, 0) == find_in_replies_from(
                comments@,
                comment_id@,
                j as int,
            ),
        decreases n - j,
    {
        proof {
            assert(decreases_to!(comments@ => comments@[j as int]));
            assert(decreases_to!(comments@[j as int] => comments@[j as int].replies));
            assert(decreases_to!(comments@[j as int].replies => comments@[j as int].replies@));
        }
        match find_comment(&comments[j].replies, comment_id) {
            Some(x) => {
                return Some(x);
            },
            None => {},
        }
        j = j + 1;
    }
    None
}

} // verus!
