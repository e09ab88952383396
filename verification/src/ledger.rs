//! Reply ledger and follow-up checker: one entry per corrective reply
//! this system has posted, and the decision whether a standing reply must
//! be amended because its flagged parent was fixed.

use vstd::prelude::*;

use crate::detect::contains_fenced_block;
use crate::detect::has_fenced_block;
use crate::item::Comment;
use crate::item::find_comment;
use crate::item::find_in_tree;
use crate::item::strip_spec;
use crate::item::strip_type;
use crate::text::amend_text_spec;
use crate::text::contains_substring;
use crate::text::has_substring;
use crate::text::write_reply;

verus! {

/// Seconds between two runs of the follow-up checker, at least.
pub const FOLLOWUP_INTERVAL_SECS: u64 = 300;

/// Whether the follow-up checker is due again: it runs no more often than
/// every `FOLLOWUP_INTERVAL_SECS`, and always runs once it has never run.
pub fn followup_due(last_check_at: Option<u64>, now: u64) -> (r: bool)
    ensures
        r == match last_check_at {
            None => true,
            Some(t) => t + FOLLOWUP_INTERVAL_SECS < now,
        },
{
    match last_check_at {
        None => true,
        Some(t) => now > t && now - t > FOLLOWUP_INTERVAL_SECS,
    }
}

/// Marker by which a reloaded ledger recognises an already amended reply.
pub open spec fn edited_marker() -> Seq<char> {
    "EDIT:"@
}

/// One corrective reply this system has posted.
pub struct MadeComment {
    /// Full name of the flagged parent comment.
    pub parent_name: String,
    /// Full name of the posted reply itself.
    pub name: String,
    /// Full name of the content item both hang under.
    pub link_id: String,
    /// Whether an amendment was posted or is not applicable; an entry,
    /// once edited, is never rechecked.
    pub edited: bool,
}

/// The ledger entry a reply of our own, as reloaded from the account
/// history, stands for: the edited state is inferred from the marker.
pub fn make_ledger_entry(c: &Comment) -> (e: MadeComment)
    ensures
        e.parent_name == c.parent_id,
        e.name == c.name,
        e.link_id == c.link_id,
        e.edited == has_substring(c.body@, edited_marker()),
{
    MadeComment {
        parent_name: c.parent_id.clone(),
        name: c.name.clone(),
        link_id: c.link_id.clone(),
        edited: contains_substring(c.body.as_str(), "EDIT:"),
    }
}

/// Rebuilds the whole ledger from the account's own recent replies,
/// newest first as listed.
pub fn build_ledger(own_replies: &Vec<Comment>) -> (r: Vec<MadeComment>)
    ensures
        r@.len() == own_replies@.len(),
        forall|i: int|
            0 <= i < r@.len() ==> {
                &&& (#[trigger] r@[i]).parent_name == own_replies@[i].parent_id
                &&& r@[i].name == own_replies@[i].name
                &&& r@[i].link_id == own_replies@[i].link_id
                &&& r@[i].edited == has_substring(own_replies@[i].body@, edited_marker())
            },
{
    let mut out: Vec<MadeComment> = Vec::new();
    let mut i: usize = 0;
    while i < own_replies.len()
        invariant
            i <= own_replies@.len(),
            out@.len() == i,
            forall|q: int|
                0 <= q < i ==> {
                    &&& (#[trigger] out@[q]).parent_name == own_replies@[q].parent_id
                    &&& out@[q].name == own_replies@[q].name
                    &&& out@[q].link_id == own_replies@[q].link_id
                    &&& out@[q].edited == has_substring(own_replies@[q].body@, edited_marker())
                },
        decreases own_replies@.len() - i,
    {
        let e = make_ledger_entry(&own_replies[i]);
        out.push(e);
        i = i + 1;
    }
    out
}

/// What one follow-up check of a ledger entry found.
pub enum FollowupOutcome {
    /// The flagged parent is no longer in its tree (perhaps removed):
    /// leave the entry unresolved and try again next cycle.
    NotFound,
    /// The flagged parent still carries the offending feature: nothing to
    /// do yet.
    StillPresent,
    /// The flagged parent was fixed: post this amendment to our reply and
    /// mark the entry edited.
    Amend { body: String },
}

/// One follow-up check of one unresolved entry against the freshly
/// fetched reply tree of its content item.
pub fn followup_decision(entry: &MadeComment, tree: &Vec<Comment>) -> (r: FollowupOutcome)
    ensures
        ({
            let found = find_in_tree(tree@, strip_spec(entry.parent_name@));
            match r {
                FollowupOutcome::NotFound => found is None,
                FollowupOutcome::StillPresent => found is Some && has_fenced_block(
                    found.unwrap().body@,
                ),
                FollowupOutcome::Amend { body } => {
                    &&& found is Some
                    &&& !has_fenced_block(found.unwrap().body@)
                    &&& body@ == amend_text_spec(found.unwrap().permalink@)
                },
            }
        }),
{
    let target = strip_type(entry.parent_name.as_str());
    match find_comment(tree, target) {
        None => FollowupOutcome::NotFound,
        Some(parent) => {
            if contains_fenced_block(parent.body.as_str()) {
                FollowupOutcome::StillPresent
            } else {
                let mut body = String::new();
                body.append("EDIT: Thanks for editing your comment!\n\n");
                write_reply(&mut body, parent);
                FollowupOutcome::Amend { body }
            }
        },
    }
}

} // verus!
