//! Verified text utilities: string equality, substring search, the
//! markdown-link escape, and the corrective reply text.

use vstd::prelude::*;

use crate::item::Comment;

verus! {

/// Character-wise equality of two string slices.
pub fn str_eq(a: &str, b: &str) -> (r: bool)
    ensures
        r == (a@ == b@),
{
    let alen = a.unicode_len();
    let blen = b.unicode_len();
    if alen != blen {
        return false;
    }
    let mut i: usize = 0;
    while i < alen
        invariant
            i <= alen,
            alen as nat == a@.len(),
            blen as nat == b@.len(),
            alen == blen,
            forall|j: int| 0 <= j < i ==> a@[j] == b@[j],
        decreases alen - i,
    {
        if a.get_char(i) != b.get_char(i) {
            return false;
        }
        i = i + 1;
    }
    proof {
        assert(a@ =~= b@);
    }
    true
}

/// Whether `n` occurs contiguously anywhere in `h`.
pub open spec fn has_substring(h: Seq<char>, n: Seq<char>) -> bool {
    exists|i: int|
        0 <= i <= h.len() - n.len() && #[trigger] h.subrange(i, i + n.len() as int) == n
}

/// Whether `needle` matches `hay` at position `i`.
fn match_at(hay: &str, needle: &str, i: usize) -> (r: bool)
    requires
        i + needle@.len() <= hay@.len(),
        hay@.len() <= usize::MAX,
    ensures
        r == (hay@.subrange(i as int, i as int + needle@.len() as int) == needle@),
{
    let nlen = needle.unicode_len();
    let mut k: usize = 0;
    while k < nlen
        invariant
            k <= nlen,
            nlen as nat == needle@.len(),
            i + nlen <= hay@.len(),
            hay@.len() <= usize::MAX,
            forall|q: int| 0 <= q < k ==> hay@[i + q] == needle@[q],
        decreases nlen - k,
    {
        if hay.get_char(i + k) != needle.get_char(k) {
            proof {
                assert(hay@.subrange(i as int, i as int + needle@.len() as int)[k as int]
                    == hay@[i + k]);
            }
            return false;
        }
        k = k + 1;
    }
    proof {
        assert(hay@.subrange(i as int, i as int + needle@.len() as int) =~= needle@);
    }
    true
}

/// Substring search, as the edited-marker heuristic needs it.
pub fn contains_substring(hay: &str, needle: &str) -> (r: bool)
    ensures
        r == has_substring(hay@, needle@),
{
    let hlen = hay.unicode_len();
    let nlen = needle.unicode_len();
    if nlen > hlen {
        return false;
    }
    let bound = hlen - nlen;
    let mut i: usize = 0;
    loop
        invariant
            i <= bound,
            bound == hlen - nlen,
            nlen <= hlen,
            hlen as nat == hay@.len(),
            nlen as nat == needle@.len(),
            forall|q: int|
                0 <= q < i ==> #[trigger] hay@.subrange(q, q + needle@.len() as int) != needle@,
        decreases bound - i,
    {
        if match_at(hay, needle, i) {
            return true;
        }
        if i == bound {
            return false;
        }
        i = i + 1;
    }
}

/// Relies on String::push: appends exactly the given character.
#[verifier::external_body]
fn push_char(s: &mut String, c: char)
    ensures
        final(s)@ == old(s)@.push(c),
{
    s.push(c);
}

/// The upper-case hexadecimal digit of a value below 16.
pub open spec fn hex_digit(n: u32) -> char {
    if n < 10 {
        ((48 + n) as u8) as char
    } else {
        ((55 + n) as u8) as char
    }
}

/// How one character of a link destination is written: parentheses are
/// backslash-escaped; a space or an ASCII control character is
/// percent-encoded with two upper-case hexadecimal digits; anything else
/// passes through.
pub open spec fn escape_char(c: char) -> Seq<char> {
    if c == '(' || c == ')' {
        seq!['\\', c]
    } else if c == ' ' || (c as u32) < 32 || (c as u32) == 127 {
        seq!['%', hex_digit((c as u32) / 16), hex_digit((c as u32) % 16)]
    } else {
        seq![c]
    }
}

/// The escape of `s[i..]`.
pub open spec fn escape_md_from(s: Seq<char>, i: int) -> Seq<char>
    decreases s.len() - i,
{
    if i < 0 || i >= s.len() {
        Seq::empty()
    } else {
        escape_char(s[i]) + escape_md_from(s, i + 1)
    }
}

/// A text made safe for use as a markdown link destination.
pub open spec fn escape_md(s: Seq<char>) -> Seq<char> {
    escape_md_from(s, 0)
}

/// Appends the escape of one character.
fn append_escaped_char(out: &mut String, c: char)
    ensures
        final(out)@ == old(out)@ + escape_char(c),
{
    let u = c as u32;
    if c == '(' || c == ')' {
        push_char(out, '\\');
        push_char(out, c);
        proof {
            assert(out@ =~= old(out)@ + escape_char(c));
        }
    } else if c == ' ' || u < 32 || u == 127 {
        push_char(out, '%');
        let hi = u / 16;
        let lo = u % 16;
        let hic: char = if hi < 10 {
            ((48 + hi) as u8) as char
        } else {
            ((55 + hi) as u8) as char
        };
        let loc: char = if lo < 10 {
            ((48 + lo) as u8) as char
        } else {
            ((55 + lo) as u8) as char
        };
        push_char(out, hic);
        push_char(out, loc);
        proof {
            assert(out@ =~= old(out)@ + escape_char(c));
        }
    } else {
        push_char(out, c);
        proof {
            assert(out@ =~= old(out)@ + escape_char(c));
        }
    }
}

/// Escapes a permalink so it can stand as a markdown link destination:
/// parentheses gain a backslash, spaces and control characters become
/// percent-escapes, everything else is kept.
pub fn escape_markdown_link(s: &str) -> (r: String)
    ensures
        r@ == escape_md(s@),
{
    let len = s.unicode_len();
    let mut out = String::new();
    let mut i: usize = 0;
    while i < len
        invariant
            i <= len,
            len as nat == s@.len(),
            out@ + escape_md_from(s@, i as int) == escape_md(s@),
        decreases len - i,
    {
        let ghost pre = out@;
        let c = s.get_char(i);
        append_escaped_char(&mut out, c);
        proof {
            assert((pre + escape_char(c)) + escape_md_from(s@, i + 1) =~= pre + (escape_char(c)
                + escape_md_from(s@, i + 1)));
        }
        i = i + 1;
    }
    proof {
        assert(out@ + escape_md_from(s@, len as int) =~= out@);
    }
    out
}

/// Fixed lead-in of the corrective reply, up to the first link
/// destination.
pub open spec fn reply_head() -> Seq<char> {
    "Your comment uses fenced code blocks (e.g. blocks surrounded \nwith ```` ``` ````). These don't render correctly in old \nreddit even if you authored them in new reddit. Please use \ncode blocks indented with 4 spaces instead. See what the \ncomment looks like in \n[new](https://new.reddit.com"@
}

/// Between the two link destinations of the corrective reply.
pub open spec fn reply_mid() -> Seq<char> {
    ") \nand \n[old](https://old.reddit.com"@
}

/// Tail of the corrective reply, after the second link destination.
pub open spec fn reply_tail() -> Seq<char> {
    ") \nreddit."@
}

/// The whole corrective reply for an item at the given permalink: fixed
/// text around two renderings of the escaped permalink.
pub open spec fn reply_text_spec(permalink: Seq<char>) -> Seq<char> {
    reply_head() + escape_md(permalink) + reply_mid() + escape_md(permalink) + reply_tail()
}

/// Lead-in of the amendment posted once a flagged comment was fixed; its
/// first word doubles as the marker by which a reloaded ledger recognises
/// an already amended reply.
pub open spec fn amend_prefix() -> Seq<char> {
    "EDIT: Thanks for editing your comment!\n\n"@
}

/// The whole amendment text for a fixed comment at the given permalink.
pub open spec fn amend_text_spec(permalink: Seq<char>) -> Seq<char> {
    amend_prefix() + reply_text_spec(permalink)
}

/// Appends the corrective reply for the given comment, its permalink
/// escaped in both link destinations.
pub fn write_reply(out: &mut String, comment: &Comment)
    ensures
        final(out)@ == old(out)@ + reply_text_spec(comment.permalink@),
{
    let esc = escape_markdown_link(comment.permalink.as_str());
    out.append(
        "Your comment uses fenced code blocks (e.g. blocks surrounded \nwith ```` ``` ````). These don't render correctly in old \nreddit even if you authored them in new reddit. Please use \ncode blocks indented with 4 spaces instead. See what the \ncomment looks like in \n[new](https://new.reddit.com",
    );
    out.append(esc.as_str());
    out.append(") \nand \n[old](https://old.reddit.com");
    out.append(esc.as_str());
    out.append(") \nreddit.");
    proof {
        assert(out@ =~= old(out)@ + reply_text_spec(comment.permalink@));
    }
}

} // verus!
