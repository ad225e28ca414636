//! The message formatter: renders a post, its resolved author name and the
//! outcome of its reply-target lookup into the outgoing message text.

use vstd::prelude::*;
use vstd::string::StrSliceExecFns;
use vstd::string::StringExecFns;
use crate::markdown::escape;
use crate::markdown::escape_link_url;
use crate::markdown::escaped_link_url;
use crate::markdown::escaped_text;
use crate::numeral::dec_seq;
use crate::numeral::u64_to_dec;
use crate::post::Post;
use crate::post::ReplyOutcome;
use crate::scan::has_prefix;
use crate::scan::str_has_prefix;

verus! {

/// The action verb of a message: a body that begins with the repost marker
/// is labelled `retweeted`, any other `tweeted`.
pub open spec fn spec_verb(body: Seq<char>) -> Seq<char> {
    if has_prefix(body, "RT @"@) {
        "retweeted"@
    } else {
        "tweeted"@
    }
}

/// The permalink of the post with id `id`: the base URL with the decimal
/// id appended.
pub open spec fn spec_permalink(id: u64) -> Seq<char> {
    "https://fxtwitter.com/_/status/"@ + dec_seq(id as nat)
}

/// The raw reply section of a message, before escaping: empty when the
/// post is no reply, the fixed not-viewable placeholder when the lookup
/// was denied, the target's text under a heading when it was found.
pub open spec fn spec_reply_text(reply: ReplyOutcome) -> Seq<char> {
    match reply {
        ReplyOutcome::NotAReply => Seq::<char>::empty(),
        ReplyOutcome::Found(t) => "\nIn reply to:\n"@ + t@,
        ReplyOutcome::Denied => "[你无权查看]"@,
    }
}

/// The full message text for a post: author name, a hyperlink labelled
/// with the action verb and aimed at the permalink, the escaped body, and
/// the escaped reply section.
pub open spec fn spec_message(name: Seq<char>, post: Post, reply: ReplyOutcome) -> Seq<char> {
    name + " just ["@ + spec_verb(post.body@) + "]("@ + escaped_link_url(spec_permalink(post.id))
        + "):\n"@ + escaped_text(post.body@) + "\n"@ + escaped_text(spec_reply_text(reply))
}

fn reply_text(reply: &ReplyOutcome) -> (r: String)
    ensures
        r@ == spec_reply_text(*reply),
{
    match reply {
        ReplyOutcome::NotAReply => {
            let r = String::new();
            proof {
                assert(r@ =~= spec_reply_text(ReplyOutcome::NotAReply));
            }
            r
        },
        ReplyOutcome::Found(t) => {
            let mut r = String::from_str("\nIn reply to:\n");
            r.append(t.as_str());
            r
        },
        ReplyOutcome::Denied => String::from_str("[你无权查看]"),
    }
}

/// Renders the message for `post`, authored by the account displayed as
/// `name`, with `reply` the outcome of its reply-target lookup.
pub fn render_message(name: &str, post: &Post, reply: &ReplyOutcome) -> (m: String)
    ensures
        m@ == spec_message(name@, *post, *reply),
{
    let mut m = String::from_str(name);
    m.append(" just [");
    if str_has_prefix(post.body.as_str(), "RT @") {
        m.append("retweeted");
    } else {
        m.append("tweeted");
    }
    m.append("](");
    let mut url = String::from_str("https://fxtwitter.com/_/status/");
    let d = u64_to_dec(post.id);
    url.append(d.as_str());
    let escaped_url = escape_link_url(url.as_str());
    m.append(escaped_url.as_str());
    m.append("):\n");
    let escaped_body = escape(post.body.as_str());
    m.append(escaped_body.as_str());
    m.append("\n");
    let raw_reply = reply_text(reply);
    let escaped_reply = escape(raw_reply.as_str());
    m.append(escaped_reply.as_str());
    proof {
        assert(m@ =~= spec_message(name@, *post, *reply));
    }
    m
}

} // verus!
