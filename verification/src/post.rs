//! The data a poll iteration works on: a fetched post, the outcome of a
//! reply-target lookup, and the fatal error of the relay logic.

use vstd::prelude::*;

verus! {

/// One post as the search API reports it: a 64-bit id assigned by the
/// source system, the author's account id (absent when the field was not
/// requested or not returned), the body text, and, for replies, the
/// account id the post replies to.
pub struct Post {
    pub id: u64,
    pub author_id: Option<u64>,
    pub body: String,
    pub reply_target: Option<u64>,
}

/// What the reply-target lookup produced for one post: the post is not a
/// reply at all, the lookup returned the target's text, or the lookup was
/// denied access (or found nothing).
pub enum ReplyOutcome {
    NotAReply,
    Found(String),
    Denied,
}

/// The one fatal error of the relay logic: a post's author id has no match
/// in the tracked-account registry (or the author field is missing), which
/// means the registry and the search query fell out of sync.  The variant
/// carries the offending author field.
#[derive(Debug)]
pub enum RelayError {
    UnknownAuthor(Option<u64>),
}

} // verus!
