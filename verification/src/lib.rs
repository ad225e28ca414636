//! Relay library for a social-media notification bridge.
//!
//! The library holds the verified core of a poller that watches a search
//! API for new posts by a fixed set of tracked accounts and turns each new
//! post into a chat message: the query builder, the watermark/deduplication
//! logic that decides which fetched posts are new, and the message
//! formatter.  All network traffic stays outside; the library works on
//! plain values handed in by its caller.

pub mod account;
pub mod batch;
pub mod markdown;
pub mod message;
pub mod numeral;
pub mod post;
pub mod query;
pub mod scan;
