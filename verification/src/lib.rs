//! A site-scoped web crawler library.
//!
//! Starting from a seed page, the crawler records every hyperlink reference
//! found in anchor markup, follows the ones that are site-root-relative
//! (those beginning with `/`), and never fetches the same page twice.
//! Fetching itself is left to the caller: the crawler hands out the next URL
//! to retrieve and consumes the returned page body, so the whole decision
//! logic is verified while the network stays outside.

pub mod crawler;
pub mod dedup;
pub mod error;
pub mod extract;
