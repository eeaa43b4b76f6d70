//! Error kinds reported by the crawler.

use vstd::prelude::*;

verus! {

/// The crawler itself cannot fail today; the variant is kept so that callers
/// already match on an error type when future kinds are added.
#[derive(Debug)]
pub enum CrawlerError {
    Unknown,
}

impl CrawlerError {
    /// A human-readable description of the error.
    pub fn message(&self) -> (r: &'static str)
        ensures
            r@ == "An unknown server error has occured!"@,
    {
        match *self {
            CrawlerError::Unknown => "An unknown server error has occured!",
        }
    }
}

} // verus!
