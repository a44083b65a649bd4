//! The raw responder: hands the caller the URL as it is, with only the
//! router's own prefix removed.

use vstd::prelude::*;
use crate::url::strip_prefix;

verus! {

/// Serves the request URL itself, stripped of the routing prefix.
pub struct Raw {}

impl Raw {
    /// The URL with the routing prefix removed; only URLs the router sent
    /// here, which carry that prefix, are given to this responder.
    pub fn respond<'a>(&self, url: &'a str, prefix: &str) -> (r: &'a str)
        requires
            prefix@.is_prefix_of(url@),
        ensures
            r@ == url@.skip(prefix@.len() as int),
    {
        strip_prefix(url, prefix)
    }
}

} // verus!
