//! The stringly-typed responder: the URL is treated as plain strings, and
//! the reply's middle is the path components joined back together.

use vstd::prelude::*;
use crate::text::{join_texts, joined};
use crate::url::UrlParts;

verus! {

/// Replies from the URL's strings alone.
pub struct Stringly {}

impl Stringly {
    /// The path components joined with `|`, the varying middle of the reply.
    pub fn respond(&self, parts: &UrlParts) -> (r: String)
        ensures
            r@ == joined(parts@.components, "|"@),
    {
        join_texts(parts.path_components(), "|")
    }
}

} // verus!
