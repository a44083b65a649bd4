//! The closure-style responder: the caller-facing routing table that picks,
//! from the first path component, which view of the URL a reply is built
//! from. The reply text itself is presentation and stays with the caller.

use vstd::prelude::*;
use crate::text::str_eq;
use crate::url::UrlParts;

verus! {

/// Where a request under this responder goes.
#[derive(Clone, Copy, Debug, PartialEq, Eq, Structural)]
pub enum ClosureRoute {
    /// No path components: the index text.
    Root,
    /// `path`: reply from the path components.
    Params,
    /// `query`: reply from the query arguments.
    Query,
    /// `both`: reply from both.
    Both,
    /// Anything else is unknown.
    NotFound,
}

/// The route the first path component selects.
pub open spec fn closure_route_of(components: Seq<Seq<char>>) -> ClosureRoute {
    if components.len() == 0 {
        ClosureRoute::Root
    } else if components[0] == "path"@ {
        ClosureRoute::Params
    } else if components[0] == "query"@ {
        ClosureRoute::Query
    } else if components[0] == "both"@ {
        ClosureRoute::Both
    } else {
        ClosureRoute::NotFound
    }
}

/// Routes requests to caller-supplied reply builders, each taking only the
/// view of the URL it needs.
pub struct Closure {}

impl Closure {
    /// Which reply builder the URL selects.
    pub fn route(&self, parts: &UrlParts) -> (r: ClosureRoute)
        ensures
            r == closure_route_of(parts@.components),
    {
        let comps = parts.path_components();
        if comps.len() == 0 {
            ClosureRoute::Root
        } else {
            let first = &comps[0];
            if str_eq(first.as_str(), "path") {
                ClosureRoute::Params
            } else if str_eq(first.as_str(), "query") {
                ClosureRoute::Query
            } else if str_eq(first.as_str(), "both") {
                ClosureRoute::Both
            } else {
                ClosureRoute::NotFound
            }
        }
    }
}

} // verus!
