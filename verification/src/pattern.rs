//! The pattern responder: routes by the shape of the path. One route is
//! served: a path of the form `/foo/` followed by a single slash-free
//! capture; every other path is unknown.

use vstd::prelude::*;
use vstd::string::StrSliceExecFns;
use vstd::string::StringExecFns;
use crate::text::{scan_to, str_starts_with};
use crate::url::UrlParts;

verus! {

/// The capture of the one served route: the slash-free remainder of a path
/// that begins with `/foo/`.
pub open spec fn foo_capture(path: Seq<char>) -> Option<Seq<char>> {
    if "/foo/"@.is_prefix_of(path) && (forall|j: int|
        "/foo/"@.len() <= j < path.len() ==> path[j] != '/') {
        Some(path.skip("/foo/"@.len() as int))
    } else {
        None
    }
}

/// Routes requests whose path matches a fixed shape; the first matching
/// route wins, and a path that matches none is unknown.
pub struct Pattern {}

impl Pattern {
    /// The capture when the path matches the served route.
    pub fn route(&self, parts: &UrlParts) -> (r: Option<String>)
        ensures
            match r {
                Some(c) => foo_capture(parts@.path) == Some(c@),
                None => foo_capture(parts@.path) is None,
            },
    {
        let path = parts.path();
        if !str_starts_with(path, "/foo/") {
            return None;
        }
        let start = "/foo/".unicode_len();
        let n = path.unicode_len();
        let j = scan_to(path, start, '/');
        if j < n {
            return None;
        }
        let c = String::from_str(path.substring_char(start, n));
        proof {
            assert(c@ =~= parts@.path.skip(start as int));
        }
        Some(c)
    }
}

} // verus!
