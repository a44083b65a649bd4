//! The binder-and-provider responder: one capability holds the URL parts,
//! and two providers derive the path components and the query arguments
//! from it on every access. The dispatcher picks, from the first path
//! component, which of those views the reply is built from.

use vstd::prelude::*;
use vstd::pervasive::unreached;
use crate::assoc::AssocList;
use crate::capability::{Capability, Provider, Transform};
use crate::registry::Dependencies;
use crate::text::str_eq;
use crate::url::UrlParts;
use crate::value::{Kind, Value};

verus! {

/// Where a request under this responder goes.
#[derive(Clone, Copy, Debug, PartialEq, Eq, Structural)]
pub enum MacroRoute {
    /// No path components: the index text.
    Root,
    /// `path`: reply from the path components.
    Paths,
    /// `query`: reply from the query arguments.
    Query,
    /// `both`: reply from components and query.
    Both,
    /// `all`: reply from the URL, the components and the query.
    All,
    /// Anything else is unknown.
    NotFound,
}

/// The route the first path component selects.
pub open spec fn macro_route_of(components: Seq<Seq<char>>) -> MacroRoute {
    if components.len() == 0 {
        MacroRoute::Root
    } else if components[0] == "path"@ {
        MacroRoute::Paths
    } else if components[0] == "query"@ {
        MacroRoute::Query
    } else if components[0] == "both"@ {
        MacroRoute::Both
    } else if components[0] == "all"@ {
        MacroRoute::All
    } else {
        MacroRoute::NotFound
    }
}

/// Which reply builder the URL selects.
pub fn dispatcher(parts: &UrlParts) -> (r: MacroRoute)
    ensures
        r == macro_route_of(parts@.components),
{
    let comps = parts.path_components();
    if comps.len() == 0 {
        MacroRoute::Root
    } else {
        let first = &comps[0];
        if str_eq(first.as_str(), "path") {
            MacroRoute::Paths
        } else if str_eq(first.as_str(), "query") {
            MacroRoute::Query
        } else if str_eq(first.as_str(), "both") {
            MacroRoute::Both
        } else if str_eq(first.as_str(), "all") {
            MacroRoute::All
        } else {
            MacroRoute::NotFound
        }
    }
}

/// A reply: the route taken, with the derived views it is built from.
pub enum MacroReply {
    Root,
    Paths(Vec<String>),
    Query(AssocList<String>),
    Both(Vec<String>, AssocList<String>),
    All(String, Vec<String>, AssocList<String>),
    NotFound,
}

/// The capability holding the request's URL parts.
pub fn url_parts_binding() -> (r: Capability)
    ensures
        r.name@ == "UrlParts"@,
        r.kind == Kind::Url,
{
    Capability::new("UrlParts", Kind::Url)
}

/// Routes through a binder: the URL parts are bound once, and every view a
/// reply needs is derived from that binding by a provider.
pub struct TraitsMacro {}

impl TraitsMacro {
    /// Handles one request: binds the URL parts, dispatches on the first
    /// path component, and derives the selected views through providers.
    pub fn respond(&self, parts: UrlParts) -> (r: MacroReply)
        ensures
            match r {
                MacroReply::Root => macro_route_of(parts@.components) == MacroRoute::Root,
                MacroReply::Paths(v) => macro_route_of(parts@.components) == MacroRoute::Paths
                    && v.deep_view() == parts@.components,
                MacroReply::Query(q) => macro_route_of(parts@.components) == MacroRoute::Query
                    && q@ == parts@.query,
                MacroReply::Both(v, q) => macro_route_of(parts@.components) == MacroRoute::Both
                    && v.deep_view() == parts@.components && q@ == parts@.query,
                MacroReply::All(p, v, q) => macro_route_of(parts@.components) == MacroRoute::All
                    && p@ == parts@.path && v.deep_view() == parts@.components && q@
                    == parts@.query,
                MacroReply::NotFound => macro_route_of(parts@.components) == MacroRoute::NotFound,
            },
    {
        let route = dispatcher(&parts);
        let mut deps = Dependencies::new();
        match url_parts_binding().put(&mut deps, Value::Url(Box::new(parts))) {
            Ok(_) => (),
            Err(_) => unreached(),
        }
        match route {
            MacroRoute::Root => MacroReply::Root,
            MacroRoute::Paths => MacroReply::Paths(get_components(&deps)),
            MacroRoute::Query => MacroReply::Query(get_query(&deps)),
            MacroRoute::Both => MacroReply::Both(get_components(&deps), get_query(&deps)),
            MacroRoute::All => MacroReply::All(
                get_path(&deps),
                get_components(&deps),
                get_query(&deps),
            ),
            MacroRoute::NotFound => MacroReply::NotFound,
        }
    }
}

/// The binding's path components, derived by a provider.
fn get_components(deps: &Dependencies) -> (r: Vec<String>)
    requires
        deps@.bindings.contains_key("UrlParts"@),
        deps@.bindings["UrlParts"@] matches crate::value::ValueModel::Url(_),
    ensures
        (deps@.bindings["UrlParts"@] matches crate::value::ValueModel::Url(u) && r.deep_view()
            == u.components),
{
    let p = Provider { source: url_parts_binding(), transform: Transform::ComponentsOf };
    match p.get(deps) {
        Ok(v) => match v {
            Value::TextList(l) => l,
            _ => unreached(),
        },
        Err(_) => unreached(),
    }
}

/// The binding's query arguments, derived by a provider.
fn get_query(deps: &Dependencies) -> (r: AssocList<String>)
    requires
        deps@.bindings.contains_key("UrlParts"@),
        deps@.bindings["UrlParts"@] matches crate::value::ValueModel::Url(_),
    ensures
        (deps@.bindings["UrlParts"@] matches crate::value::ValueModel::Url(u) && r@ == u.query),
{
    let p = Provider { source: url_parts_binding(), transform: Transform::QueryOf };
    match p.get(deps) {
        Ok(v) => match v {
            Value::TextMap(q) => q,
            _ => unreached(),
        },
        Err(_) => unreached(),
    }
}

/// The binding's path, derived by a provider.
fn get_path(deps: &Dependencies) -> (r: String)
    requires
        deps@.bindings.contains_key("UrlParts"@),
        deps@.bindings["UrlParts"@] matches crate::value::ValueModel::Url(_),
    ensures
        (deps@.bindings["UrlParts"@] matches crate::value::ValueModel::Url(u) && r@ == u.path),
{
    let p = Provider { source: url_parts_binding(), transform: Transform::PathOf };
    match p.get(deps) {
        Ok(v) => match v {
            Value::Text(s) => s,
            _ => unreached(),
        },
        Err(_) => unreached(),
    }
}

} // verus!
