//! The trait-style responder: a store exposed only through two fixed
//! capabilities, one for the path components and one for the query
//! arguments, so that consumers never touch a raw key or assert a shape
//! themselves.

use vstd::prelude::*;
use vstd::pervasive::unreached;
use crate::assoc::AssocList;
use crate::capability::Capability;
use crate::registry::{Dependencies, Error, ErrorModel, RegistryModel, spec_resolve};
use crate::text::duplicate_texts;
use crate::url::UrlParts;
use crate::value::{Kind, Value, ValueModel};

verus! {

/// The capability for the path components.
pub fn path_parts() -> (r: Capability)
    ensures
        r.name@ == "PathParts"@,
        r.kind == Kind::TextList,
{
    Capability::new("PathParts", Kind::TextList)
}

/// The capability for the query arguments.
pub fn url_params() -> (r: Capability)
    ensures
        r.name@ == "UrlParams"@,
        r.kind == Kind::TextMap,
{
    Capability::new("UrlParams", Kind::TextMap)
}

/// A store reached only through capabilities.
pub struct DIMap {
    deps: Dependencies,
}

impl View for DIMap {
    type V = RegistryModel;

    closed spec fn view(&self) -> RegistryModel {
        self.deps@
    }
}

impl DIMap {
    /// An empty store.
    pub fn new() -> (r: DIMap)
        ensures
            r@.bindings == Map::<Seq<char>, ValueModel>::empty(),
            r@.constructors == Map::<Seq<char>, Seq<crate::registry::CtorModel>>::empty(),
    {
        DIMap { deps: Dependencies::new() }
    }

    /// Stores `value` under the capability, asserting its shape here, once.
    pub fn put(&mut self, cap: &Capability, value: Value) -> (r: Result<(), Error>)
        ensures
            match r {
                Ok(_) => crate::value::model_kind(value@) == cap.kind && !old(
                    self,
                )@.bindings.contains_key(cap.name@) && final(self)@.bindings == old(
                    self,
                )@.bindings.insert(cap.name@, value@),
                Err(e) => final(self)@ == old(self)@ && ((crate::value::model_kind(value@)
                    != cap.kind && e@ == (ErrorModel::TypeMismatch {
                    key: cap.name@,
                    expected: cap.kind,
                    actual: crate::value::model_kind(value@),
                })) || (crate::value::model_kind(value@) == cap.kind && old(
                    self,
                )@.bindings.contains_key(cap.name@) && e@ == (ErrorModel::DuplicateBinding {
                    key: cap.name@,
                    existing: old(self)@.bindings[cap.name@],
                    attempted: value@,
                }))),
            },
    {
        cap.put(&mut self.deps, value)
    }

    /// The value bound under the capability.
    pub fn get(&self, cap: &Capability) -> (r: Result<Value, Error>)
        ensures
            match r {
                Ok(v) => spec_resolve(self@, cap.name@, cap.kind) == Ok::<ValueModel, ErrorModel>(
                    v@,
                ),
                Err(e) => spec_resolve(self@, cap.name@, cap.kind) == Err::<
                    ValueModel,
                    ErrorModel,
                >(e@),
            },
    {
        cap.get(&self.deps)
    }
}

/// Reads both fixed capabilities back from the store.
pub fn dispatch(m: &DIMap) -> (r: Result<(Vec<String>, AssocList<String>), Error>)
    ensures
        match r {
            Ok(pair) => spec_resolve(m@, "PathParts"@, Kind::TextList) == Ok::<
                ValueModel,
                ErrorModel,
            >(ValueModel::TextList(pair.0.deep_view())) && spec_resolve(
                m@,
                "UrlParams"@,
                Kind::TextMap,
            ) == Ok::<ValueModel, ErrorModel>(ValueModel::TextMap(pair.1@)),
            Err(e) => spec_resolve(m@, "PathParts"@, Kind::TextList) == Err::<
                ValueModel,
                ErrorModel,
            >(e@) || (spec_resolve(m@, "PathParts"@, Kind::TextList) is Ok && spec_resolve(
                m@,
                "UrlParams"@,
                Kind::TextMap,
            ) == Err::<ValueModel, ErrorModel>(e@)),
        },
{
    match m.get(&path_parts()) {
        Err(e) => Err(e),
        Ok(v) => match v {
            Value::TextList(l) => match m.get(&url_params()) {
                Err(e) => Err(e),
                Ok(q) => match q {
                    Value::TextMap(qm) => Ok((l, qm)),
                    _ => unreached(),
                },
            },
            _ => unreached(),
        },
    }
}

/// Fills a fresh store from the URL and reads it back through the
/// capabilities alone.
pub struct Traits {}

impl Traits {
    /// The path components and query arguments, round-tripped through the
    /// capability store.
    pub fn respond(&self, parts: &UrlParts) -> (r: (Vec<String>, AssocList<String>))
        ensures
            r.0.deep_view() == parts@.components,
            r.1@ == parts@.query,
    {
        proof {
            reveal_strlit("PathParts");
            reveal_strlit("UrlParams");
            assert("PathParts"@[0] == 'P');
            assert("UrlParams"@[0] == 'U');
        }
        let mut m = DIMap::new();
        match m.put(&path_parts(), Value::TextList(duplicate_texts(parts.path_components()))) {
            Ok(_) => (),
            Err(_) => unreached(),
        }
        match m.put(&url_params(), Value::TextMap(parts.query().duplicate())) {
            Ok(_) => (),
            Err(_) => unreached(),
        }
        match dispatch(&m) {
            Ok(pair) => pair,
            Err(_) => unreached(),
        }
    }
}

} // verus!
