//! Capabilities: narrow, shape-safe accessors over the registry.
//!
//! A capability names one binding and states its shape once; storing through
//! the capability asserts the shape centrally, so every later access is
//! already shape-checked. A capability is unbound until its first successful
//! store and can never be re-bound. A provider is a derived capability: a
//! pure function of another capability's value, recomputed on every access
//! and never cached.

use vstd::prelude::*;
use vstd::string::StrSliceExecFns;
use vstd::string::StringExecFns;
use crate::registry::{Dependencies, Error, ErrorModel, RegistryModel, spec_register, spec_resolve};
use crate::text::duplicate_texts;
use crate::value::{Kind, Value, ValueModel, model_kind};

verus! {

/// One named binding together with the shape it must hold.
pub struct Capability {
    pub name: String,
    pub kind: Kind,
}

impl Capability {
    /// A capability for the binding `name` of shape `kind`.
    pub fn new(name: &str, kind: Kind) -> (r: Capability)
        ensures
            r.name@ == name@,
            r.kind == kind,
    {
        Capability { name: String::from_str(name), kind }
    }

    /// Binds `value` here: the one transition from unbound to bound. The
    /// shape is asserted now, once, so later accesses cannot mismatch; a
    /// wrong shape or an already-bound name is turned away unchanged.
    pub fn put(&self, deps: &mut Dependencies, value: Value) -> (r: Result<(), Error>)
        ensures
            match r {
                Ok(_) => model_kind(value@) == self.kind && spec_register(
                    old(deps)@,
                    self.name@,
                    value@,
                ) == Ok::<RegistryModel, ErrorModel>(final(deps)@),
                Err(e) => final(deps)@ == old(deps)@ && ((model_kind(value@) != self.kind && e@
                    == (ErrorModel::TypeMismatch {
                    key: self.name@,
                    expected: self.kind,
                    actual: model_kind(value@),
                })) || (model_kind(value@) == self.kind && spec_register(
                    old(deps)@,
                    self.name@,
                    value@,
                ) == Err::<RegistryModel, ErrorModel>(e@))),
            },
    {
        let actual = value.kind();
        if actual != self.kind {
            Err(
                Error::TypeMismatch {
                    key: self.name.clone(),
                    expected: self.kind,
                    actual,
                },
            )
        } else {
            deps.register(self.name.as_str(), value)
        }
    }

    /// The bound value; access before the first store is a missing binding.
    pub fn get(&self, deps: &Dependencies) -> (r: Result<Value, Error>)
        ensures
            match r {
                Ok(v) => spec_resolve(deps@, self.name@, self.kind) == Ok::<
                    ValueModel,
                    ErrorModel,
                >(v@),
                Err(e) => spec_resolve(deps@, self.name@, self.kind) == Err::<
                    ValueModel,
                    ErrorModel,
                >(e@),
            },
    {
        deps.resolve(self.name.as_str(), self.kind)
    }
}

/// The pure function a provider applies to its dependency's value.
#[derive(Clone, Copy, Debug, PartialEq, Eq, Structural)]
pub enum Transform {
    /// The first `n` characters of a text, or all of it when shorter.
    TextPrefix(usize),
    /// The path of a URL.
    PathOf,
    /// The path components of a URL.
    ComponentsOf,
    /// The query arguments of a URL.
    QueryOf,
}

/// The shape a transform reads.
pub open spec fn transform_wants(t: Transform) -> Kind {
    match t {
        Transform::TextPrefix(_) => Kind::Text,
        Transform::PathOf => Kind::Url,
        Transform::ComponentsOf => Kind::Url,
        Transform::QueryOf => Kind::Url,
    }
}

/// What a transform yields, or nothing on a value of the wrong shape.
pub open spec fn apply_transform(t: Transform, m: ValueModel) -> Option<ValueModel> {
    match (t, m) {
        (Transform::TextPrefix(n), ValueModel::Text(s)) => Some(
            ValueModel::Text(s.take(if n <= s.len() { n as int } else { s.len() as int })),
        ),
        (Transform::PathOf, ValueModel::Url(u)) => Some(ValueModel::Text(u.path)),
        (Transform::ComponentsOf, ValueModel::Url(u)) => Some(ValueModel::TextList(u.components)),
        (Transform::QueryOf, ValueModel::Url(u)) => Some(ValueModel::TextMap(u.query)),
        _ => None,
    }
}

/// A derived capability: reads its source capability and applies a pure
/// function to the value, anew on every access.
pub struct Provider {
    pub source: Capability,
    pub transform: Transform,
}

impl Provider {
    /// The derived value, recomputed from the source's current value.
    pub fn get(&self, deps: &Dependencies) -> (r: Result<Value, Error>)
        ensures
            match r {
                Ok(v) => spec_resolve(deps@, self.source.name@, self.source.kind) is Ok
                    && apply_transform(
                    self.transform,
                    spec_resolve(deps@, self.source.name@, self.source.kind)->Ok_0,
                ) == Some(v@),
                Err(e) => (spec_resolve(deps@, self.source.name@, self.source.kind) == Err::<
                    ValueModel,
                    ErrorModel,
                >(e@)) || (spec_resolve(deps@, self.source.name@, self.source.kind) is Ok
                    && apply_transform(
                    self.transform,
                    spec_resolve(deps@, self.source.name@, self.source.kind)->Ok_0,
                ) is None && e@ == (ErrorModel::TypeMismatch {
                    key: self.source.name@,
                    expected: transform_wants(self.transform),
                    actual: model_kind(
                        spec_resolve(deps@, self.source.name@, self.source.kind)->Ok_0,
                    ),
                })),
            },
    {
        let got = self.source.get(deps);
        match got {
            Err(e) => Err(e),
            Ok(v) => match &self.transform {
                Transform::TextPrefix(n) => match v {
                    Value::Text(s) => Ok(Value::Text(text_prefix(&s, *n))),
                    other => Err(self.mismatch(&other)),
                },
                Transform::PathOf => match v {
                    Value::Url(u) => Ok(Value::Text(String::from_str(u.path()))),
                    other => Err(self.mismatch(&other)),
                },
                Transform::ComponentsOf => match v {
                    Value::Url(u) => Ok(Value::TextList(duplicate_texts(u.path_components()))),
                    other => Err(self.mismatch(&other)),
                },
                Transform::QueryOf => match v {
                    Value::Url(u) => Ok(Value::TextMap(u.query().duplicate())),
                    other => Err(self.mismatch(&other)),
                },
            },
        }
    }

    fn mismatch(&self, v: &Value) -> (r: Error)
        ensures
            r@ == (ErrorModel::TypeMismatch {
                key: self.source.name@,
                expected: transform_wants(self.transform),
                actual: model_kind(v@),
            }),
    {
        let expected = match &self.transform {
            Transform::TextPrefix(_) => Kind::Text,
            Transform::PathOf => Kind::Url,
            Transform::ComponentsOf => Kind::Url,
            Transform::QueryOf => Kind::Url,
        };
        Error::TypeMismatch { key: self.source.name.clone(), expected, actual: v.kind() }
    }
}

/// The first `n` characters of `s`, or all of `s` when it is shorter.
fn text_prefix(s: &String, n: usize) -> (r: String)
    ensures
        r@ == s@.take(if n <= s@.len() { n as int } else { s@.len() as int }),
{
    let len = s.as_str().unicode_len();
    let take = if n <= len {
        n
    } else {
        len
    };
    let r = String::from_str(s.as_str().substring_char(0, take));
    proof {
        assert(r@ =~= s@.take(take as int));
    }
    r
}

} // verus!
