//! The factory responder: the sharing variant of the registry in use. Its
//! store holds a shared counter under `count`; every request resolves the
//! counter — receiving a handle to the same storage, not a copy — and steps
//! it, so the count survives across requests and is seen through every
//! handle.

use vstd::prelude::*;
use vstd::pervasive::unreached;
use crate::registry::{Dependencies, Error, RegistryModel, spec_resolve};
use crate::url::UrlParts;
use crate::value::{Kind, SharedCounter, Value, ValueModel, model_kind};

verus! {

/// A responder whose dependency container carries state across requests.
pub struct Factory {
    container: Dependencies,
}

impl View for Factory {
    type V = RegistryModel;

    closed spec fn view(&self) -> RegistryModel {
        self.container@
    }
}

impl Factory {
    /// A factory whose container holds a fresh shared counter at `count`.
    pub fn new() -> (r: Factory)
        ensures
            r@.bindings.contains_key("count"@),
            model_kind(r@.bindings["count"@]) == Kind::Shared,
            r@.bindings == Map::<Seq<char>, ValueModel>::empty().insert(
                "count"@,
                r@.bindings["count"@],
            ),
            r@.constructors == Map::<Seq<char>, Seq<crate::registry::CtorModel>>::empty(),
    {
        let mut c = Dependencies::new();
        let counter = SharedCounter::new(0);
        match c.register("count", Value::Shared(counter)) {
            Ok(_) => Factory { container: c },
            Err(_) => unreached(),
        }
    }

    /// Handles one request: stores the request's URL parts under
    /// `url_parts` — keeping an earlier binding if one request already did —
    /// then steps the shared counter and reports the value written.
    pub fn respond(&mut self, parts: UrlParts) -> (r: Result<u64, Error>)
        ensures
            final(self)@.constructors == old(self)@.constructors,
            old(self)@.bindings.contains_key("url_parts"@) ==> final(self)@.bindings == old(
                self,
            )@.bindings,
            !old(self)@.bindings.contains_key("url_parts"@) ==> final(self)@.bindings == old(
                self,
            )@.bindings.insert("url_parts"@, ValueModel::Url(parts@)),
            match r {
                Ok(_) => old(self)@.bindings.contains_key("count"@) && model_kind(
                    old(self)@.bindings["count"@],
                ) == Kind::Shared,
                Err(e) => spec_resolve(final(self)@, "count"@, Kind::Shared) == Err::<
                    ValueModel,
                    crate::registry::ErrorModel,
                >(e@),
            },
    {
        proof {
            reveal_strlit("count");
            reveal_strlit("url_parts");
            assert("count"@.len() != "url_parts"@.len());
        }
        let _ = self.container.register("url_parts", Value::Url(Box::new(parts)));
        match self.container.resolve("count", Kind::Shared) {
            Ok(v) => match v {
                Value::Shared(c) => {
                    let (_, written) = c.increment();
                    Ok(written)
                },
                _ => unreached(),
            },
            Err(e) => Err(e),
        }
    }
}

} // verus!
