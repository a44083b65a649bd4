//! The typed dependency registry.
//!
//! A `Dependencies` store keeps two separate namespaces under string keys:
//! *bindings*, each holding one value, and *constructor lists*, each holding
//! the ordered recipes that fire when the key is resolved against a parent
//! value. Registering a second binding at a bound key fails and leaves the
//! store unchanged; registering further constructors at a key is the normal
//! fan-out and never fails. Resolution is depth-first and eager: running the
//! constructors of a key evaluates every recipe in registration order, and a
//! recipe that resolves another key finishes that nested resolution
//! completely before the next sibling fires. Nothing is memoized: every run
//! rebuilds its scope from scratch.

use vstd::prelude::*;
use vstd::string::StringExecFns;
use crate::assoc::AssocList;
use crate::value::{Kind, Value, ValueModel, model_kind};

verus! {

/// How deep nested resolutions may go before a cycle among constructor keys
/// is reported instead of followed forever.
pub const MAX_DEPTH: u64 = 64;

/// A recipe registered at a key: plain data instead of a captured closure,
/// so that what a constructor does is stated by its shape.
pub enum Constructor {
    /// Yields a fixed value, whatever the parent is.
    Const(Value),
    /// Yields the parent wrapped into a one-field record.
    WrapParent,
    /// Yields a copy of the binding at the named key; fails when the key is
    /// unbound.
    UseBinding(String),
    /// Runs the constructors at the named key against the given seed and
    /// yields the resolved scope as a tree value.
    Nested { key: String, seed: Value },
}

/// What a constructor denotes.
pub enum CtorModel {
    Const(ValueModel),
    WrapParent,
    UseBinding(Seq<char>),
    Nested { key: Seq<char>, seed: ValueModel },
}

pub open spec fn ctor_model(c: Constructor) -> CtorModel {
    match c {
        Constructor::Const(v) => CtorModel::Const(v@),
        Constructor::WrapParent => CtorModel::WrapParent,
        Constructor::UseBinding(k) => CtorModel::UseBinding(k@),
        Constructor::Nested { key, seed } => CtorModel::Nested { key: key@, seed: seed@ },
    }
}

impl View for Constructor {
    type V = CtorModel;

    open spec fn view(&self) -> CtorModel {
        ctor_model(*self)
    }
}

impl DeepView for Constructor {
    type V = CtorModel;

    open spec fn deep_view(&self) -> CtorModel {
        ctor_model(*self)
    }
}

impl Constructor {
    /// An independent copy denoting the same recipe.
    pub fn duplicate(&self) -> (r: Constructor)
        ensures
            r@ == self@,
    {
        match self {
            Constructor::Const(v) => Constructor::Const(v.duplicate()),
            Constructor::WrapParent => Constructor::WrapParent,
            Constructor::UseBinding(k) => Constructor::UseBinding(k.clone()),
            Constructor::Nested { key, seed } => Constructor::Nested {
                key: key.clone(),
                seed: seed.duplicate(),
            },
        }
    }
}

/// Why a registration or a resolution failed.
pub enum Error {
    /// The key already holds a binding; both the value that was there and
    /// the value that was turned away are reported.
    DuplicateBinding { key: String, existing: Value, attempted: Value },
    /// Resolution was asked of a key with no binding.
    MissingBinding { key: String },
    /// The binding at the key does not hold the shape the caller stated.
    TypeMismatch { key: String, expected: Kind, actual: Kind },
    /// A constructor registered at the key failed; the cause is kept.
    ConstructorFailure { key: String, cause: Box<Error> },
    /// Nested resolutions exceeded the depth bound: the constructor keys
    /// form a cycle that the recipes would follow forever.
    DepthExceeded { key: String },
}

/// What an error denotes.
pub enum ErrorModel {
    DuplicateBinding { key: Seq<char>, existing: ValueModel, attempted: ValueModel },
    MissingBinding { key: Seq<char> },
    TypeMismatch { key: Seq<char>, expected: Kind, actual: Kind },
    ConstructorFailure { key: Seq<char>, cause: Box<ErrorModel> },
    DepthExceeded { key: Seq<char> },
}

pub open spec fn error_model(e: Error) -> ErrorModel
    decreases e,
{
    match e {
        Error::DuplicateBinding { key, existing, attempted } => ErrorModel::DuplicateBinding {
            key: key@,
            existing: existing@,
            attempted: attempted@,
        },
        Error::MissingBinding { key } => ErrorModel::MissingBinding { key: key@ },
        Error::TypeMismatch { key, expected, actual } => ErrorModel::TypeMismatch {
            key: key@,
            expected,
            actual,
        },
        Error::ConstructorFailure { key, cause } => ErrorModel::ConstructorFailure {
            key: key@,
            cause: Box::new(error_model(*cause)),
        },
        Error::DepthExceeded { key } => ErrorModel::DepthExceeded { key: key@ },
    }
}

impl View for Error {
    type V = ErrorModel;

    open spec fn view(&self) -> ErrorModel {
        error_model(*self)
    }
}

/// The transient result of resolving a key: the parent value and the
/// type-erased results of the key's constructors, in registration order.
pub struct Scope {
    pub parent: Value,
    pub children: Vec<Value>,
}

/// What a scope denotes.
pub struct ScopeModel {
    pub parent: ValueModel,
    pub children: Seq<ValueModel>,
}

impl View for Scope {
    type V = ScopeModel;

    open spec fn view(&self) -> ScopeModel {
        ScopeModel { parent: self.parent@, children: self.children.deep_view() }
    }
}

/// What a registry holds: its bindings and its constructor lists, two
/// separate namespaces.
pub struct RegistryModel {
    pub bindings: Map<Seq<char>, ValueModel>,
    pub constructors: Map<Seq<char>, Seq<CtorModel>>,
}

/// The constructors registered at `key`, the empty fan-out when none are.
pub open spec fn ctors_at(reg: RegistryModel, key: Seq<char>) -> Seq<CtorModel> {
    if reg.constructors.contains_key(key) {
        reg.constructors[key]
    } else {
        Seq::empty()
    }
}

/// What evaluating one constructor yields.
pub open spec fn spec_eval(reg: RegistryModel, c: CtorModel, parent: ValueModel, fuel: nat) -> Result<
    ValueModel,
    ErrorModel,
>
    decreases fuel, 0int, 0int,
{
    match c {
        CtorModel::Const(v) => Ok(v),
        CtorModel::WrapParent => Ok(ValueModel::Wrap(Box::new(parent))),
        CtorModel::UseBinding(k) => if reg.bindings.contains_key(k) {
            Ok(reg.bindings[k])
        } else {
            Err(ErrorModel::MissingBinding { key: k })
        },
        CtorModel::Nested { key, seed } => {
            if fuel == 0 {
                Err(ErrorModel::DepthExceeded { key })
            } else {
                match spec_run(reg, key, seed, (fuel - 1) as nat) {
                    Ok(s) => Ok(
                        ValueModel::Tree { parent: Box::new(s.parent), children: s.children },
                    ),
                    Err(e) => Err(e),
                }
            }
        },
    }
}

/// What evaluating the constructors `cs[from..]` yields: the children in
/// order, or the first failure.
pub open spec fn spec_run_list(
    reg: RegistryModel,
    cs: Seq<CtorModel>,
    from: int,
    parent: ValueModel,
    fuel: nat,
) -> Result<Seq<ValueModel>, ErrorModel>
    decreases fuel, cs.len() - from, 1int,
{
    if from < 0 || from >= cs.len() {
        Ok(Seq::empty())
    } else {
        match spec_eval(reg, cs[from], parent, fuel) {
            Ok(v) => match spec_run_list(reg, cs, from + 1, parent, fuel) {
                Ok(rest) => Ok(seq![v] + rest),
                Err(e) => Err(e),
            },
            Err(e) => Err(e),
        }
    }
}

/// What resolving `key` against `parent` yields: a scope holding the parent
/// and every constructor's result in registration order, or the first
/// constructor failure, wrapped with the key it happened under.
pub open spec fn spec_run(reg: RegistryModel, key: Seq<char>, parent: ValueModel, fuel: nat) -> Result<
    ScopeModel,
    ErrorModel,
>
    decreases fuel, ctors_at(reg, key).len() + 1, 2int,
{
    match spec_run_list(reg, ctors_at(reg, key), 0, parent, fuel) {
        Ok(children) => Ok(ScopeModel { parent, children }),
        Err(e) => Err(ErrorModel::ConstructorFailure { key, cause: Box::new(e) }),
    }
}

/// What typed retrieval at `key` yields.
pub open spec fn spec_resolve(reg: RegistryModel, key: Seq<char>, want: Kind) -> Result<
    ValueModel,
    ErrorModel,
> {
    if !reg.bindings.contains_key(key) {
        Err(ErrorModel::MissingBinding { key })
    } else if model_kind(reg.bindings[key]) != want {
        Err(
            ErrorModel::TypeMismatch {
                key,
                expected: want,
                actual: model_kind(reg.bindings[key]),
            },
        )
    } else {
        Ok(reg.bindings[key])
    }
}

/// What registering a binding yields: the extended registry, or a conflict
/// reporting both the new and the existing value.
pub open spec fn spec_register(reg: RegistryModel, key: Seq<char>, v: ValueModel) -> Result<
    RegistryModel,
    ErrorModel,
> {
    if reg.bindings.contains_key(key) {
        Err(
            ErrorModel::DuplicateBinding {
                key,
                existing: reg.bindings[key],
                attempted: v,
            },
        )
    } else {
        Ok(RegistryModel { bindings: reg.bindings.insert(key, v), constructors: reg.constructors })
    }
}

/// What registering a constructor yields: the recipe appended to the key's
/// fan-out; never a failure.
pub open spec fn spec_add(reg: RegistryModel, key: Seq<char>, c: CtorModel) -> RegistryModel {
    RegistryModel {
        bindings: reg.bindings,
        constructors: reg.constructors.insert(key, ctors_at(reg, key).push(c)),
    }
}

/// The registry: every binding and every constructor list, owned here.
pub struct Dependencies {
    bindings: AssocList<Value>,
    constructors: AssocList<Vec<Constructor>>,
}

impl View for Dependencies {
    type V = RegistryModel;

    closed spec fn view(&self) -> RegistryModel {
        RegistryModel { bindings: self.bindings@, constructors: self.constructors@ }
    }
}

impl Dependencies {
    /// An empty registry.
    pub fn new() -> (r: Dependencies)
        ensures
            r@.bindings == Map::<Seq<char>, ValueModel>::empty(),
            r@.constructors == Map::<Seq<char>, Seq<CtorModel>>::empty(),
    {
        Dependencies { bindings: AssocList::new(), constructors: AssocList::new() }
    }

    /// Stores `value` under `key`; a key that already holds a binding turns
    /// the new value away and keeps what it had.
    pub fn register(&mut self, key: &str, value: Value) -> (r: Result<(), Error>)
        ensures
            match r {
                Ok(_) => spec_register(old(self)@, key@, value@) == Ok::<RegistryModel, ErrorModel>(
                    final(self)@,
                ),
                Err(e) => spec_register(old(self)@, key@, value@) == Err::<
                    RegistryModel,
                    ErrorModel,
                >(e@) && final(self)@ == old(self)@,
            },
    {
        match self.bindings.get(key) {
            Some(existing) => Err(
                Error::DuplicateBinding {
                    key: String::from_str(key),
                    existing: existing.duplicate(),
                    attempted: value,
                },
            ),
            None => {
                self.bindings.insert(String::from_str(key), value);
                Ok(())
            },
        }
    }

    /// The binding at `key`, as an independent copy (for a shared handle:
    /// another handle to the same storage), provided it holds the shape the
    /// caller states.
    pub fn resolve(&self, key: &str, want: Kind) -> (r: Result<Value, Error>)
        ensures
            match r {
                Ok(v) => spec_resolve(self@, key@, want) == Ok::<ValueModel, ErrorModel>(v@),
                Err(e) => spec_resolve(self@, key@, want) == Err::<ValueModel, ErrorModel>(e@),
            },
    {
        match self.bindings.get(key) {
            None => Err(Error::MissingBinding { key: String::from_str(key) }),
            Some(v) => {
                let actual = v.kind();
                if actual != want {
                    Err(
                        Error::TypeMismatch {
                            key: String::from_str(key),
                            expected: want,
                            actual,
                        },
                    )
                } else {
                    Ok(v.duplicate())
                }
            },
        }
    }

    /// Appends `constructor` to the fan-out at `key`; repeat registration is
    /// the normal case and never fails.
    pub fn add(&mut self, key: &str, constructor: Constructor)
        ensures
            final(self)@ == spec_add(old(self)@, key@, constructor@),
    {
        let list: Vec<Constructor> = match self.constructors.get(key) {
            Some(l) => {
                let mut l2 = duplicate_ctors(l);
                l2.push(constructor);
                proof {
                    assert(l2.deep_view() =~= ctors_at(self@, key@).push(constructor@));
                }
                l2
            },
            None => {
                let mut l2: Vec<Constructor> = Vec::new();
                l2.push(constructor);
                proof {
                    assert(l2.deep_view() =~= ctors_at(self@, key@).push(constructor@));
                }
                l2
            },
        };
        self.constructors.insert(String::from_str(key), list);
    }

    /// Runs every constructor at `key` in registration order against
    /// `parent`, which the scope takes over; a key without constructors
    /// yields the empty fan-out, not an error.
    pub fn run_constructors(&self, key: &str, parent: Value) -> (r: Result<Scope, Error>)
        ensures
            match r {
                Ok(s) => spec_run(self@, key@, parent@, MAX_DEPTH as nat) == Ok::<
                    ScopeModel,
                    ErrorModel,
                >(s@),
                Err(e) => spec_run(self@, key@, parent@, MAX_DEPTH as nat) == Err::<
                    ScopeModel,
                    ErrorModel,
                >(e@),
            },
    {
        self.run_with_fuel(key, parent, MAX_DEPTH)
    }

    fn run_with_fuel(&self, key: &str, parent: Value, fuel: u64) -> (r: Result<Scope, Error>)
        ensures
            match r {
                Ok(s) => spec_run(self@, key@, parent@, fuel as nat) == Ok::<
                    ScopeModel,
                    ErrorModel,
                >(s@),
                Err(e) => spec_run(self@, key@, parent@, fuel as nat) == Err::<
                    ScopeModel,
                    ErrorModel,
                >(e@),
            },
        decreases fuel, ctors_at(self@, key@).len() + 1, 2int,
    {
        let children_r = match self.constructors.get(key) {
            Some(cs) => self.run_list(cs, 0, &parent, fuel),
            None => {
                let empty: Vec<Value> = Vec::new();
                proof {
                    assert(ctors_at(self@, key@) =~= Seq::<CtorModel>::empty());
                    assert(empty.deep_view() =~= Seq::<ValueModel>::empty());
                }
                Ok(empty)
            },
        };
        match children_r {
            Ok(children) => Ok(Scope { parent, children }),
            Err(e) => Err(
                Error::ConstructorFailure { key: String::from_str(key), cause: Box::new(e) },
            ),
        }
    }

    fn run_list(&self, cs: &Vec<Constructor>, from: usize, parent: &Value, fuel: u64) -> (r: Result<
        Vec<Value>,
        Error,
    >)
        ensures
            match r {
                Ok(vs) => spec_run_list(self@, cs.deep_view(), from as int, parent@, fuel as nat)
                    == Ok::<Seq<ValueModel>, ErrorModel>(vs.deep_view()),
                Err(e) => spec_run_list(self@, cs.deep_view(), from as int, parent@, fuel as nat)
                    == Err::<Seq<ValueModel>, ErrorModel>(e@),
            },
        decreases fuel, cs@.len() - from, 1int,
    {
        if from >= cs.len() {
            let empty: Vec<Value> = Vec::new();
            proof {
                assert(empty.deep_view() =~= Seq::<ValueModel>::empty());
            }
            Ok(empty)
        } else {
            match self.eval_ctor(&cs[from], parent, fuel) {
                Ok(v) => match self.run_list(cs, from + 1, parent, fuel) {
                    Ok(mut rest) => {
                        let ghost rest_model = rest.deep_view();
                        rest.insert(0, v);
                        proof {
                            assert(rest.deep_view() =~= seq![v@] + rest_model);
                        }
                        Ok(rest)
                    },
                    Err(e) => Err(e),
                },
                Err(e) => Err(e),
            }
        }
    }

    fn eval_ctor(&self, c: &Constructor, parent: &Value, fuel: u64) -> (r: Result<Value, Error>)
        ensures
            match r {
                Ok(v) => spec_eval(self@, c@, parent@, fuel as nat) == Ok::<
                    ValueModel,
                    ErrorModel,
                >(v@),
                Err(e) => spec_eval(self@, c@, parent@, fuel as nat) == Err::<
                    ValueModel,
                    ErrorModel,
                >(e@),
            },
        decreases fuel, 0int, 0int,
    {
        match c {
            Constructor::Const(v) => Ok(v.duplicate()),
            Constructor::WrapParent => Ok(Value::Wrap(Box::new(parent.duplicate()))),
            Constructor::UseBinding(k) => match self.bindings.get(k.as_str()) {
                Some(v) => Ok(v.duplicate()),
                None => Err(Error::MissingBinding { key: k.clone() }),
            },
            Constructor::Nested { key, seed } => {
                if fuel == 0 {
                    Err(Error::DepthExceeded { key: key.clone() })
                } else {
                    match self.run_with_fuel(key.as_str(), seed.duplicate(), fuel - 1) {
                        Ok(s) => {
                            let Scope { parent: sp, children: sc } = s;
                            proof {
                                crate::value::lemma_deep_view_is_models(&sc);
                            }
                            Ok(Value::Tree { parent: Box::new(sp), children: sc })
                        },
                        Err(e) => Err(e),
                    }
                }
            },
        }
    }
}

/// An independent copy of a constructor list.
fn duplicate_ctors(l: &Vec<Constructor>) -> (r: Vec<Constructor>)
    ensures
        r.deep_view() == l.deep_view(),
{
    let n = l.len();
    let mut out: Vec<Constructor> = Vec::new();
    let mut i: usize = 0;
    while i < n
        invariant
            i <= n,
            n == l@.len(),
            out@.len() == i,
            forall|j: int| 0 <= j < i ==> out@[j]@ == l@[j]@,
        decreases n - i,
    {
        out.push(l[i].duplicate());
        i += 1;
    }
    proof {
        assert(out.deep_view() =~= l.deep_view());
    }
    out
}

/// A key with neither a binding nor constructors: typed retrieval fails
/// with a missing binding, while running its constructors succeeds with the
/// empty fan-out — the two are never conflated.
pub proof fn law_unknown_key_not_conflated(
    reg: RegistryModel,
    key: Seq<char>,
    parent: ValueModel,
    want: Kind,
    fuel: nat,
)
    requires
        !reg.bindings.contains_key(key),
        !reg.constructors.contains_key(key),
    ensures
        spec_resolve(reg, key, want) == Err::<ValueModel, ErrorModel>(
            (ErrorModel::MissingBinding { key }),
        ),
        spec_run(reg, key, parent, fuel) == Ok::<ScopeModel, ErrorModel>(
            (ScopeModel { parent, children: Seq::empty() }),
        ),
{
    assert(ctors_at(reg, key) =~= Seq::<CtorModel>::empty());
}

/// A binding is returned exactly as registered when the stated shape is its
/// own, and retrieval under any other shape fails with a type mismatch.
pub proof fn law_resolve_returns_registered(
    reg: RegistryModel,
    key: Seq<char>,
    v: ValueModel,
    want: Kind,
)
    requires
        reg.bindings.contains_key(key),
        reg.bindings[key] == v,
    ensures
        want == model_kind(v) ==> spec_resolve(reg, key, want) == Ok::<ValueModel, ErrorModel>(v),
        want != model_kind(v) ==> spec_resolve(reg, key, want) == Err::<ValueModel, ErrorModel>(
            (ErrorModel::TypeMismatch { key, expected: want, actual: model_kind(v) }),
        ),
{
}

/// Registering at a bound key is turned away with a conflict that reports
/// both values, and the original binding still resolves unchanged.
pub proof fn law_duplicate_binding_rejected(
    reg: RegistryModel,
    key: Seq<char>,
    attempted: ValueModel,
)
    requires
        reg.bindings.contains_key(key),
    ensures
        spec_register(reg, key, attempted) == Err::<RegistryModel, ErrorModel>(
            (ErrorModel::DuplicateBinding { key, existing: reg.bindings[key], attempted }),
        ),
        spec_resolve(reg, key, model_kind(reg.bindings[key])) == Ok::<ValueModel, ErrorModel>(
            reg.bindings[key],
        ),
{
}

proof fn lemma_run_list_all_ok(
    reg: RegistryModel,
    cs: Seq<CtorModel>,
    from: int,
    parent: ValueModel,
    fuel: nat,
)
    requires
        0 <= from <= cs.len(),
        forall|i: int| from <= i < cs.len() ==> spec_eval(reg, cs[i], parent, fuel) is Ok,
    ensures
        spec_run_list(reg, cs, from, parent, fuel) is Ok,
        spec_run_list(reg, cs, from, parent, fuel)->Ok_0.len() == cs.len() - from,
        forall|i: int|
            from <= i < cs.len() ==> spec_run_list(reg, cs, from, parent, fuel)->Ok_0[i - from]
                == spec_eval(reg, cs[i], parent, fuel)->Ok_0,
    decreases cs.len() - from,
{
    if from < cs.len() {
        lemma_run_list_all_ok(reg, cs, from + 1, parent, fuel);
    }
}

/// Constructors fire in registration order: when every constructor at the
/// key succeeds on the parent, the children are exactly the constructors'
/// results, one each, in the order the constructors were registered.
pub proof fn law_children_in_registration_order(
    reg: RegistryModel,
    key: Seq<char>,
    parent: ValueModel,
    fuel: nat,
)
    requires
        forall|i: int|
            0 <= i < ctors_at(reg, key).len() ==> spec_eval(
                reg,
                ctors_at(reg, key)[i],
                parent,
                fuel,
            ) is Ok,
    ensures
        spec_run(reg, key, parent, fuel) is Ok,
        spec_run(reg, key, parent, fuel)->Ok_0.parent == parent,
        spec_run(reg, key, parent, fuel)->Ok_0.children.len() == ctors_at(reg, key).len(),
        forall|i: int|
            0 <= i < ctors_at(reg, key).len() ==> spec_run(reg, key, parent, fuel)->Ok_0.children[i]
                == spec_eval(reg, ctors_at(reg, key)[i], parent, fuel)->Ok_0,
{
    lemma_run_list_all_ok(reg, ctors_at(reg, key), 0, parent, fuel);
}

/// Three constructors registered in order yield exactly their three results
/// in that order, whatever each one does internally.
pub proof fn law_three_constructors_in_order(
    reg: RegistryModel,
    key: Seq<char>,
    parent: ValueModel,
    fuel: nat,
    c1: CtorModel,
    c2: CtorModel,
    c3: CtorModel,
)
    requires
        ctors_at(reg, key) == seq![c1, c2, c3],
        spec_eval(reg, c1, parent, fuel) is Ok,
        spec_eval(reg, c2, parent, fuel) is Ok,
        spec_eval(reg, c3, parent, fuel) is Ok,
    ensures
        spec_run(reg, key, parent, fuel) == Ok::<ScopeModel, ErrorModel>(
            (ScopeModel {
                parent,
                children: seq![
                    spec_eval(reg, c1, parent, fuel)->Ok_0,
                    spec_eval(reg, c2, parent, fuel)->Ok_0,
                    spec_eval(reg, c3, parent, fuel)->Ok_0,
                ],
            }),
        ),
{
    let cs = ctors_at(reg, key);
    assert(cs[0] == c1 && cs[1] == c2 && cs[2] == c3);
    law_children_in_registration_order(reg, key, parent, fuel);
    assert(spec_run(reg, key, parent, fuel)->Ok_0.children =~= seq![
        spec_eval(reg, c1, parent, fuel)->Ok_0,
        spec_eval(reg, c2, parent, fuel)->Ok_0,
        spec_eval(reg, c3, parent, fuel)->Ok_0,
    ]);
}

/// Depth-first completion: a constructor that resolves another key has that
/// nested resolution's complete scope — parent and all children — embedded
/// in its own result before the outer fan-out's list is finished.
pub proof fn law_nested_resolution_depth_first(
    reg: RegistryModel,
    key: Seq<char>,
    inner: Seq<char>,
    seed: ValueModel,
    parent: ValueModel,
    fuel: nat,
    nested: ScopeModel,
)
    requires
        ctors_at(reg, key) == seq![CtorModel::Nested { key: inner, seed }],
        fuel > 0,
        spec_run(reg, inner, seed, (fuel - 1) as nat) == Ok::<ScopeModel, ErrorModel>(nested),
    ensures
        spec_run(reg, key, parent, fuel) == Ok::<ScopeModel, ErrorModel>(
            (ScopeModel {
                parent,
                children: seq![
                    (ValueModel::Tree {
                        parent: Box::new(nested.parent),
                        children: nested.children,
                    }),
                ],
            }),
        ),
{
    let cs = ctors_at(reg, key);
    let c = CtorModel::Nested { key: inner, seed };
    assert(cs[0] == c);
    assert(spec_eval(reg, c, parent, fuel) == Ok::<ValueModel, ErrorModel>(
        (ValueModel::Tree { parent: Box::new(nested.parent), children: nested.children }),
    ));
    law_children_in_registration_order(reg, key, parent, fuel);
    assert(spec_run(reg, key, parent, fuel)->Ok_0.children =~= seq![
        (ValueModel::Tree { parent: Box::new(nested.parent), children: nested.children }),
    ]);
}

/// Resolution stated on the value being resolved: `v.resolve(key, deps)`
/// consumes `v` as the parent and runs the constructors at `key`.
pub trait Resolve: Sized {
    /// What the resolved parent denotes.
    spec fn parent_model(&self) -> ValueModel;

    fn resolve(self, key: &str, deps: &Dependencies) -> (r: Result<Scope, Error>)
        ensures
            match r {
                Ok(s) => spec_run(deps@, key@, self.parent_model(), MAX_DEPTH as nat) == Ok::<
                    ScopeModel,
                    ErrorModel,
                >(s@),
                Err(e) => spec_run(deps@, key@, self.parent_model(), MAX_DEPTH as nat) == Err::<
                    ScopeModel,
                    ErrorModel,
                >(e@),
            },
    ;
}

impl Resolve for Value {
    open spec fn parent_model(&self) -> ValueModel {
        self@
    }

    fn resolve(self, key: &str, deps: &Dependencies) -> (r: Result<Scope, Error>) {
        deps.run_constructors(key, self)
    }
}

} // verus!
