//! The closed set of shapes a registry value can take.
//!
//! The registry holds values of statically unknown shape under string keys;
//! rather than erasing types and recovering them by downcast, the shapes are
//! a closed, tagged set, and a caller that retrieves a value states the tag
//! it expects.

use vstd::prelude::*;
use vstd::cell::invcell::InvCell;
use vstd::predicate::Predicate;
use std::rc::Rc;
use crate::assoc::AssocList;
use crate::url::{UrlModel, UrlParts};

verus! {

/// The shape of a stored value, stated by callers at retrieval.
#[derive(Clone, Copy, Debug, PartialEq, Eq, Structural)]
pub enum Kind {
    Int,
    Text,
    TextList,
    TextMap,
    Url,
    Wrap,
    Tree,
    Shared,
}

/// Admits every counter value.
pub struct AnyU64;

impl Predicate<u64> for AnyU64 {
    open spec fn predicate(&self, v: u64) -> bool {
        true
    }
}

/// A handle to a shared mutable counter. Duplicating the handle yields
/// another handle to the same storage, so an update through one handle is
/// seen through every other; reads and read-modify-write updates go through
/// a guarded cell one at a time.
pub struct SharedCounter {
    cell: Rc<InvCell<u64, AnyU64>>,
}

impl SharedCounter {
    /// A fresh counter holding `v`.
    pub fn new(v: u64) -> SharedCounter {
        SharedCounter { cell: Rc::new(InvCell::new(v, Ghost(AnyU64))) }
    }

    /// Another handle to the same storage.
    pub fn handle(&self) -> (r: SharedCounter)
        ensures
            r == self,
    {
        SharedCounter { cell: self.cell.clone() }
    }

    /// The value at the moment of the read; another handle may change it at
    /// any time, so no call pins it.
    pub fn get(&self) -> u64 {
        self.cell.get()
    }

    /// Stores `v`.
    pub fn set(&self, v: u64) {
        self.cell.set(v);
    }

    /// Adds one as a single read-modify-write step, wrapping at the top of
    /// the range, and reports the value read and the value written.
    pub fn increment(&self) -> (r: (u64, u64))
        ensures
            r.1 == if r.0 == u64::MAX {
                0u64
            } else {
                (r.0 + 1) as u64
            },
    {
        let seen = self.cell.get();
        let next = if seen == u64::MAX {
            0
        } else {
            seen + 1
        };
        self.cell.set(next);
        (seen, next)
    }
}

/// A value the registry can hold.
pub enum Value {
    /// A plain integer.
    Int(i64),
    /// A piece of text.
    Text(String),
    /// An ordered list of texts, such as the components of a URL path.
    TextList(Vec<String>),
    /// A map from texts to texts, such as the arguments of a URL query.
    TextMap(AssocList<String>),
    /// A URL split into its parts.
    Url(Box<UrlParts>),
    /// A record holding one other value.
    Wrap(Box<Value>),
    /// A resolved scope: a parent value with the constructed children.
    Tree { parent: Box<Value>, children: Vec<Value> },
    /// A handle to a shared mutable counter.
    Shared(SharedCounter),
}

/// What a value denotes.
pub enum ValueModel {
    Int(int),
    Text(Seq<char>),
    TextList(Seq<Seq<char>>),
    TextMap(Map<Seq<char>, Seq<char>>),
    Url(UrlModel),
    Wrap(Box<ValueModel>),
    Tree { parent: Box<ValueModel>, children: Seq<ValueModel> },
    Shared(SharedCounter),
}

pub open spec fn value_model(v: Value) -> ValueModel
    decreases v,
{
    match v {
        Value::Int(i) => ValueModel::Int(i as int),
        Value::Text(s) => ValueModel::Text(s@),
        Value::TextList(l) => ValueModel::TextList(l.deep_view()),
        Value::TextMap(m) => ValueModel::TextMap(m@),
        Value::Url(u) => ValueModel::Url(u@),
        Value::Wrap(b) => ValueModel::Wrap(Box::new(value_model(*b))),
        Value::Tree { parent, children } => ValueModel::Tree {
            parent: Box::new(value_model(*parent)),
            children: value_models(children@),
        },
        Value::Shared(c) => ValueModel::Shared(c),
    }
}

pub open spec fn value_models(s: Seq<Value>) -> Seq<ValueModel>
    decreases s,
{
    if s.len() == 0 {
        Seq::empty()
    } else {
        seq![value_model(s[0])] + value_models(s.drop_first())
    }
}

pub proof fn lemma_value_models_index(s: Seq<Value>, i: int)
    requires
        0 <= i < s.len(),
    ensures
        value_models(s).len() == s.len(),
        value_models(s)[i] == value_model(s[i]),
    decreases s.len(),
{
    lemma_value_models_len(s);
    if i > 0 {
        lemma_value_models_index(s.drop_first(), i - 1);
    }
}

pub proof fn lemma_value_models_len(s: Seq<Value>)
    ensures
        value_models(s).len() == s.len(),
    decreases s.len(),
{
    if s.len() > 0 {
        lemma_value_models_len(s.drop_first());
    }
}

/// `value_models` agrees with the deep view of a vector of values.
pub proof fn lemma_deep_view_is_models(v: &Vec<Value>)
    ensures
        v.deep_view() == value_models(v@),
{
    lemma_value_models_len(v@);
    assert forall|i: int| 0 <= i < v@.len() implies value_models(v@)[i] == v.deep_view()[i] by {
        lemma_value_models_index(v@, i);
    }
    assert(v.deep_view() =~= value_models(v@));
}

impl View for Value {
    type V = ValueModel;

    open spec fn view(&self) -> ValueModel {
        value_model(*self)
    }
}

impl DeepView for Value {
    type V = ValueModel;

    open spec fn deep_view(&self) -> ValueModel {
        value_model(*self)
    }
}

/// The tag of a denoted value.
pub open spec fn model_kind(m: ValueModel) -> Kind {
    match m {
        ValueModel::Int(_) => Kind::Int,
        ValueModel::Text(_) => Kind::Text,
        ValueModel::TextList(_) => Kind::TextList,
        ValueModel::TextMap(_) => Kind::TextMap,
        ValueModel::Url(_) => Kind::Url,
        ValueModel::Wrap(_) => Kind::Wrap,
        ValueModel::Tree { .. } => Kind::Tree,
        ValueModel::Shared(_) => Kind::Shared,
    }
}

impl Value {
    /// The shape of this value.
    pub fn kind(&self) -> (k: Kind)
        ensures
            k == model_kind(self@),
    {
        match self {
            Value::Int(_) => Kind::Int,
            Value::Text(_) => Kind::Text,
            Value::TextList(_) => Kind::TextList,
            Value::TextMap(_) => Kind::TextMap,
            Value::Url(_) => Kind::Url,
            Value::Wrap(_) => Kind::Wrap,
            Value::Tree { .. } => Kind::Tree,
            Value::Shared(_) => Kind::Shared,
        }
    }

    /// An independent copy denoting the same thing; for a shared handle, a
    /// further handle to the same storage.
    #[verifier::loop_isolation(false)]
    pub fn duplicate(&self) -> (r: Value)
        ensures
            r@ == self@,
        decreases self,
    {
        match self {
            Value::Int(i) => Value::Int(*i),
            Value::Text(s) => Value::Text(s.clone()),
            Value::TextList(l) => {
                let c = crate::text::duplicate_texts(l);
                proof {
                    assert(ValueModel::TextList(c.deep_view()) == ValueModel::TextList(
                        l.deep_view(),
                    ));
                }
                Value::TextList(c)
            },
            Value::TextMap(m) => Value::TextMap(m.duplicate()),
            Value::Url(u) => Value::Url(Box::new(u.duplicate())),
            Value::Wrap(b) => Value::Wrap(Box::new(b.duplicate())),
            Value::Tree { parent, children } => {
                let p = parent.duplicate();
                let n = children.len();
                let mut out: Vec<Value> = Vec::new();
                let mut i: usize = 0;
                while i < n
                    invariant
                        i <= n,
                        n == children@.len(),
                        out@.len() == i,
                        forall|j: int| 0 <= j < i ==> out@[j]@ == children@[j]@,
                    decreases n - i,
                {
                    proof {
                        assert(decreases_to!(*self => self->children));
                        assert(decreases_to!(self->children => children@[i as int]));
                    }
                    let c = children[i].duplicate();
                    out.push(c);
                    i += 1;
                }
                proof {
                    lemma_value_models_pointwise(out@, children@);
                }
                Value::Tree { parent: Box::new(p), children: out }
            },
            Value::Shared(c) => Value::Shared(c.handle()),
        }
    }
}

proof fn lemma_value_models_pointwise(a: Seq<Value>, b: Seq<Value>)
    requires
        a.len() == b.len(),
        forall|j: int| 0 <= j < a.len() ==> a[j]@ == b[j]@,
    ensures
        value_models(a) == value_models(b),
    decreases a.len(),
{
    if a.len() > 0 {
        assert(forall|j: int|
            0 <= j < a.drop_first().len() ==> a.drop_first()[j]@ == b.drop_first()[j]@);
        lemma_value_models_pointwise(a.drop_first(), b.drop_first());
    }
}

} // verus!
