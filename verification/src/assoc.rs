//! A string-keyed store kept as a vector of pairs with pairwise distinct
//! keys, abstracted as a `Map` from character sequences to the deep views of
//! the stored values. The registry keeps its bindings and its constructor
//! lists in such stores; the URL query component is one as well.

use vstd::prelude::*;
use crate::text::str_eq;

verus! {

/// No two entries share a key.
pub open spec fn entry_keys_unique<T>(s: Seq<(String, T)>) -> bool {
    forall|i: int, j: int| 0 <= i < j < s.len() ==> s[i].0@ != s[j].0@
}

/// The map abstraction of an entry sequence; a later entry with the same key
/// would shadow an earlier one.
pub open spec fn map_of<T: DeepView>(s: Seq<(String, T)>) -> Map<Seq<char>, <T as DeepView>::V>
    decreases s.len(),
{
    if s.len() == 0 {
        Map::empty()
    } else {
        map_of(s.drop_last()).insert(s.last().0@, s.last().1.deep_view())
    }
}

pub proof fn lemma_map_of_contains<T: DeepView>(s: Seq<(String, T)>, k: Seq<char>)
    ensures
        map_of(s).contains_key(k) <==> (exists|i: int| 0 <= i < s.len() && s[i].0@ == k),
    decreases s.len(),
{
    if s.len() > 0 {
        lemma_map_of_contains(s.drop_last(), k);
        if s.last().0@ == k {
            assert(s[s.len() - 1].0@ == k);
        } else {
            if map_of(s).contains_key(k) {
                let i = choose|i: int| 0 <= i < s.drop_last().len() && s.drop_last()[i].0@ == k;
                assert(s[i].0@ == k);
            }
            if exists|i: int| 0 <= i < s.len() && s[i].0@ == k {
                let i = choose|i: int| 0 <= i < s.len() && s[i].0@ == k;
                assert(s.drop_last()[i].0@ == k);
            }
        }
    }
}

pub proof fn lemma_map_of_get<T: DeepView>(s: Seq<(String, T)>, i: int)
    requires
        entry_keys_unique(s),
        0 <= i < s.len(),
    ensures
        map_of(s).contains_key(s[i].0@),
        map_of(s)[s[i].0@] == s[i].1.deep_view(),
    decreases s.len(),
{
    if i < s.len() - 1 {
        assert(entry_keys_unique(s.drop_last()));
        lemma_map_of_get(s.drop_last(), i);
        assert(s.drop_last()[i] == s[i]);
        assert(s.last().0@ != s[i].0@);
    }
}

pub proof fn lemma_map_of_len<T: DeepView>(s: Seq<(String, T)>)
    requires
        entry_keys_unique(s),
    ensures
        map_of(s).dom().finite(),
        map_of(s).dom().len() == s.len(),
    decreases s.len(),
{
    if s.len() > 0 {
        assert(entry_keys_unique(s.drop_last()));
        lemma_map_of_len(s.drop_last());
        lemma_map_of_contains(s.drop_last(), s.last().0@);
        assert(forall|i: int|
            0 <= i < s.drop_last().len() ==> s.drop_last()[i].0@ != s.last().0@);
        assert(!map_of(s.drop_last()).contains_key(s.last().0@));
    }
}

pub proof fn lemma_map_of_update<T: DeepView>(s: Seq<(String, T)>, i: int, k: String, v: T)
    requires
        entry_keys_unique(s),
        0 <= i < s.len(),
        k@ == s[i].0@,
    ensures
        entry_keys_unique(s.update(i, (k, v))),
        map_of(s.update(i, (k, v))) == map_of(s).insert(k@, v.deep_view()),
    decreases s.len(),
{
    let su = s.update(i, (k, v));
    assert(entry_keys_unique(su));
    if i == s.len() - 1 {
        assert(su.drop_last() =~= s.drop_last());
        assert(su.last() == (k, v));
        assert(map_of(su) == map_of(s.drop_last()).insert(k@, v.deep_view()));
        assert(map_of(s).insert(k@, v.deep_view()) =~= map_of(s.drop_last()).insert(
            k@,
            v.deep_view(),
        ));
    } else {
        assert(entry_keys_unique(s.drop_last()));
        lemma_map_of_update(s.drop_last(), i, k, v);
        assert(su.drop_last() =~= s.drop_last().update(i, (k, v)));
        assert(su.last() == s.last());
        assert(map_of(su) == map_of(s.drop_last()).insert(k@, v.deep_view()).insert(
            s.last().0@,
            s.last().1.deep_view(),
        ));
        assert(s.last().0@ != k@);
        assert(map_of(s.drop_last()).insert(k@, v.deep_view()).insert(
            s.last().0@,
            s.last().1.deep_view(),
        ) =~= map_of(s).insert(k@, v.deep_view()));
    }
}

/// The position of the first entry whose key reads `k`.
fn find_key<T>(entries: &Vec<(String, T)>, k: &str) -> (r: Option<usize>)
    ensures
        match r {
            Some(i) => i < entries@.len() && entries@[i as int].0@ == k@,
            None => forall|i: int| 0 <= i < entries@.len() ==> entries@[i].0@ != k@,
        },
{
    let n = entries.len();
    let mut i: usize = 0;
    while i < n
        invariant
            i <= n,
            n == entries@.len(),
            forall|j: int| 0 <= j < i ==> entries@[j].0@ != k@,
        decreases n - i,
    {
        if str_eq(entries[i].0.as_str(), k) {
            return Some(i);
        }
        i += 1;
    }
    None
}

/// A store of values under string keys, with each key bound at most once.
#[derive(Debug)]
pub struct AssocList<T> {
    entries: Vec<(String, T)>,
}

impl<T: DeepView> View for AssocList<T> {
    type V = Map<Seq<char>, <T as DeepView>::V>;

    closed spec fn view(&self) -> Map<Seq<char>, <T as DeepView>::V> {
        map_of(self.entries@)
    }
}

impl<T> AssocList<T> {
    /// The entries hold pairwise distinct keys.
    #[verifier::type_invariant]
    closed spec fn wf(&self) -> bool {
        entry_keys_unique(self.entries@)
    }
}

impl<T: DeepView> AssocList<T> {
    pub fn new() -> (r: AssocList<T>)
        ensures
            r@ == Map::<Seq<char>, <T as DeepView>::V>::empty(),
    {
        AssocList { entries: Vec::new() }
    }

    /// Whether some value is bound at `k`.
    pub fn contains(&self, k: &str) -> (r: bool)
        ensures
            r == self@.contains_key(k@),
    {
        proof {
            lemma_map_of_contains(self.entries@, k@);
        }
        match find_key(&self.entries, k) {
            Some(_) => true,
            None => false,
        }
    }

    /// The value bound at `k`, if any.
    pub fn get(&self, k: &str) -> (r: Option<&T>)
        ensures
            match r {
                Some(v) => self@.contains_key(k@) && v.deep_view() == self@[k@],
                None => !self@.contains_key(k@),
            },
    {
        proof {
            use_type_invariant(self);
            lemma_map_of_contains(self.entries@, k@);
        }
        match find_key(&self.entries, k) {
            Some(i) => {
                proof {
                    lemma_map_of_get(self.entries@, i as int);
                }
                Some(&self.entries[i].1)
            },
            None => None,
        }
    }

    /// Binds `v` at `k`, replacing any value bound there before.
    pub fn insert(&mut self, k: String, v: T)
        ensures
            final(self)@ == old(self)@.insert(k@, v.deep_view()),
    {
        proof {
            use_type_invariant(&*self);
        }
        let mut entries: Vec<(String, T)> = Vec::new();
        core::mem::swap(&mut entries, &mut self.entries);
        match find_key(&entries, k.as_str()) {
            Some(i) => {
                proof {
                    lemma_map_of_update(entries@, i as int, k, v);
                }
                entries[i] = (k, v);
            },
            None => {
                let ghost olds = entries@;
                entries.push((k, v));
                proof {
                    assert(entries@.drop_last() =~= olds);
                    assert(map_of(entries@) == map_of(olds).insert(k@, v.deep_view()));
                    assert(entry_keys_unique(entries@));
                }
            },
        }
        self.entries = entries;
    }

    /// How many keys are bound.
    pub fn len(&self) -> (r: usize)
        ensures
            self@.dom().finite(),
            r == self@.dom().len(),
    {
        proof {
            use_type_invariant(self);
            lemma_map_of_len(self.entries@);
        }
        self.entries.len()
    }

    /// The entries as plain pairs; `map_of` ties them back to the contents.
    pub fn pairs(&self) -> (r: &Vec<(String, T)>)
        ensures
            map_of(r@) == self@,
            entry_keys_unique(r@),
    {
        proof {
            use_type_invariant(self);
        }
        &self.entries
    }
}

impl AssocList<String> {
    /// An independent copy with the same contents.
    pub fn duplicate(&self) -> (r: AssocList<String>)
        ensures
            r@ == self@,
    {
        proof {
            use_type_invariant(self);
        }
        let n = self.entries.len();
        let mut out: Vec<(String, String)> = Vec::new();
        let mut i: usize = 0;
        while i < n
            invariant
                i <= n,
                n == self.entries@.len(),
                out@.len() == i,
                forall|j: int|
                    0 <= j < i ==> out@[j].0@ == self.entries@[j].0@ && out@[j].1
                        == self.entries@[j].1,
            decreases n - i,
        {
            let k = self.entries[i].0.clone();
            let v = self.entries[i].1.clone();
            out.push((k, v));
            i += 1;
        }
        let r = AssocList { entries: out };
        proof {
            assert(entry_keys_unique(r.entries@));
            lemma_map_of_views_equal(self.entries@, r.entries@);
        }
        r
    }
}

proof fn lemma_map_of_views_equal<T: DeepView>(a: Seq<(String, T)>, b: Seq<(String, T)>)
    requires
        a.len() == b.len(),
        forall|i: int|
            0 <= i < a.len() ==> b[i].0@ == a[i].0@ && b[i].1.deep_view() == a[i].1.deep_view(),
    ensures
        map_of(b) == map_of(a),
    decreases a.len(),
{
    if a.len() > 0 {
        lemma_map_of_views_equal(a.drop_last(), b.drop_last());
        assert(map_of(b) =~= map_of(a));
    }
}

} // verus!
