//! Splitting a URL into its path, its path components and its query
//! arguments.
//!
//! The grammar is the plain one: everything before the first `?` is the path;
//! the path's non-empty runs between `/` characters are its components; the
//! rest is a `&`-separated list of `key=value` pieces, a piece without `=`
//! standing for a key with an empty value, and a later piece with the same
//! key shadowing an earlier one.

use vstd::prelude::*;
use vstd::string::StrSliceExecFns;
use vstd::string::StringExecFns;
use crate::assoc::AssocList;
use crate::text::{first_ix, first_ix2, last_ix, lemma_first_ix_bounds, lemma_first_ix_is,
    lemma_first_ix2_is, lemma_last_ix_bounds, lemma_last_ix_is, scan_last, scan_to, scan_to2};

verus! {

/// What a URL denotes.
pub struct UrlModel {
    pub path: Seq<char>,
    pub components: Seq<Seq<char>>,
    pub query: Map<Seq<char>, Seq<char>>,
}

/// The non-empty runs between `/` characters.
pub open spec fn components_of(s: Seq<char>) -> Seq<Seq<char>>
    decreases s.len(),
    via components_of_decreases
{
    if s.len() == 0 {
        Seq::empty()
    } else if s[0] == '/' {
        components_of(s.drop_first())
    } else {
        seq![s.take(first_ix(s, '/'))] + components_of(s.skip(first_ix(s, '/')))
    }
}

#[via_fn]
proof fn components_of_decreases(s: Seq<char>) {
    if s.len() > 0 && s[0] != '/' {
        lemma_first_ix_bounds(s, '/');
    }
}

/// The key and the value of one `key=value` piece; without `=` the whole
/// piece is the key and the value is empty.
pub open spec fn query_pair(p: Seq<char>) -> (Seq<char>, Seq<char>) {
    let e = first_ix(p, '=');
    (p.take(e), if e == p.len() { Seq::empty() } else { p.skip(e + 1) })
}

/// The map denoted by a `&`-separated list of pieces, later pieces winning.
pub open spec fn query_map_of(q: Seq<char>) -> Map<Seq<char>, Seq<char>>
    decreases q.len(),
    via query_map_of_decreases
{
    let j = last_ix(q, '&');
    if j < 0 {
        Map::empty().insert(query_pair(q).0, query_pair(q).1)
    } else {
        query_map_of(q.take(j)).insert(query_pair(q.skip(j + 1)).0, query_pair(q.skip(j + 1)).1)
    }
}

#[via_fn]
proof fn query_map_of_decreases(q: Seq<char>) {
    lemma_last_ix_bounds(q, '&');
}

/// What parsing a URL yields.
pub open spec fn parse_url(url: Seq<char>) -> UrlModel {
    let q = first_ix(url, '?');
    UrlModel {
        path: url.take(q),
        components: components_of(url.take(q)),
        query: if q == url.len() {
            Map::empty()
        } else {
            query_map_of(url.skip(q + 1))
        },
    }
}

/// A URL split into its path, its path components and its query arguments.
#[derive(Debug)]
pub struct UrlParts {
    path: String,
    path_components: Vec<String>,
    query: AssocList<String>,
}

impl View for UrlParts {
    type V = UrlModel;

    closed spec fn view(&self) -> UrlModel {
        UrlModel {
            path: self.path@,
            components: self.path_components.deep_view(),
            query: self.query@,
        }
    }
}

impl UrlParts {
    /// Splits `url`, which must begin with `/`.
    pub fn new(url: &str) -> (r: UrlParts)
        requires
            url@.len() > 0,
            url@[0] == '/',
        ensures
            r@ == parse_url(url@),
    {
        let n = url.unicode_len();
        let qix = scan_to(url, 0, '?');
        proof {
            lemma_first_ix_is(url@, '?', qix as int);
        }
        let path_str = url.substring_char(0, qix);
        proof {
            assert(path_str@ =~= url@.take(qix as int));
        }
        let path = String::from_str(path_str);
        let path_components = parse_components(path_str);
        let query = if qix < n {
            let query_str = url.substring_char(qix + 1, n);
            proof {
                assert(query_str@ =~= url@.skip(qix as int + 1));
            }
            parse_query(query_str)
        } else {
            AssocList::new()
        };
        UrlParts { path, path_components, query }
    }

    /// The path: everything before the first `?`.
    pub fn path(&self) -> (r: &str)
        ensures
            r@ == self@.path,
    {
        self.path.as_str()
    }

    /// The path's components in order.
    pub fn path_components(&self) -> (r: &Vec<String>)
        ensures
            r.deep_view() == self@.components,
    {
        &self.path_components
    }

    /// The query arguments.
    pub fn query(&self) -> (r: &AssocList<String>)
        ensures
            r@ == self@.query,
    {
        &self.query
    }

    /// An independent copy denoting the same URL.
    pub fn duplicate(&self) -> (r: UrlParts)
        ensures
            r@ == self@,
    {
        UrlParts {
            path: self.path.clone(),
            path_components: crate::text::duplicate_texts(&self.path_components),
            query: self.query.duplicate(),
        }
    }
}

/// Collects the non-empty runs between `/` characters.
fn parse_components(p: &str) -> (r: Vec<String>)
    ensures
        r.deep_view() == components_of(p@),
{
    let n = p.unicode_len();
    let mut out: Vec<String> = Vec::new();
    let mut i: usize = 0;
    proof {
        assert(p@.skip(0) =~= p@);
        assert(out.deep_view() + components_of(p@) =~= components_of(p@));
    }
    while i < n
        invariant
            i <= n,
            n == p@.len(),
            components_of(p@) == out.deep_view() + components_of(p@.skip(i as int)),
        decreases n - i,
    {
        if p.get_char(i) == '/' {
            proof {
                assert(p@.skip(i as int)[0] == p@[i as int]);
                assert(p@.skip(i as int).drop_first() =~= p@.skip(i as int + 1));
            }
            i += 1;
        } else {
            let j = scan_to(p, i, '/');
            let ghost suffix = p@.skip(i as int);
            proof {
                assert(forall|m: int| 0 <= m < j - i ==> suffix[m] == p@[m + i]);
                assert(j - i < suffix.len() ==> suffix[j - i] == p@[j as int]);
                lemma_first_ix_is(suffix, '/', j - i);
                assert(suffix[0] == p@[i as int]);
                assert(suffix.take(j - i) =~= p@.subrange(i as int, j as int));
                assert(suffix.skip(j - i) =~= p@.skip(j as int));
            }
            let seg = String::from_str(p.substring_char(i, j));
            let ghost out_before = out.deep_view();
            out.push(seg);
            proof {
                assert(out.deep_view() =~= out_before.push(p@.subrange(i as int, j as int)));
                assert(out_before + (seq![p@.subrange(i as int, j as int)] + components_of(
                    p@.skip(j as int),
                )) =~= out.deep_view() + components_of(p@.skip(j as int)));
            }
            i = j;
        }
    }
    proof {
        assert(p@.skip(n as int) =~= Seq::<char>::empty());
        assert(components_of(p@.skip(n as int)) =~= Seq::<Seq<char>>::empty());
        assert(out.deep_view() + Seq::<Seq<char>>::empty() =~= out.deep_view());
    }
    out
}

/// Splits one `key=value` piece.
fn parse_pair(p: &str) -> (r: (String, String))
    ensures
        r.0@ == query_pair(p@).0,
        r.1@ == query_pair(p@).1,
{
    let n = p.unicode_len();
    let e = scan_to(p, 0, '=');
    proof {
        lemma_first_ix_is(p@, '=', e as int);
    }
    let k_str = p.substring_char(0, e);
    proof {
        assert(k_str@ =~= p@.take(e as int));
    }
    let k = String::from_str(k_str);
    let v = if e < n {
        let v_str = p.substring_char(e + 1, n);
        proof {
            assert(v_str@ =~= p@.skip(e as int + 1));
        }
        String::from_str(v_str)
    } else {
        String::new()
    };
    (k, v)
}

/// Collects a `&`-separated list of pieces into a map, later pieces winning.
fn parse_query(s: &str) -> (r: AssocList<String>)
    ensures
        r@ == query_map_of(s@),
    decreases s@.len(),
{
    match scan_last(s, '&') {
        Some(j) => {
            proof {
                lemma_last_ix_is(s@, '&', j as int);
            }
            let n = s.unicode_len();
            let prefix = s.substring_char(0, j);
            let piece = s.substring_char(j + 1, n);
            proof {
                assert(prefix@ =~= s@.take(j as int));
                assert(piece@ =~= s@.skip(j as int + 1));
            }
            let mut m = parse_query(prefix);
            let (k, v) = parse_pair(piece);
            m.insert(k, v);
            m
        },
        None => {
            proof {
                lemma_last_ix_is(s@, '&', -1);
            }
            let (k, v) = parse_pair(s);
            let mut m = AssocList::new();
            m.insert(k, v);
            m
        },
    }
}

/// Removes `expected_prefix`, which must be a prefix of `s`, from the front
/// of `s`.
pub fn strip_prefix<'a>(s: &'a str, expected_prefix: &str) -> (r: &'a str)
    requires
        expected_prefix@.is_prefix_of(s@),
    ensures
        r@ == s@.skip(expected_prefix@.len() as int),
{
    let p = expected_prefix.unicode_len();
    let n = s.unicode_len();
    let r = s.substring_char(p, n);
    proof {
        assert(r@ =~= s@.skip(p as int));
    }
    r
}

/// Removes `expected_prefix` from the front of `url` and splits what
/// remains, an empty remainder standing for `/`. The remainder must itself
/// begin with `/`, or be empty.
pub fn strip_url_prefix(url: &str, expected_prefix: &str) -> (r: UrlParts)
    requires
        expected_prefix@.is_prefix_of(url@),
        url@.len() > expected_prefix@.len() ==> url@[expected_prefix@.len() as int] == '/',
    ensures
        r@ == if url@.len() == expected_prefix@.len() {
            parse_url("/"@)
        } else {
            parse_url(url@.skip(expected_prefix@.len() as int))
        },
{
    let suffix = strip_prefix(url, expected_prefix);
    if suffix.unicode_len() == 0 {
        proof {
            reveal_strlit("/");
        }
        UrlParts::new("/")
    } else {
        UrlParts::new(suffix)
    }
}

/// The first section of a URL that begins with `/`: everything after the
/// leading `/` and before the next `/` or `?`.
pub fn url_prefix<'a>(url: &'a str) -> (r: &'a str)
    requires
        url@.len() >= 1,
        url@[0] == '/',
    ensures
        r@ == url@.skip(1).take(first_ix2(url@.skip(1), '/', '?')),
{
    let j = scan_to2(url, 1, '/', '?');
    let ghost rest = url@.skip(1);
    proof {
        assert(forall|m: int| 0 <= m < j - 1 ==> rest[m] == url@[m + 1]);
        assert(j - 1 < rest.len() ==> rest[j - 1] == url@[j as int]);
        lemma_first_ix2_is(rest, '/', '?', j - 1);
    }
    let r = url.substring_char(1, j);
    proof {
        assert(r@ =~= rest.take(j - 1));
    }
    r
}

} // verus!
