//! Character-level string helpers with exact contracts.

use vstd::prelude::*;
use vstd::string::StrSliceExecFns;

verus! {

/// Equality of two string slices, decided character by character.
pub fn str_eq(a: &str, b: &str) -> (r: bool)
    ensures
        r == (a@ == b@),
{
    let alen = a.unicode_len();
    let blen = b.unicode_len();
    if alen != blen {
        proof {
            assert(a@ != b@) by {
                if a@ == b@ {
                    assert(a@.len() == b@.len());
                }
            }
        }
        return false;
    }
    let mut i: usize = 0;
    while i < alen
        invariant
            i <= alen,
            alen == a@.len(),
            alen == b@.len(),
            forall|j: int| 0 <= j < i ==> a@[j] == b@[j],
        decreases alen - i,
    {
        if a.get_char(i) != b.get_char(i) {
            proof {
                assert(a@ != b@) by {
                    if a@ == b@ {
                        assert(a@[i as int] == b@[i as int]);
                    }
                }
            }
            return false;
        }
        i += 1;
    }
    proof {
        assert(a@ =~= b@);
    }
    true
}

/// The position of the first `c` in `s`, or `s.len()` when `c` does not occur.
pub open spec fn first_ix(s: Seq<char>, c: char) -> int
    decreases s.len(),
{
    if s.len() <= 0 {
        0
    } else if s[0] == c {
        0
    } else {
        1 + first_ix(s.drop_first(), c)
    }
}

pub proof fn lemma_first_ix_bounds(s: Seq<char>, c: char)
    ensures
        0 <= first_ix(s, c) <= s.len(),
        first_ix(s, c) < s.len() ==> s[first_ix(s, c)] == c,
        forall|j: int| 0 <= j < first_ix(s, c) ==> s[j] != c,
    decreases s.len(),
{
    if s.len() > 0 && s[0] != c {
        lemma_first_ix_bounds(s.drop_first(), c);
        let k = first_ix(s, c);
        assert forall|j: int| 0 <= j < k implies s[j] != c by {
            if j > 0 {
                assert(s.drop_first()[j - 1] == s[j]);
            }
        }
        if k < s.len() {
            assert(s.drop_first()[k - 1] == s[k]);
        }
    }
}

pub proof fn lemma_first_ix_is(s: Seq<char>, c: char, i: int)
    requires
        0 <= i <= s.len(),
        forall|j: int| 0 <= j < i ==> s[j] != c,
        i < s.len() ==> s[i] == c,
    ensures
        first_ix(s, c) == i,
    decreases s.len(),
{
    if s.len() > 0 && s[0] != c {
        assert(i > 0);
        assert(forall|j: int| 0 <= j < i - 1 ==> s.drop_first()[j] == s[j + 1]);
        lemma_first_ix_is(s.drop_first(), c, i - 1);
    }
}

/// The position of the first `c1` or `c2` in `s`, or `s.len()` when neither occurs.
pub open spec fn first_ix2(s: Seq<char>, c1: char, c2: char) -> int
    decreases s.len(),
{
    if s.len() <= 0 {
        0
    } else if s[0] == c1 || s[0] == c2 {
        0
    } else {
        1 + first_ix2(s.drop_first(), c1, c2)
    }
}

pub proof fn lemma_first_ix2_is(s: Seq<char>, c1: char, c2: char, i: int)
    requires
        0 <= i <= s.len(),
        forall|j: int| 0 <= j < i ==> s[j] != c1 && s[j] != c2,
        i < s.len() ==> (s[i] == c1 || s[i] == c2),
    ensures
        first_ix2(s, c1, c2) == i,
    decreases s.len(),
{
    if s.len() > 0 && s[0] != c1 && s[0] != c2 {
        assert(i > 0);
        assert(forall|j: int| 0 <= j < i - 1 ==> s.drop_first()[j] == s[j + 1]);
        lemma_first_ix2_is(s.drop_first(), c1, c2, i - 1);
    }
}

/// The position of the last `c` in `s`, or `-1` when `c` does not occur.
pub open spec fn last_ix(s: Seq<char>, c: char) -> int
    decreases s.len(),
{
    if s.len() <= 0 {
        -1
    } else if s.last() == c {
        s.len() - 1
    } else {
        last_ix(s.drop_last(), c)
    }
}

pub proof fn lemma_last_ix_bounds(s: Seq<char>, c: char)
    ensures
        -1 <= last_ix(s, c) < s.len(),
        last_ix(s, c) >= 0 ==> s[last_ix(s, c)] == c,
        forall|j: int| last_ix(s, c) < j < s.len() ==> s[j] != c,
    decreases s.len(),
{
    if s.len() > 0 && s.last() != c {
        lemma_last_ix_bounds(s.drop_last(), c);
        let k = last_ix(s, c);
        assert forall|j: int| k < j < s.len() implies s[j] != c by {
            if j < s.len() - 1 {
                assert(s.drop_last()[j] == s[j]);
            }
        }
        if k >= 0 {
            assert(s.drop_last()[k] == s[k]);
        }
    }
}

pub proof fn lemma_last_ix_is(s: Seq<char>, c: char, j: int)
    requires
        -1 <= j < s.len(),
        j >= 0 ==> s[j] == c,
        forall|m: int| j < m < s.len() ==> s[m] != c,
    ensures
        last_ix(s, c) == j,
    decreases s.len(),
{
    if s.len() > 0 && s.last() != c {
        assert(j < s.len() - 1);
        assert(forall|m: int| j < m < s.len() - 1 ==> s.drop_last()[m] == s[m]);
        lemma_last_ix_is(s.drop_last(), c, j);
    }
}

/// The position of the first `c` in `s` at or after `from`, or the length.
pub fn scan_to(s: &str, from: usize, c: char) -> (j: usize)
    requires
        from <= s@.len(),
    ensures
        from <= j <= s@.len(),
        forall|m: int| from <= m < j ==> s@[m] != c,
        j < s@.len() ==> s@[j as int] == c,
{
    let n = s.unicode_len();
    let mut j = from;
    while j < n
        invariant
            from <= j <= n,
            n == s@.len(),
            forall|m: int| from <= m < j ==> s@[m] != c,
        decreases n - j,
    {
        if s.get_char(j) == c {
            return j;
        }
        j += 1;
    }
    j
}

/// The position of the first `c1` or `c2` in `s` at or after `from`, or the length.
pub fn scan_to2(s: &str, from: usize, c1: char, c2: char) -> (j: usize)
    requires
        from <= s@.len(),
    ensures
        from <= j <= s@.len(),
        forall|m: int| from <= m < j ==> s@[m] != c1 && s@[m] != c2,
        j < s@.len() ==> (s@[j as int] == c1 || s@[j as int] == c2),
{
    let n = s.unicode_len();
    let mut j = from;
    while j < n
        invariant
            from <= j <= n,
            n == s@.len(),
            forall|m: int| from <= m < j ==> s@[m] != c1 && s@[m] != c2,
        decreases n - j,
    {
        let ch = s.get_char(j);
        if ch == c1 || ch == c2 {
            return j;
        }
        j += 1;
    }
    j
}

/// The position of the last `c` in `s`, if any.
pub fn scan_last(s: &str, c: char) -> (r: Option<usize>)
    ensures
        match r {
            Some(j) => j < s@.len() && s@[j as int] == c && (forall|m: int|
                j < m < s@.len() ==> s@[m] != c),
            None => forall|m: int| 0 <= m < s@.len() ==> s@[m] != c,
        },
{
    let n = s.unicode_len();
    let mut j = n;
    while j > 0
        invariant
            j <= n,
            n == s@.len(),
            forall|m: int| j <= m < s@.len() ==> s@[m] != c,
        decreases j,
    {
        j -= 1;
        if s.get_char(j) == c {
            return Some(j);
        }
    }
    None
}

/// The texts in order with `sep` between each neighbouring pair.
pub open spec fn joined(l: Seq<Seq<char>>, sep: Seq<char>) -> Seq<char>
    decreases l.len(),
{
    if l.len() == 0 {
        Seq::empty()
    } else if l.len() == 1 {
        l[0]
    } else {
        l[0] + sep + joined(l.drop_first(), sep)
    }
}

/// The texts joined from position `from` on.
pub open spec fn joined_from(l: Seq<Seq<char>>, sep: Seq<char>, from: int) -> Seq<char>
    decreases l.len() - from,
{
    if from < 0 || from >= l.len() {
        Seq::empty()
    } else if from == l.len() - 1 {
        l[from]
    } else {
        l[from] + sep + joined_from(l, sep, from + 1)
    }
}

pub proof fn lemma_joined_is_joined_from(l: Seq<Seq<char>>, sep: Seq<char>)
    ensures
        joined(l, sep) == joined_from(l, sep, 0),
    decreases l.len(),
{
    if l.len() > 1 {
        lemma_joined_is_joined_from(l.drop_first(), sep);
        lemma_joined_from_shift(l, sep, 1);
    }
}

proof fn lemma_joined_from_shift(l: Seq<Seq<char>>, sep: Seq<char>, from: int)
    requires
        1 <= from <= l.len(),
    ensures
        joined_from(l, sep, from) == joined_from(l.drop_first(), sep, from - 1),
    decreases l.len() - from,
{
    if from < l.len() - 1 {
        lemma_joined_from_shift(l, sep, from + 1);
        assert(l.drop_first()[from - 1] == l[from]);
    } else if from == l.len() - 1 {
        assert(l.drop_first()[from - 1] == l[from]);
    }
}

/// Joins the texts with `sep` between each neighbouring pair.
pub fn join_texts(l: &Vec<String>, sep: &str) -> (r: String)
    ensures
        r@ == joined(l.deep_view(), sep@),
{
    let ghost m = l.deep_view();
    let n = l.len();
    let mut r = String::new();
    let mut i: usize = 0;
    while i < n
        invariant
            i <= n,
            n == l@.len(),
            m == l.deep_view(),
            m.len() == n,
            i == 0 ==> r@ == Seq::<char>::empty(),
            i > 0 ==> joined_from(m, sep@, 0) == r@ + if i < n {
                sep@ + joined_from(m, sep@, i as int)
            } else {
                Seq::<char>::empty()
            },
        decreases n - i,
    {
        if i > 0 {
            r.append(sep);
        }
        r.append(l[i].as_str());
        proof {
            assert(m[i as int] == l@[i as int]@);
            if i + 1 < n {
                assert(joined_from(m, sep@, i as int) == m[i as int] + sep@ + joined_from(
                    m,
                    sep@,
                    i as int + 1,
                ));
            } else if i + 1 == n {
                assert(joined_from(m, sep@, i as int) == m[i as int]);
            }
            assert(r@ + Seq::<char>::empty() =~= r@);
        }
        i += 1;
    }
    proof {
        lemma_joined_is_joined_from(m, sep@);
        if n == 0 {
            assert(r@ =~= joined(m, sep@));
        } else {
            assert(r@ + Seq::<char>::empty() =~= r@);
        }
    }
    r
}

/// An independent copy of a list of texts.
pub fn duplicate_texts(l: &Vec<String>) -> (r: Vec<String>)
    ensures
        r.deep_view() == l.deep_view(),
{
    let n = l.len();
    let mut out: Vec<String> = Vec::new();
    let mut i: usize = 0;
    while i < n
        invariant
            i <= n,
            n == l@.len(),
            out@.len() == i,
            forall|j: int| 0 <= j < i ==> out@[j]@ == l@[j]@,
        decreases n - i,
    {
        out.push(l[i].clone());
        i += 1;
    }
    proof {
        assert(out.deep_view() =~= l.deep_view());
    }
    out
}

/// Whether `p` is a prefix of `s`, decided character by character.
pub fn str_starts_with(s: &str, p: &str) -> (r: bool)
    ensures
        r == p@.is_prefix_of(s@),
{
    let plen = p.unicode_len();
    let slen = s.unicode_len();
    if plen > slen {
        proof {
            assert(!p@.is_prefix_of(s@)) by {
                if p@.is_prefix_of(s@) {
                    assert(p@.len() <= s@.len());
                }
            }
        }
        return false;
    }
    let mut i: usize = 0;
    while i < plen
        invariant
            i <= plen,
            plen == p@.len(),
            slen == s@.len(),
            plen <= slen,
            forall|j: int| 0 <= j < i ==> s@[j] == p@[j],
        decreases plen - i,
    {
        if s.get_char(i) != p.get_char(i) {
            proof {
                assert(!p@.is_prefix_of(s@)) by {
                    if p@.is_prefix_of(s@) {
                        assert(p@ =~= s@.subrange(0, p@.len() as int));
                        assert(p@[i as int] == s@[i as int]);
                    }
                }
            }
            return false;
        }
        i += 1;
    }
    proof {
        assert(p@ =~= s@.subrange(0, p@.len() as int));
    }
    true
}

} // verus!
