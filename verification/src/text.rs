//! Character-level helpers shared by the identifier, agent-reference and
//! glob logic.

use vstd::prelude::*;

verus! {

broadcast use vstd::string::group_string_axioms;

/// Copy the characters of `s` into a vector.
pub fn chars_of(s: &str) -> (v: Vec<char>)
    ensures
        v@ == s@,
{
    let mut v: Vec<char> = Vec::new();
    for c in it: s.chars()
        invariant
            v@ == it.seq().take(it.index() as int),
            it.seq() == s@,
    {
        v.push(c);
    }
    v
}


/// `p` is a prefix of `s`.
pub open spec fn seq_starts_with(s: Seq<char>, p: Seq<char>) -> bool {
    p.len() <= s.len() && s.subrange(0, p.len() as int) == p
}

/// Character-wise prefix test on vectors.
pub fn chars_start_with(s: &Vec<char>, p: &Vec<char>) -> (r: bool)
    ensures
        r == seq_starts_with(s@, p@),
{
    if p.len() > s.len() {
        return false;
    }
    let mut i: usize = 0;
    while i < p.len()
        invariant
            p.len() <= s.len(),
            i <= p.len(),
            forall|j: int| 0 <= j < i ==> s@[j] == p@[j],
        decreases p.len() - i,
    {
        if s[i] != p[i] {
            assert(s@.subrange(0, p@.len() as int)[i as int] != p@[i as int]);
            return false;
        }
        i = i + 1;
    }
    assert(s@.subrange(0, p@.len() as int) =~= p@);
    true
}

/// Prefix test on string slices.
pub fn str_starts_with(s: &str, p: &str) -> (r: bool)
    ensures
        r == seq_starts_with(s@, p@),
{
    let sv = chars_of(s);
    let pv = chars_of(p);
    chars_start_with(&sv, &pv)
}

/// Equality of string slices by content.
pub fn str_eq(a: &str, b: &str) -> (r: bool)
    ensures
        r == (a@ == b@),
{
    let x = a.to_owned();
    let y = b.to_owned();
    x == y
}


/// `p` is a suffix of `s`.
pub open spec fn seq_ends_with(s: Seq<char>, p: Seq<char>) -> bool {
    p.len() <= s.len() && s.subrange(s.len() - p.len(), s.len() as int) == p
}

/// `t` occurs in `s` at position `i`.
pub open spec fn occurs_at(s: Seq<char>, t: Seq<char>, i: int) -> bool {
    0 <= i && i + t.len() <= s.len() && s.subrange(i, i + t.len()) == t
}

/// `i` is the leftmost position where `t` occurs in `s`.
pub open spec fn is_leftmost(s: Seq<char>, t: Seq<char>, i: int) -> bool {
    occurs_at(s, t, i) && forall|j: int| 0 <= j < i ==> !occurs_at(s, t, j)
}

/// Leftmost position of `t` in `s`, as `str::find` reports it.
pub open spec fn leftmost(s: Seq<char>, t: Seq<char>) -> Option<int> {
    if exists|i: int| is_leftmost(s, t, i) {
        Some(choose|i: int| is_leftmost(s, t, i))
    } else {
        None
    }
}

pub proof fn lemma_leftmost_unique(s: Seq<char>, t: Seq<char>, i: int)
    requires
        is_leftmost(s, t, i),
    ensures
        leftmost(s, t) == Some(i),
{
    let c = choose|k: int| is_leftmost(s, t, k);
    assert(is_leftmost(s, t, c));
    if c < i {
        assert(!occurs_at(s, t, c));
    }
    if i < c {
        assert(!occurs_at(s, t, i));
    }
}

/// Occurrences in a suffix are occurrences in the whole, shifted.
pub proof fn lemma_occurs_in_skip(s: Seq<char>, t: Seq<char>, start: int, j: int)
    requires
        0 <= start <= s.len(),
        0 <= j,
    ensures
        occurs_at(s.skip(start), t, j) == occurs_at(s, t, start + j),
{
    if j + t.len() <= s.len() - start {
        assert(s.skip(start).subrange(j, j + t.len()) =~= s.subrange(start + j, start + j + t.len()));
    }
}

/// `t` occurs in `s` at `i`.
pub fn chars_occur_at(s: &Vec<char>, t: &Vec<char>, i: usize) -> (r: bool)
    ensures
        r == occurs_at(s@, t@, i as int),
{
    if i > s.len() || t.len() > s.len() - i {
        return false;
    }
    let mut k: usize = 0;
    while k < t.len()
        invariant
            i + t.len() <= s.len(),
            k <= t.len(),
            forall|j: int| 0 <= j < k ==> s@[i + j] == t@[j],
        decreases t.len() - k,
    {
        if s[i + k] != t[k] {
            assert(s@.subrange(i as int, i + t@.len())[k as int] != t@[k as int]);
            return false;
        }
        k = k + 1;
    }
    assert(s@.subrange(i as int, i + t@.len()) =~= t@);
    true
}

/// Leftmost occurrence of `t` in `s` at or after `start`.
pub fn chars_find_from(s: &Vec<char>, start: usize, t: &Vec<char>) -> (r: Option<usize>)
    requires
        start <= s.len(),
    ensures
        match r {
            Some(pos) => start <= pos && is_leftmost(s@.skip(start as int), t@, pos - start),
            None => forall|j: int| !occurs_at(s@.skip(start as int), t@, j),
        },
{
    let mut i: usize = start;
    loop
        invariant
            start <= i <= s.len(),
            forall|j: int| start <= j < i ==> !occurs_at(s@, t@, j),
        ensures
            forall|j: int| start <= j <= s.len() ==> !occurs_at(s@, t@, j),
        decreases s.len() - i,
    {
        if chars_occur_at(s, t, i) {
            proof {
                lemma_occurs_in_skip(s@, t@, start as int, i - start);
                assert forall|j: int| 0 <= j < i - start implies !occurs_at(
                    s@.skip(start as int),
                    t@,
                    j,
                ) by {
                    lemma_occurs_in_skip(s@, t@, start as int, j);
                }
            }
            return Some(i);
        }
        if i == s.len() {
            break;
        }
        i = i + 1;
    }
    proof {
        assert forall|j: int| !occurs_at(s@.skip(start as int), t@, j) by {
            if 0 <= j {
                lemma_occurs_in_skip(s@, t@, start as int, j);
            }
        }
    }
    None
}

/// Character-wise equality of vectors.
pub fn chars_eq(a: &Vec<char>, b: &Vec<char>) -> (r: bool)
    ensures
        r == (a@ == b@),
{
    if a.len() != b.len() {
        return false;
    }
    let mut i: usize = 0;
    while i < a.len()
        invariant
            a.len() == b.len(),
            i <= a.len(),
            forall|j: int| 0 <= j < i ==> a@[j] == b@[j],
        decreases a.len() - i,
    {
        if a[i] != b[i] {
            return false;
        }
        i = i + 1;
    }
    assert(a@ =~= b@);
    true
}

/// `c` occurs in `v`.
pub fn chars_contain(v: &Vec<char>, c: char) -> (r: bool)
    ensures
        r == v@.contains(c),
{
    let mut i: usize = 0;
    while i < v.len()
        invariant
            i <= v.len(),
            forall|j: int| 0 <= j < i ==> v@[j] != c,
        decreases v.len() - i,
    {
        if v[i] == c {
            assert(v@[i as int] == c);
            return true;
        }
        i = i + 1;
    }
    false
}

/// Suffix test on vectors.
pub fn chars_end_with(s: &Vec<char>, p: &Vec<char>) -> (r: bool)
    ensures
        r == seq_ends_with(s@, p@),
{
    if p.len() > s.len() {
        return false;
    }
    let r = chars_occur_at(s, p, s.len() - p.len());
    r
}

/// What std's `Debug` prints for a string (the text in double quotes, with
/// its escapes); a function of the text alone.
pub uninterp spec fn str_debug_of(s: Seq<char>) -> Seq<char>;

/// `s` as `{:?}` formats it.
///
/// Trusted: formats with std's `Debug` for `str`. Claims only that the
/// result is [`str_debug_of`] of the text; the escaping itself is std's and
/// is not stated here.
#[verifier::external_body]
pub(crate) fn debug_quoted(s: &str) -> (r: String)
    ensures
        r@ == str_debug_of(s@),
{
    format!("{s:?}")
}

} // verus!
