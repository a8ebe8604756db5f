//! Permissions and leases: `cost.budget`, `model.use`, lease requests and
//! their subset checks.

use vstd::prelude::*;

use crate::decimal::{
    all_digits, all_zeros, amount_micros, amount_value, counted_fraction, decimal, digits_value, is_digit, is_first_dot,
    lemma_decimal, lemma_padded, micros_text, padded, padded_decimal, pow10, trim_fraction,
    u64_decimal, MICROS_PER_UNIT,
};
use crate::error::{error_detail, ARCPError};
use crate::ids::LeaseId;
use crate::time::{utc_le, utc_lt, utc_now, UtcTime};
use crate::text::{
    chars_contain, chars_end_with, chars_eq, chars_find_from, chars_occur_at, chars_of,
    debug_quoted, is_leftmost, leftmost, lemma_leftmost_unique, occurs_at, seq_ends_with,
    seq_starts_with, str_debug_of,
};

verus! {

broadcast use vstd::string::group_string_axioms;

// ---------------------------------------------------------------------
// `*` glob patterns
// ---------------------------------------------------------------------

/// The fragments of `p` between `*` characters, as `str::split('*')`
/// yields them (always at least one, possibly empty).
pub open spec fn split_star(p: Seq<char>) -> Seq<Seq<char>>
    decreases p.len(),
{
    if p.len() == 0 {
        seq![Seq::<char>::empty()]
    } else {
        let parts = split_star(p.drop_last());
        if p.last() == '*' {
            parts.push(Seq::<char>::empty())
        } else {
            parts.update(parts.len() - 1, parts.last().push(p.last()))
        }
    }
}

/// One step of the matcher: fragment `index` against the unmatched rest of
/// the value. The first fragment must be a prefix and the last one (`last`,
/// after a `*`) a suffix of what is left; fragments between are found at
/// their leftmost occurrence. Empty fragments match nothing.
pub open spec fn glob_step(index: int, last: bool, part: Seq<char>, rest: Seq<char>) -> Option<Seq<char>> {
    if part.len() == 0 {
        Some(rest)
    } else if index == 0 {
        if seq_starts_with(rest, part) {
            Some(rest.skip(part.len() as int))
        } else {
            None
        }
    } else if last {
        if seq_ends_with(rest, part) {
            Some(Seq::<char>::empty())
        } else {
            None
        }
    } else {
        match leftmost(rest, part) {
            Some(pos) => Some(rest.skip(pos + part.len())),
            None => None,
        }
    }
}

/// Unmatched rest of `value` after the first `n` fragments, or `None`
/// once a fragment fails.
pub open spec fn glob_run(parts: Seq<Seq<char>>, n: nat, value: Seq<char>) -> Option<Seq<char>>
    decreases n,
{
    if n == 0 {
        Some(value)
    } else {
        match glob_run(parts, (n - 1) as nat, value) {
            Some(rest) => glob_step(n - 1, n == parts.len(), parts[n - 1], rest),
            None => None,
        }
    }
}

/// `value` is accepted by the `*` pattern: `*` accepts everything, a
/// pattern without `*` only itself; otherwise the fragments are matched in
/// order and the value must be used up unless the pattern ends with `*`.
pub open spec fn glob_matches(pattern: Seq<char>, value: Seq<char>) -> bool {
    if pattern == seq!['*'] {
        true
    } else if !pattern.contains('*') {
        pattern == value
    } else {
        let parts = split_star(pattern);
        match glob_run(parts, parts.len(), value) {
            Some(rest) => pattern.last() == '*' || rest.len() == 0,
            None => false,
        }
    }
}

/// The fragments strictly between the first and the last are empty: the
/// pattern is a prefix, one or more `*`, and a suffix.
pub open spec fn inner_fragments_empty(parts: Seq<Seq<char>>) -> bool {
    forall|i: int| 1 <= i < parts.len() - 1 ==> (#[trigger] parts[i]).len() == 0
}

/// `parent` is taken to imply `child`: `*` and an equal pattern always do;
/// a pattern without `*` nothing else; a literal child must match the
/// parent. Between two `*` patterns the parent must be a prefix, `*`s and a
/// suffix, the child's first fragment must extend the parent's prefix and
/// its last fragment must end with the parent's suffix; a parent with a
/// fragment between its `*`s implies no other `*` pattern.
pub open spec fn glob_subsumes(parent: Seq<char>, child: Seq<char>) -> bool {
    if parent == seq!['*'] || parent == child {
        true
    } else if !parent.contains('*') {
        false
    } else if !child.contains('*') {
        glob_matches(parent, child)
    } else {
        let ps = split_star(parent);
        let cs = split_star(child);
        inner_fragments_empty(ps) && seq_starts_with(cs[0], ps[0]) && seq_ends_with(cs.last(), ps.last())
    }
}

pub proof fn lemma_split_star_nonempty(p: Seq<char>)
    ensures
        split_star(p).len() >= 1,
    decreases p.len(),
{
    if p.len() > 0 {
        lemma_split_star_nonempty(p.drop_last());
    }
}

/// Without `*` there is one fragment, the whole pattern.
pub proof fn lemma_split_star_literal(p: Seq<char>)
    requires
        !p.contains('*'),
    ensures
        split_star(p) == seq![p],
    decreases p.len(),
{
    if p.len() > 0 {
        let q = p.drop_last();
        assert(!q.contains('*')) by {
            if q.contains('*') {
                let i = choose|i: int| 0 <= i < q.len() && q[i] == '*';
                assert(p[i] == '*');
            }
        }
        lemma_split_star_literal(q);
        assert(p.last() != '*') by {
            assert(p[p.len() - 1] == p.last());
        }
        assert(q.push(p.last()) =~= p);
    } else {
        assert(p =~= Seq::<char>::empty());
    }
}

/// Views of a vector of character vectors.
pub open spec fn char_vecs(parts: Seq<Vec<char>>) -> Seq<Seq<char>> {
    parts.map_values(|v: Vec<char>| v@)
}

fn split_star_exec(p: &Vec<char>) -> (parts: Vec<Vec<char>>)
    ensures
        char_vecs(parts@) == split_star(p@),
        parts.len() >= 1,
{
    let mut parts: Vec<Vec<char>> = Vec::new();
    parts.push(Vec::new());
    assert(p@.take(0) =~= Seq::<char>::empty());
    assert(char_vecs(parts@) =~= split_star(p@.take(0)));
    let mut i: usize = 0;
    while i < p.len()
        invariant
            i <= p.len(),
            parts.len() >= 1,
            char_vecs(parts@) == split_star(p@.take(i as int)),
        decreases p.len() - i,
    {
        let c = p[i];
        proof {
            assert(p@.take(i + 1).drop_last() =~= p@.take(i as int));
            assert(p@.take(i + 1).last() == c);
        }
        if c == '*' {
            let ghost before = char_vecs(parts@);
            parts.push(Vec::new());
            assert(char_vecs(parts@) =~= before.push(Seq::<char>::empty()));
        } else {
            let ghost before = char_vecs(parts@);
            let mut cur = parts.pop().unwrap();
            cur.push(c);
            parts.push(cur);
            assert(char_vecs(parts@) =~= before.update(before.len() - 1, before.last().push(c)));
        }
        i = i + 1;
    }
    assert(p@.take(p.len() as int) =~= p@);
    parts
}

proof fn lemma_glob_run_none(parts: Seq<Seq<char>>, n: nat, m: nat, value: Seq<char>)
    requires
        n <= m,
        glob_run(parts, n, value) is None,
    ensures
        glob_run(parts, m, value) is None,
    decreases m,
{
    if n < m {
        lemma_glob_run_none(parts, n, (m - 1) as nat, value);
    }
}

/// Match `value` against a `*` glob `pattern`.
fn glob_star_matches(pattern: &str, value: &str) -> (r: bool)
    ensures
        r == glob_matches(pattern@, value@),
{
    let p = chars_of(pattern);
    let v = chars_of(value);
    if p.len() == 1 && p[0] == '*' {
        assert(p@ =~= seq!['*']);
        return true;
    }
    assert(p@ != seq!['*']);
    if !chars_contain(&p, '*') {
        return chars_eq(&p, &v);
    }
    let parts = split_star_exec(&p);
    let ghost ps = char_vecs(parts@);
    let mut start: usize = 0;
    let mut index: usize = 0;
    assert(v@.skip(0) =~= v@);
    while index < parts.len()
        invariant
            ps == char_vecs(parts@),
            ps == split_star(pattern@),
            p@ == pattern@,
            v@ == value@,
            p@ != seq!['*'],
            p@.contains('*'),
            index <= parts.len(),
            start <= v.len(),
            glob_run(ps, index as nat, v@) == Some(v@.skip(start as int)),
            index == 0 ==> start == 0,
        decreases parts.len() - index,
    {
        let part = &parts[index];
        assert(part@ == ps[index as int]);
        let ghost rest = v@.skip(start as int);
        if index == 0 {
            assert(rest =~= v@);
        }
        if part.len() == 0 {
        } else if index == 0 {
            if chars_occur_at(&v, part, start) {
                proof {
                    assert(v@.subrange(0, part@.len() as int) =~= rest.subrange(
                        0,
                        part@.len() as int,
                    ));
                    assert(v@.skip(start + part@.len()) =~= rest.skip(part@.len() as int));
                }
                start = start + part.len();
            } else {
                proof {
                    assert(!seq_starts_with(rest, part@));
                    assert(glob_run(ps, (index + 1) as nat, v@) is None);
                    lemma_glob_run_none(ps, (index + 1) as nat, ps.len(), v@);
                    assert(split_star(pattern@) == ps);
                    assert(glob_run(ps, ps.len(), v@) is None);
                }
                return false;
            }
        } else if index + 1 == parts.len() {
            if part.len() <= v.len() - start && chars_end_with(&v, part) {
                proof {
                    assert(rest.subrange(rest.len() - part@.len(), rest.len() as int) =~= v@.subrange(
                        v@.len() - part@.len(),
                        v@.len() as int,
                    ));
                    assert(v@.skip(v.len() as int) =~= Seq::<char>::empty());
                }
                start = v.len();
            } else {
                proof {
                    if seq_ends_with(rest, part@) {
                        assert(rest.subrange(rest.len() - part@.len(), rest.len() as int) =~= v@.subrange(
                            v@.len() - part@.len(),
                            v@.len() as int,
                        ));
                    }
                    assert(glob_run(ps, (index + 1) as nat, v@) is None);
                    lemma_glob_run_none(ps, (index + 1) as nat, ps.len(), v@);
                    assert(split_star(pattern@) == ps);
                    assert(glob_run(ps, ps.len(), v@) is None);
                }
                return false;
            }
        } else {
            match chars_find_from(&v, start, part) {
                Some(pos) => {
                    proof {
                        lemma_leftmost_unique(rest, part@, pos - start);
                        assert(v@.skip(pos + part@.len()) =~= rest.skip(
                            (pos - start) + part@.len(),
                        ));
                    }
                    start = pos + part.len();
                },
                None => {
                    proof {
                        assert(leftmost(rest, part@) is None) by {
                            if exists|i: int| is_leftmost(rest, part@, i) {
                                let i = choose|i: int| is_leftmost(rest, part@, i);
                                assert(occurs_at(rest, part@, i));
                            }
                        }
                        assert(glob_run(ps, (index + 1) as nat, v@) is None);
                        lemma_glob_run_none(ps, (index + 1) as nat, ps.len(), v@);
                        assert(split_star(pattern@) == ps);
                        assert(glob_run(ps, ps.len(), v@) is None);
                    }
                    return false;
                },
            }
        }
        index = index + 1;
    }
    p[p.len() - 1] == '*' || start == v.len()
}

/// Decide whether `parent` implies `child` (see [`glob_subsumes`]).
fn glob_pattern_subsumes(parent: &str, child: &str) -> (r: bool)
    ensures
        r == glob_subsumes(parent@, child@),
{
    let p = chars_of(parent);
    let c = chars_of(child);
    if (p.len() == 1 && p[0] == '*') || chars_eq(&p, &c) {
        assert(p.len() == 1 && p[0] == '*' ==> p@ =~= seq!['*']);
        return true;
    }
    assert(p@ != seq!['*']);
    if !chars_contain(&p, '*') {
        return false;
    }
    if !chars_contain(&c, '*') {
        return glob_star_matches(parent, child);
    }
    let ps = split_star_exec(&p);
    let cs = split_star_exec(&c);
    let last_c = cs.len() - 1;
    let last_p = ps.len() - 1;
    let mut i: usize = 1;
    while i < last_p
        invariant
            1 <= i,
            last_p + 1 == ps.len(),
            char_vecs(ps@) == split_star(parent@),
            forall|k: int| 1 <= k < i ==> (#[trigger] char_vecs(ps@)[k]).len() == 0,
            p@ == parent@,
            c@ == child@,
            p@ != seq!['*'],
            p@ != c@,
            p@.contains('*'),
            c@.contains('*'),
        decreases last_p - i,
    {
        if ps[i].len() != 0 {
            assert(char_vecs(ps@)[i as int] == ps@[i as int]@);
            assert(!inner_fragments_empty(split_star(parent@)));
            return false;
        }
        assert(char_vecs(ps@)[i as int] == ps@[i as int]@);
        i = i + 1;
    }
    assert(inner_fragments_empty(split_star(parent@)));
    let r = crate::text::chars_start_with(&cs[0], &ps[0]) && chars_end_with(
        &cs[last_c],
        &ps[last_p],
    );
    proof {
        assert(char_vecs(cs@)[0] == cs@[0]@);
        assert(char_vecs(ps@)[0] == ps@[0]@);
        assert(char_vecs(cs@).last() == cs@[last_c as int]@);
        assert(char_vecs(ps@).last() == ps@[last_p as int]@);
    }
    r
}

/// `model.use` lease capability: a list of model glob patterns. `*`
/// matches any run of characters; everything else matches literally.
#[derive(Debug, Clone, Default, PartialEq, Eq)]
pub struct ModelUse {
    /// Permitted model glob patterns.
    pub patterns: Vec<String>,
}

impl View for ModelUse {
    type V = Seq<Seq<char>>;

    open spec fn view(&self) -> Seq<Seq<char>> {
        self.patterns@.map_values(|s: String| s@)
    }
}

/// Some pattern of `patterns` accepts `model`.
pub open spec fn model_use_permits(patterns: Seq<Seq<char>>, model: Seq<char>) -> bool {
    exists|i: int| 0 <= i < patterns.len() && glob_matches(#[trigger] patterns[i], model)
}

/// Some parent pattern implies `child`.
pub open spec fn pattern_covered(parents: Seq<Seq<char>>, child: Seq<char>) -> bool {
    exists|j: int| 0 <= j < parents.len() && glob_subsumes(#[trigger] parents[j], child)
}

/// `k` is the first child pattern that no parent pattern implies.
pub open spec fn is_first_uncovered(parents: Seq<Seq<char>>, children: Seq<Seq<char>>, k: int) -> bool {
    &&& 0 <= k < children.len()
    &&& !pattern_covered(parents, children[k])
    &&& forall|i: int| 0 <= i < k ==> pattern_covered(parents, #[trigger] children[i])
}

impl ModelUse {
    /// A copy with the same patterns.
    pub fn clone_patterns(&self) -> (r: Self)
        ensures
            r@ == self@,
    {
        let mut out: Vec<String> = Vec::new();
        let mut i: usize = 0;
        while i < self.patterns.len()
            invariant
                i <= self.patterns.len(),
                out.len() == i,
                forall|k: int| 0 <= k < i ==> #[trigger] out@[k]@ == self.patterns@[k]@,
            decreases self.patterns.len() - i,
        {
            out.push(self.patterns[i].clone());
            i = i + 1;
        }
        let r = ModelUse { patterns: out };
        assert(r@ =~= self@);
        r
    }

    /// Empty model-use constraint.
    pub fn new() -> (m: Self)
        ensures
            m@ == Seq::<Seq<char>>::empty(),
    {
        let m = ModelUse { patterns: Vec::new() };
        assert(m@ =~= Seq::<Seq<char>>::empty());
        m
    }

    /// True when `model` is permitted by one of this lease's patterns.
    pub fn matches(&self, model: &str) -> (r: bool)
        ensures
            r == model_use_permits(self@, model@),
    {
        let mut i: usize = 0;
        while i < self.patterns.len()
            invariant
                i <= self.patterns.len(),
                forall|j: int| 0 <= j < i ==> !glob_matches(#[trigger] self@[j], model@),
            decreases self.patterns.len() - i,
        {
            if glob_star_matches(self.patterns[i].as_str(), model) {
                assert(glob_matches(self@[i as int], model@));
                return true;
            }
            i = i + 1;
        }
        false
    }

    /// Subset check: every child pattern must be implied by at least one
    /// parent pattern. Returns the first child pattern that widens the
    /// parent envelope.
    pub fn subset_violation<'a>(&'a self, child: &'a Self) -> (r: Option<&'a str>)
        ensures
            match r {
                Some(s) => exists|k: int| is_first_uncovered(self@, child@, k) && s@ == child@[k],
                None => forall|k: int|
                    0 <= k < child@.len() ==> pattern_covered(self@, #[trigger] child@[k]),
            },
    {
        let mut k: usize = 0;
        while k < child.patterns.len()
            invariant
                k <= child.patterns.len(),
                forall|i: int| 0 <= i < k ==> pattern_covered(self@, #[trigger] child@[i]),
            decreases child.patterns.len() - k,
        {
            let pattern = child.patterns[k].as_str();
            let mut j: usize = 0;
            let mut covered = false;
            while j < self.patterns.len()
                invariant
                    j <= self.patterns.len(),
                    pattern@ == child@[k as int],
                    covered ==> pattern_covered(self@, pattern@),
                    !covered ==> forall|i: int|
                        0 <= i < j ==> !glob_subsumes(#[trigger] self@[i], pattern@),
                decreases self.patterns.len() - j,
            {
                if glob_pattern_subsumes(self.patterns[j].as_str(), pattern) {
                    assert(glob_subsumes(self@[j as int], pattern@));
                    covered = true;
                }
                j = j + 1;
            }
            if !covered {
                assert(is_first_uncovered(self@, child@, k as int));
                return Some(pattern);
            }
            k = k + 1;
        }
        None
    }
}

// ---------------------------------------------------------------------
// Containment of narrowed `model.use` leases
// ---------------------------------------------------------------------

/// A pattern with a `*` has at least two fragments.
proof fn lemma_split_star_two(p: Seq<char>)
    requires
        p.contains('*'),
    ensures
        split_star(p).len() >= 2,
    decreases p.len(),
{
    let q = p.drop_last();
    lemma_split_star_nonempty(q);
    if p.last() != '*' {
        let i = choose|i: int| 0 <= i < p.len() && p[i] == '*';
        assert(i < p.len() - 1);
        assert(q[i] == '*');
        lemma_split_star_two(q);
    }
}

/// A non-empty pattern whose last fragment is empty ends with `*`.
proof fn lemma_empty_last_fragment(p: Seq<char>)
    requires
        p.len() > 0,
        split_star(p).last().len() == 0,
    ensures
        p.last() == '*',
{
    lemma_split_star_nonempty(p.drop_last());
}

/// While a run succeeds, the value starts with the first fragment and what
/// is left is a tail of the value after it.
proof fn lemma_run_tail(parts: Seq<Seq<char>>, n: nat, m: Seq<char>)
    requires
        1 <= n <= parts.len(),
        glob_run(parts, n, m) is Some,
    ensures
        seq_starts_with(m, parts[0]),
        glob_run(parts, n, m)->0.len() + parts[0].len() <= m.len(),
        glob_run(parts, n, m)->0 == m.skip(m.len() - glob_run(parts, n, m)->0.len()),
    decreases n,
{
    if n == 1 {
        assert(glob_run(parts, 0, m) == Some(m));
        if parts[0].len() == 0 {
            assert(m.subrange(0, 0) =~= parts[0]);
            assert(m.skip(0) =~= m);
        }
    } else {
        lemma_run_tail(parts, (n - 1) as nat, m);
        let r0 = glob_run(parts, (n - 1) as nat, m)->0;
        let part = parts[n - 1];
        let r = glob_run(parts, n, m)->0;
        if part.len() == 0 {
        } else if n == parts.len() {
            assert(r =~= Seq::<char>::empty());
            assert(m.skip(m.len() as int) =~= Seq::<char>::empty());
        } else {
            let pos = leftmost(r0, part)->0;
            assert(is_leftmost(r0, part, pos));
            assert(r =~= m.skip(m.len() - r.len()));
        }
    }
}

/// What a `*` pattern accepts starts with its first fragment and ends with
/// its last, the two not overlapping.
proof fn lemma_match_bounds(c: Seq<char>, m: Seq<char>)
    requires
        c.contains('*'),
        glob_matches(c, m),
    ensures
        seq_starts_with(m, split_star(c)[0]),
        seq_ends_with(m, split_star(c).last()),
        split_star(c)[0].len() + split_star(c).last().len() <= m.len(),
{
    lemma_split_star_two(c);
    let cs = split_star(c);
    if c == seq!['*'] {
        assert(cs =~= seq![Seq::<char>::empty(), Seq::<char>::empty()]) by {
            assert(c.drop_last() =~= Seq::<char>::empty());
            reveal_with_fuel(split_star, 2);
        }
        assert(m.subrange(0, 0) =~= Seq::<char>::empty());
        assert(m.subrange(m.len() as int, m.len() as int) =~= Seq::<char>::empty());
    } else {
        let len = cs.len();
        lemma_run_tail(cs, (len - 1) as nat, m);
        let r0 = glob_run(cs, (len - 1) as nat, m)->0;
        let last = cs.last();
        lemma_run_tail(cs, len, m);
        if last.len() == 0 {
            assert(m.subrange(m.len() as int, m.len() as int) =~= last);
        } else {
            assert(seq_ends_with(r0, last));
            assert(m.subrange(m.len() - last.len(), m.len() as int) =~= r0.subrange(
                r0.len() - last.len(),
                r0.len() as int,
            ));
        }
    }
}

/// Over a value that starts with the prefix, a prefix followed by empty
/// fragments leaves the value after the prefix.
proof fn lemma_prefix_then_empty_run(parts: Seq<Seq<char>>, n: nat, m: Seq<char>)
    requires
        1 <= n < parts.len(),
        seq_starts_with(m, parts[0]),
        inner_fragments_empty(parts),
    ensures
        glob_run(parts, n, m) == Some(m.skip(parts[0].len() as int)),
    decreases n,
{
    if n > 1 {
        lemma_prefix_then_empty_run(parts, (n - 1) as nat, m);
        assert(parts[n - 1].len() == 0);
    } else {
        assert(glob_run(parts, 0, m) == Some(m));
        if parts[0].len() == 0 {
            assert(m.skip(0) =~= m);
        }
    }
}

/// A prefix-`*`-suffix pattern accepts every value that starts with the
/// prefix and ends with the suffix, the two not overlapping.
proof fn lemma_bounded_matches(q: Seq<char>, m: Seq<char>)
    requires
        q.contains('*'),
        inner_fragments_empty(split_star(q)),
        seq_starts_with(m, split_star(q)[0]),
        seq_ends_with(m, split_star(q).last()),
        split_star(q)[0].len() + split_star(q).last().len() <= m.len(),
    ensures
        glob_matches(q, m),
{
    if q != seq!['*'] {
        lemma_split_star_two(q);
        let ps = split_star(q);
        let len = ps.len();
        lemma_prefix_then_empty_run(ps, (len - 1) as nat, m);
        let r0 = m.skip(ps[0].len() as int);
        let last = ps.last();
        if last.len() == 0 {
            lemma_empty_last_fragment(q);
        } else {
            assert(r0.subrange(r0.len() - last.len(), r0.len() as int) =~= m.subrange(
                m.len() - last.len(),
                m.len() as int,
            ));
            assert(seq_ends_with(r0, last));
        }
    }
}

/// A child pattern implied by a parent pattern accepts nothing the parent
/// refuses.
pub proof fn lemma_subsumed_pattern_contained(q: Seq<char>, c: Seq<char>, m: Seq<char>)
    requires
        glob_subsumes(q, c),
        glob_matches(c, m),
    ensures
        glob_matches(q, m),
{
    if q == seq!['*'] || q == c {
    } else if !q.contains('*') {
    } else if !c.contains('*') {
        assert(c != seq!['*']) by {
            if c == seq!['*'] {
                assert(c[0] == '*');
            }
        }
    } else {
        lemma_split_star_two(q);
        lemma_split_star_two(c);
        lemma_match_bounds(c, m);
        let ps = split_star(q);
        let cs = split_star(c);
        let pre = ps[0];
        let suf = ps.last();
        assert(m.subrange(0, pre.len() as int) =~= cs[0].subrange(0, pre.len() as int));
        assert(m.subrange(m.len() - suf.len(), m.len() as int) =~= cs.last().subrange(
            cs.last().len() - suf.len(),
            cs.last().len() as int,
        ));
        lemma_bounded_matches(q, m);
    }
}

/// Narrowing a lease never widens it: when every child pattern is implied
/// by a parent pattern (the check [`ModelUse::subset_violation`] makes),
/// each model the child permits is permitted by the parent.
pub proof fn lemma_model_use_subset_contained(
    parent: Seq<Seq<char>>,
    child: Seq<Seq<char>>,
    model: Seq<char>,
)
    requires
        forall|k: int| 0 <= k < child.len() ==> pattern_covered(parent, #[trigger] child[k]),
        model_use_permits(child, model),
    ensures
        model_use_permits(parent, model),
{
    let k = choose|k: int| 0 <= k < child.len() && glob_matches(#[trigger] child[k], model);
    assert(pattern_covered(parent, child[k]));
    let j = choose|j: int| 0 <= j < parent.len() && glob_subsumes(#[trigger] parent[j], child[k]);
    lemma_subsumed_pattern_contained(parent[j], child[k], model);
}

// ---------------------------------------------------------------------
// `cost.budget`
// ---------------------------------------------------------------------

/// One entry of a `cost.budget` capability: a currency and its maximum.
///
/// Amounts are held as whole micro-units (millionths of the currency
/// unit); the wire form is the string `"<currency>:<decimal>"`.
#[derive(Debug, Clone, PartialEq, Eq)]
pub struct CostBudgetAmount {
    /// Currency identifier (`USD`, `EUR`, `credits`, ...).
    pub currency: String,
    /// Maximum amount in micro-units of `currency`.
    pub amount_micros: u64,
}

impl View for CostBudgetAmount {
    type V = (Seq<char>, u64);

    open spec fn view(&self) -> (Seq<char>, u64) {
        (self.currency@, self.amount_micros)
    }
}

/// Errors from parsing a `cost.budget` amount string.
#[derive(Debug, Clone, PartialEq, Eq)]
pub enum CostBudgetParseError {
    /// Missing `:` separator between currency and amount.
    MissingSeparator(String),
    /// The currency component was empty.
    EmptyCurrency(String),
    /// The amount component could not be parsed as a decimal.
    InvalidAmount(String),
    /// The amount component was negative or not finite.
    Negative(String),
}

/// Text of a [`CostBudgetParseError`]: what went wrong, then the offered
/// string as `{:?}` prints it.
pub open spec fn budget_parse_error_text(e: CostBudgetParseError) -> Seq<char> {
    match e {
        CostBudgetParseError::MissingSeparator(t) => "missing ':' in cost.budget amount "@
            + str_debug_of(t@),
        CostBudgetParseError::EmptyCurrency(t) => "empty currency in cost.budget amount "@
            + str_debug_of(t@),
        CostBudgetParseError::InvalidAmount(t) => "invalid decimal in cost.budget amount "@
            + str_debug_of(t@),
        CostBudgetParseError::Negative(t) => "negative cost.budget amount "@ + str_debug_of(t@),
    }
}

impl CostBudgetParseError {
    /// The error's text (see [`budget_parse_error_text`]).
    pub fn message(&self) -> (s: String)
        ensures
            s@ == budget_parse_error_text(*self),
    {
        let (head, t) = match self {
            CostBudgetParseError::MissingSeparator(t) => ("missing ':' in cost.budget amount ", t),
            CostBudgetParseError::EmptyCurrency(t) => ("empty currency in cost.budget amount ", t),
            CostBudgetParseError::InvalidAmount(t) => ("invalid decimal in cost.budget amount ", t),
            CostBudgetParseError::Negative(t) => ("negative cost.budget amount ", t),
        };
        let q = debug_quoted(t.as_str());
        let mut s = head.to_owned();
        s.append(q.as_str());
        s
    }
}

/// `k` is the first `:` in `s`.
pub open spec fn is_first_colon(s: Seq<char>, k: int) -> bool {
    &&& 0 <= k < s.len()
    &&& s[k] == ':'
    &&& forall|j: int| 0 <= j < k ==> s[j] != ':'
}

impl CostBudgetAmount {
    /// Split an amount string `currency ":" decimal` at its first `:`,
    /// giving the currency and the decimal text. The decimal itself is
    /// read by the caller.
    pub fn split_wire(input: &str) -> (r: Result<(String, String), CostBudgetParseError>)
        ensures
            match r {
                Ok((cur, dec)) => exists|k: int|
                    is_first_colon(input@, k) && k > 0 && cur@ == input@.subrange(0, k) && dec@
                        == input@.subrange(k + 1, input@.len() as int),
                Err(CostBudgetParseError::MissingSeparator(s)) => s@ == input@ && !input@.contains(
                    ':',
                ),
                Err(CostBudgetParseError::EmptyCurrency(s)) => s@ == input@ && is_first_colon(
                    input@,
                    0,
                ),
                Err(_) => false,
            },
    {
        let chars = chars_of(input);
        let mut i: usize = 0;
        while i < chars.len()
            invariant
                chars@ == input@,
                i <= chars.len(),
                forall|j: int| 0 <= j < i ==> chars@[j] != ':',
            decreases chars.len() - i,
        {
            if chars[i] == ':' {
                if i == 0 {
                    return Err(CostBudgetParseError::EmptyCurrency(input.to_owned()));
                }
                let cur = input.substring_char(0, i);
                let dec = input.substring_char(i + 1, chars.len());
                assert(is_first_colon(input@, i as int));
                return Ok((cur.to_owned(), dec.to_owned()));
            }
            i = i + 1;
        }
        Err(CostBudgetParseError::MissingSeparator(input.to_owned()))
    }
}

/// Which error, if any, reading an amount string gives.
pub enum AmountErrorKind {
    /// No `:`.
    MissingSeparator,
    /// Nothing before the first `:`.
    EmptyCurrency,
    /// The amount is not a decimal (or does not fit).
    InvalidAmount,
    /// The amount is negative.
    Negative,
}

/// ASCII letters in lower case; any other character as it is.
pub open spec fn ascii_lower(c: char) -> char {
    if 'A' <= c <= 'Z' {
        ((c as u32) + 32) as char
    } else {
        c
    }
}

/// `s` spells `w` (lower case) in any mix of cases.
pub open spec fn spells(s: Seq<char>, w: Seq<char>) -> bool {
    s.len() == w.len() && forall|i: int| 0 <= i < s.len() ==> ascii_lower(#[trigger] s[i]) == w[i]
}

/// A word for a non-finite number, in any case: `inf`, `infinity` or
/// `nan`.
pub open spec fn non_finite_word(s: Seq<char>) -> bool {
    spells(s, seq!['i', 'n', 'f']) || spells(s, seq!['i', 'n', 'f', 'i', 'n', 'i', 't', 'y'])
        || spells(s, seq!['n', 'a', 'n'])
}

/// An amount text without its sign: a leading `-` or `+` is dropped.
pub open spec fn unsigned_part(rest: Seq<char>) -> Seq<char> {
    if rest.len() > 0 && (rest[0] == '-' || rest[0] == '+') {
        rest.skip(1)
    } else {
        rest
    }
}

/// What reading `input` as `currency ":" amount` gives: the currency and
/// the amount in micro-units, or the kind of error. The amount may carry a
/// sign; an infinite or not-a-number amount, and a negative one other than
/// zero, are refused as negative; an amount past six decimals (but for
/// zeros) or beyond `u64` micro-units is invalid.
pub open spec fn amount_parse_spec(input: Seq<char>) -> Result<(Seq<char>, u64), AmountErrorKind> {
    if !input.contains(':') {
        Err(AmountErrorKind::MissingSeparator)
    } else {
        let k = choose|k: int| is_first_colon(input, k);
        if k == 0 {
            Err(AmountErrorKind::EmptyCurrency)
        } else {
            let cur = input.take(k);
            let rest = input.skip(k + 1);
            let neg = rest.len() > 0 && rest[0] == '-';
            let body = unsigned_part(rest);
            if non_finite_word(body) {
                Err(AmountErrorKind::Negative)
            } else {
                match amount_value(body) {
                    Some(v) => if neg && v != 0 {
                        Err(AmountErrorKind::Negative)
                    } else if v <= u64::MAX {
                        Ok((cur, v as u64))
                    } else {
                        Err(AmountErrorKind::InvalidAmount)
                    },
                    None => Err(AmountErrorKind::InvalidAmount),
                }
            }
        }
    }
}

/// Whether `s` spells `w` (given in lower case) in any mix of cases.
fn spells_exec(s: &Vec<char>, w: &Vec<char>) -> (r: bool)
    ensures
        r == spells(s@, w@),
{
    if s.len() != w.len() {
        return false;
    }
    let mut i: usize = 0;
    while i < s.len()
        invariant
            s.len() == w.len(),
            i <= s.len(),
            forall|x: int| 0 <= x < i ==> ascii_lower(#[trigger] s@[x]) == w@[x],
        decreases s.len() - i,
    {
        let c = s[i];
        let low = if c >= 'A' && c <= 'Z' {
            ((c as u8) + 32) as char
        } else {
            c
        };
        if low != w[i] {
            return false;
        }
        i = i + 1;
    }
    true
}

/// Whether `s` is a word for a non-finite number (see [`non_finite_word`]).
fn non_finite_word_exec(s: &Vec<char>) -> (r: bool)
    ensures
        r == non_finite_word(s@),
{
    let inf = vec!['i', 'n', 'f'];
    let infinity = vec!['i', 'n', 'f', 'i', 'n', 'i', 't', 'y'];
    let nan = vec!['n', 'a', 'n'];
    assert(inf@ =~= seq!['i', 'n', 'f']);
    assert(infinity@ =~= seq!['i', 'n', 'f', 'i', 'n', 'i', 't', 'y']);
    assert(nan@ =~= seq!['n', 'a', 'n']);
    spells_exec(s, &inf) || spells_exec(s, &infinity) || spells_exec(s, &nan)
}

/// Wire text of an amount: `currency ":" amount`, the amount written by
/// [`micros_text`].
pub open spec fn amount_format_spec(currency: Seq<char>, micros: u64) -> Seq<char> {
    currency + seq![':'] + micros_text(micros as nat)
}

/// The amount text of `m` micro-units.
pub fn micros_to_text(m: u64) -> (s: String)
    ensures
        s@ == micros_text(m as nat),
{
    let whole = m / MICROS_PER_UNIT;
    let f = m % MICROS_PER_UNIT;
    let mut s = u64_decimal(whole);
    if f == 0 {
        return s;
    }
    let mut q: u64 = f;
    let mut k: u64 = 6;
    while k > 1 && q % 10 == 0
        invariant
            1 <= k <= 6,
            q <= f,
            trim_fraction(q as nat, k as nat) == trim_fraction(f as nat, 6),
        decreases k,
    {
        q = q / 10;
        k = k - 1;
    }
    s.append(".");
    s.append(padded_decimal(q, k).as_str());
    proof {
        reveal_strlit(".");
    }
    s
}

impl CostBudgetAmount {
    /// Read `currency ":" amount` (see [`amount_parse_spec`]); amounts
    /// are signed decimals (`5`, `+5`, `.5`, `5.`, `5.25`) held as exact
    /// micro-units, and `inf`, `infinity` or `nan` are refused as not
    /// finite.
    pub fn parse(input: &str) -> (r: Result<Self, CostBudgetParseError>)
        ensures
            match amount_parse_spec(input@) {
                Ok((cur, m)) => r matches Ok(a) && a.currency@ == cur && a.amount_micros == m,
                Err(AmountErrorKind::MissingSeparator) => r matches Err(
                    CostBudgetParseError::MissingSeparator(s),
                ) && s@ == input@,
                Err(AmountErrorKind::EmptyCurrency) => r matches Err(
                    CostBudgetParseError::EmptyCurrency(s),
                ) && s@ == input@,
                Err(AmountErrorKind::InvalidAmount) => r matches Err(
                    CostBudgetParseError::InvalidAmount(s),
                ) && s@ == input@,
                Err(AmountErrorKind::Negative) => r matches Err(CostBudgetParseError::Negative(s))
                    && s@ == input@,
            },
    {
        let (cur, dec) = match Self::split_wire(input) {
            Ok(parts) => parts,
            Err(e) => {
                proof {
                    if input@.contains(':') {
                        let k = choose|k: int| 0 <= k < input@.len() && input@[k] == ':';
                        let j = choose|j: int| is_first_colon(input@, j);
                        assert(is_first_colon(input@, 0) ==> j == 0) by {
                            if is_first_colon(input@, 0) && j > 0 {
                                assert(input@[0] != ':');
                            }
                        }
                        lemma_colon_has_first(input@, k);
                    }
                }
                return Err(e);
            },
        };
        let ghost k = choose|k: int| is_first_colon(input@, k) && k > 0 && cur@ == input@.subrange(
            0,
            k,
        ) && dec@ == input@.subrange(k + 1, input@.len() as int);
        proof {
            assert(input@.contains(':')) by {
                assert(input@[k] == ':');
            }
            let j = choose|j: int| is_first_colon(input@, j);
            lemma_first_colon_unique(input@, j, k);
            assert(input@.take(k) =~= cur@);
            assert(input@.skip(k + 1) =~= dec@);
        }
        let chars = chars_of(dec.as_str());
        let neg = chars.len() > 0 && chars[0] == '-';
        let body = if chars.len() > 0 && (chars[0] == '-' || chars[0] == '+') {
            let tail = chars_of(dec.as_str().substring_char(1, chars.len()));
            assert(tail@ =~= dec@.skip(1));
            tail
        } else {
            chars
        };
        assert(body@ == unsigned_part(dec@));
        if non_finite_word_exec(&body) {
            return Err(CostBudgetParseError::Negative(input.to_owned()));
        }
        match amount_micros(&body) {
            Some(Some(m)) => if neg && m != 0 {
                Err(CostBudgetParseError::Negative(input.to_owned()))
            } else {
                Ok(CostBudgetAmount { currency: cur, amount_micros: m })
            },
            Some(None) => if neg {
                Err(CostBudgetParseError::Negative(input.to_owned()))
            } else {
                Err(CostBudgetParseError::InvalidAmount(input.to_owned()))
            },
            None => Err(CostBudgetParseError::InvalidAmount(input.to_owned())),
        }
    }

    /// Wire text `currency ":" amount` (see [`amount_format_spec`]).
    pub fn format(&self) -> (s: String)
        ensures
            s@ == amount_format_spec(self.currency@, self.amount_micros),
    {
        let mut s = self.currency.clone();
        s.append(":");
        proof {
            reveal_strlit(":");
        }
        s.append(micros_to_text(self.amount_micros).as_str());
        s
    }
}

/// The amount text of `m` micro-units reads back as `m`.
pub proof fn lemma_micros_text_reads_back(m: u64)
    ensures
        amount_value(micros_text(m as nat)) == Some(m as int),
        forall|i: int| 0 <= i < micros_text(m as nat).len() ==> #[trigger] micros_text(m as nat)[i]
            != ':' && micros_text(m as nat)[i] != '-',
        micros_text(m as nat).len() > 0,
        is_digit(micros_text(m as nat)[0]),
{
    let w = (m / 1000000) as nat;
    let f = (m % 1000000) as nat;
    lemma_decimal(w);
    let dw = decimal(w);
    let t = micros_text(m as nat);
    if f == 0 {
        assert(t == dw);
        assert(!exists|k: int| is_first_dot(t, k)) by {
            if exists|k: int| is_first_dot(t, k) {
                let k = choose|k: int| is_first_dot(t, k);
                assert(is_digit(t[k]));
            }
        }
        assert(m == w * 1000000);
        assert forall|i: int| 0 <= i < t.len() implies #[trigger] t[i] != ':' && t[i] != '-' by {
            assert(is_digit(t[i]));
        }
    } else {
        reveal_with_fuel(pow10, 7);
        assert(pow10(6) == 1000000);
        crate::decimal::lemma_trim_fraction(f, 6);
        let (q, j) = trim_fraction(f, 6);
        lemma_padded(q, j);
        let pq = padded(q, j);
        assert(t == dw + seq!['.'] + pq);
        let k = dw.len() as int;
        assert(is_first_dot(t, k)) by {
            assert(t[k] == '.');
            assert forall|x: int| 0 <= x < k implies t[x] != '.' by {
                assert(t[x] == dw[x]);
                assert(is_digit(dw[x]));
            }
        }
        assert forall|x: int| is_first_dot(t, x) implies x == k by {
            if x < k {
                assert(t[x] == dw[x]);
                assert(is_digit(dw[x]));
            } else if x > k {
                assert(t[k] == '.');
            }
        }
        assert(t.take(k) =~= dw);
        assert(t.skip(k + 1) =~= pq);
        assert(counted_fraction(pq.len()) == pq.len());
        assert(pq.take(pq.len() as int) =~= pq);
        assert(all_zeros(pq.skip(pq.len() as int)));
        assert(q % pow10(j) == q) by {
            vstd::arithmetic::div_mod::lemma_small_mod(q, pow10(j));
        }
        assert(m == w * 1000000 + f);
        assert forall|i: int| 0 <= i < t.len() implies #[trigger] t[i] != ':' && t[i] != '-' by {
            if i < k {
                assert(t[i] == dw[i]);
                assert(is_digit(dw[i]));
            } else if i > k {
                assert(t[i] == pq[i - k - 1]);
                assert(is_digit(pq[i - k - 1]));
            }
        }
    }
}

/// Reading back the wire text of an amount gives the amount again, for
/// any non-empty currency without a `:` (a currency containing `:` is
/// split at its first `:` and does not read back).
pub proof fn lemma_amount_format_parse(currency: Seq<char>, micros: u64)
    requires
        currency.len() > 0,
        !currency.contains(':'),
    ensures
        amount_parse_spec(amount_format_spec(currency, micros)) == Ok::<
            (Seq<char>, u64),
            AmountErrorKind,
        >((currency, micros)),
{
    lemma_micros_text_reads_back(micros);
    let mt = micros_text(micros as nat);
    let t = amount_format_spec(currency, micros);
    let k = currency.len() as int;
    assert(t == currency + seq![':'] + mt);
    assert(t[k] == ':');
    assert(t.contains(':'));
    assert(is_first_colon(t, k)) by {
        assert forall|x: int| 0 <= x < k implies t[x] != ':' by {
            assert(t[x] == currency[x]);
            if currency[x] == ':' {
                assert(currency.contains(':'));
            }
        }
    }
    let c = choose|x: int| is_first_colon(t, x);
    lemma_first_colon_unique(t, c, k);
    assert(t.take(k) =~= currency);
    assert(t.skip(k + 1) =~= mt);
    assert(unsigned_part(mt) == mt);
    assert(!non_finite_word(mt)) by {
        assert(ascii_lower(mt[0]) == mt[0]);
    }
}

proof fn lemma_colon_has_first(s: Seq<char>, k: int)
    requires
        0 <= k < s.len(),
        s[k] == ':',
    ensures
        exists|j: int| is_first_colon(s, j),
    decreases k,
{
    if exists|j: int| 0 <= j < k && s[j] == ':' {
        let j = choose|j: int| 0 <= j < k && s[j] == ':';
        lemma_colon_has_first(s, j);
    } else {
        assert(is_first_colon(s, k));
    }
}

proof fn lemma_first_colon_unique(s: Seq<char>, a: int, b: int)
    requires
        is_first_colon(s, a),
        is_first_colon(s, b),
    ensures
        a == b,
{
    if a < b {
        assert(s[a] != ':');
    }
    if b < a {
        assert(s[b] != ':');
    }
}

/// `i` is the first entry of `s` keyed by `key`.
pub open spec fn is_first_key(s: Seq<(Seq<char>, u64)>, key: Seq<char>, i: int) -> bool {
    &&& 0 <= i < s.len()
    &&& s[i].0 == key
    &&& forall|j: int| 0 <= j < i ==> s[j].0 != key
}

/// Value of the first entry keyed by `key`.
pub open spec fn assoc_lookup(s: Seq<(Seq<char>, u64)>, key: Seq<char>) -> Option<u64> {
    if exists|i: int| is_first_key(s, key, i) {
        Some(s[choose|i: int| is_first_key(s, key, i)].1)
    } else {
        None
    }
}

proof fn lemma_first_key_unique(s: Seq<(Seq<char>, u64)>, key: Seq<char>, i: int)
    requires
        is_first_key(s, key, i),
    ensures
        assoc_lookup(s, key) == Some(s[i].1),
{
    let c = choose|k: int| is_first_key(s, key, k);
    assert(is_first_key(s, key, c));
    if c < i {
        assert(s[c].0 != key);
    }
    if i < c {
        assert(s[i].0 != key);
    }
}

/// Remaining authority per currency, as `(currency, micro-units)` pairs;
/// the first pair for a currency counts.
pub type RemainingBudget = Vec<(String, u64)>;

/// Views of a remaining-budget table.
pub open spec fn remaining_view(r: Seq<(String, u64)>) -> Seq<(Seq<char>, u64)> {
    r.map_values(|e: (String, u64)| (e.0@, e.1))
}

/// Look up the first pair for `key`.
pub fn lookup_remaining(r: &RemainingBudget, key: &str) -> (v: Option<u64>)
    ensures
        v == assoc_lookup(remaining_view(r@), key@),
{
    let mut i: usize = 0;
    while i < r.len()
        invariant
            i <= r.len(),
            forall|j: int| 0 <= j < i ==> remaining_view(r@)[j].0 != key@,
        decreases r.len() - i,
    {
        if crate::text::str_eq(r[i].0.as_str(), key) {
            assert(is_first_key(remaining_view(r@), key@, i as int));
            proof {
                lemma_first_key_unique(remaining_view(r@), key@, i as int);
            }
            return Some(r[i].1);
        }
        i = i + 1;
    }
    assert forall|k: int| !is_first_key(remaining_view(r@), key@, k) by {
        if 0 <= k < r.len() {
            assert(remaining_view(r@)[k].0 != key@);
        }
    }
    None
}

/// Authority left for `currency` under `parent`: the remaining table's
/// entry when present, else the declared maximum.
pub open spec fn parent_allowance(
    parent: Seq<(Seq<char>, u64)>,
    remaining: Seq<(Seq<char>, u64)>,
    currency: Seq<char>,
) -> Option<u64> {
    match assoc_lookup(remaining, currency) {
        Some(r) => Some(r),
        None => assoc_lookup(parent, currency),
    }
}

/// The child entry asks for more than the parent allows (or for a
/// currency the parent does not budget).
pub open spec fn budget_entry_exceeds(
    parent: Seq<(Seq<char>, u64)>,
    remaining: Seq<(Seq<char>, u64)>,
    entry: (Seq<char>, u64),
) -> bool {
    match parent_allowance(parent, remaining, entry.0) {
        None => true,
        Some(a) => entry.1 > a,
    }
}

/// `k` is the first child entry that exceeds the parent.
pub open spec fn is_first_budget_violation(
    parent: Seq<(Seq<char>, u64)>,
    remaining: Seq<(Seq<char>, u64)>,
    child: Seq<(Seq<char>, u64)>,
    k: int,
) -> bool {
    &&& 0 <= k < child.len()
    &&& budget_entry_exceeds(parent, remaining, child[k])
    &&& forall|i: int| 0 <= i < k ==> !budget_entry_exceeds(parent, remaining, #[trigger] child[i])
}

/// First violating currency of a budget subset check.
pub open spec fn budget_violation(
    parent: Seq<(Seq<char>, u64)>,
    remaining: Seq<(Seq<char>, u64)>,
    child: Seq<(Seq<char>, u64)>,
) -> Option<Seq<char>> {
    if exists|k: int| is_first_budget_violation(parent, remaining, child, k) {
        Some(child[choose|k: int| is_first_budget_violation(parent, remaining, child, k)].0)
    } else {
        None
    }
}

proof fn lemma_first_budget_violation_unique(
    parent: Seq<(Seq<char>, u64)>,
    remaining: Seq<(Seq<char>, u64)>,
    child: Seq<(Seq<char>, u64)>,
    k: int,
)
    requires
        is_first_budget_violation(parent, remaining, child, k),
    ensures
        budget_violation(parent, remaining, child) == Some(child[k].0),
{
    let c = choose|x: int| is_first_budget_violation(parent, remaining, child, x);
    assert(is_first_budget_violation(parent, remaining, child, c));
    if c < k {
        assert(!budget_entry_exceeds(parent, remaining, child[c]));
    }
    if k < c {
        assert(!budget_entry_exceeds(parent, remaining, child[k]));
    }
}

/// `cost.budget` lease capability: the declared upper bound per currency.
/// The runtime tracks the remaining counters separately.
#[derive(Debug, Clone, Default, PartialEq, Eq)]
pub struct CostBudget {
    /// One entry per currency, declared at job submission.
    pub amounts: Vec<CostBudgetAmount>,
}

impl View for CostBudget {
    type V = Seq<(Seq<char>, u64)>;

    open spec fn view(&self) -> Seq<(Seq<char>, u64)> {
        self.amounts@.map_values(|a: CostBudgetAmount| a@)
    }
}

impl CostBudget {
    /// A copy with the same amounts.
    pub fn clone_budget(&self) -> (r: Self)
        ensures
            r@ == self@,
    {
        let mut out: Vec<CostBudgetAmount> = Vec::new();
        let mut i: usize = 0;
        while i < self.amounts.len()
            invariant
                i <= self.amounts.len(),
                out.len() == i,
                forall|k: int| 0 <= k < i ==> #[trigger] out@[k]@ == self.amounts@[k]@,
            decreases self.amounts.len() - i,
        {
            let a = &self.amounts[i];
            out.push(CostBudgetAmount { currency: a.currency.clone(), amount_micros: a.amount_micros });
            i = i + 1;
        }
        let r = CostBudget { amounts: out };
        assert(r@ =~= self@);
        r
    }

    /// Empty budget.
    pub fn new() -> (b: Self)
        ensures
            b@ == Seq::<(Seq<char>, u64)>::empty(),
    {
        let b = CostBudget { amounts: Vec::new() };
        assert(b@ =~= Seq::<(Seq<char>, u64)>::empty());
        b
    }

    /// True if the budget declares no currencies (enforcement disabled).
    pub fn is_empty(&self) -> (r: bool)
        ensures
            r == (self@.len() == 0),
    {
        self.amounts.len() == 0
    }

    /// The declared maximum for `currency`, if any (the first entry counts).
    pub fn max(&self, currency: &str) -> (r: Option<u64>)
        ensures
            r == assoc_lookup(self@, currency@),
    {
        let mut i: usize = 0;
        while i < self.amounts.len()
            invariant
                i <= self.amounts.len(),
                forall|j: int| 0 <= j < i ==> self@[j].0 != currency@,
            decreases self.amounts.len() - i,
        {
            if crate::text::str_eq(self.amounts[i].currency.as_str(), currency) {
                assert(is_first_key(self@, currency@, i as int));
                proof {
                    lemma_first_key_unique(self@, currency@, i as int);
                }
                return Some(self.amounts[i].amount_micros);
            }
            i = i + 1;
        }
        assert forall|k: int| !is_first_key(self@, currency@, k) by {
            if 0 <= k < self@.len() {
                assert(self@[k].0 != currency@);
            }
        }
        None
    }

    /// Subset check: every currency of `child` must ask for no more than
    /// this budget allows for it. `remaining` gives the unspent amount per
    /// currency; a currency absent from it counts as fully unspent. Returns
    /// the first violating currency.
    pub fn subset_violation<'a>(&'a self, child: &'a Self, remaining: &RemainingBudget) -> (r:
        Option<&'a str>)
        ensures
            match r {
                Some(s) => budget_violation(self@, remaining_view(remaining@), child@) == Some(
                    s@,
                ),
                None => budget_violation(self@, remaining_view(remaining@), child@) is None,
            },
    {
        let ghost rem = remaining_view(remaining@);
        let mut k: usize = 0;
        while k < child.amounts.len()
            invariant
                k <= child.amounts.len(),
                rem == remaining_view(remaining@),
                forall|i: int|
                    0 <= i < k ==> !budget_entry_exceeds(self@, rem, #[trigger] child@[i]),
            decreases child.amounts.len() - k,
        {
            let c = &child.amounts[k];
            assert(child@[k as int] == c@);
            let allowance = match lookup_remaining(remaining, c.currency.as_str()) {
                Some(v) => Some(v),
                None => self.max(c.currency.as_str()),
            };
            let exceeds = match allowance {
                None => true,
                Some(a) => c.amount_micros > a,
            };
            if exceeds {
                proof {
                    assert(is_first_budget_violation(self@, rem, child@, k as int));
                    lemma_first_budget_violation_unique(self@, rem, child@, k as int);
                }
                return Some(c.currency.as_str());
            }
            k = k + 1;
        }
        assert forall|x: int| !is_first_budget_violation(self@, rem, child@, x) by {
            if 0 <= x < child@.len() {
                assert(!budget_entry_exceeds(self@, rem, child@[x]));
            }
        }
        None
    }
}

// ---------------------------------------------------------------------
// Lease requests
// ---------------------------------------------------------------------

/// `lease_request` capability block carried on `tool.invoke`.
#[derive(Debug, Clone, Default, PartialEq)]
pub struct LeaseRequest {
    /// Optional `cost.budget` capability.
    pub cost_budget: Option<CostBudget>,
    /// Optional `model.use` capability.
    pub model_use: Option<ModelUse>,
    /// Lease expiry bound applied to any child lease or credential TTL.
    pub expires_at: Option<UtcTime>,
    /// Forward-compatible unknown lease capabilities.
    pub extra: std::collections::BTreeMap<String, serde_json::Value>,
}

/// Mathematical form of a [`LeaseRequest`].
pub struct LeaseRequestView {
    pub cost_budget: Option<Seq<(Seq<char>, u64)>>,
    pub model_use: Option<Seq<Seq<char>>>,
    pub expires_at: Option<UtcTime>,
    pub extra: Map<String, serde_json::Value>,
}

impl View for LeaseRequest {
    type V = LeaseRequestView;

    open spec fn view(&self) -> LeaseRequestView {
        LeaseRequestView {
            cost_budget: match self.cost_budget {
                Some(b) => Some(b@),
                None => None,
            },
            model_use: match self.model_use {
                Some(m) => Some(m@),
                None => None,
            },
            expires_at: self.expires_at,
            extra: self.extra@,
        }
    }
}

/// Known reasons a child lease fails subsetting.
#[derive(Debug, Clone, PartialEq)]
pub enum LeaseSubsetViolation {
    /// Child `cost.budget` exceeds the parent's remaining budget.
    CostBudget(String),
    /// Child `model.use` widens the parent model set.
    ModelUse(String),
    /// Child expiry exceeds the parent's, or the parent has no expiry bound.
    ExpiresAtBeyondParent,
}

/// Mathematical form of a [`LeaseSubsetViolation`].
pub enum LeaseSubsetViolationView {
    CostBudget(Seq<char>),
    ModelUse(Seq<char>),
    ExpiresAtBeyondParent,
}

impl View for LeaseSubsetViolation {
    type V = LeaseSubsetViolationView;

    open spec fn view(&self) -> LeaseSubsetViolationView {
        match self {
            LeaseSubsetViolation::CostBudget(s) => LeaseSubsetViolationView::CostBudget(s@),
            LeaseSubsetViolation::ModelUse(s) => LeaseSubsetViolationView::ModelUse(s@),
            LeaseSubsetViolation::ExpiresAtBeyondParent => {
                LeaseSubsetViolationView::ExpiresAtBeyondParent
            },
        }
    }
}

/// How `{:?}` prints a violation: the variant's name, with the offending
/// currency or pattern quoted in brackets.
pub open spec fn violation_debug_text(v: LeaseSubsetViolationView) -> Seq<char> {
    match v {
        LeaseSubsetViolationView::CostBudget(t) => "CostBudget("@ + str_debug_of(t) + ")"@,
        LeaseSubsetViolationView::ModelUse(t) => "ModelUse("@ + str_debug_of(t) + ")"@,
        LeaseSubsetViolationView::ExpiresAtBeyondParent => "ExpiresAtBeyondParent"@,
    }
}

impl LeaseSubsetViolation {
    /// The violation as `{:?}` prints it (see [`violation_debug_text`]).
    pub fn debug_text(&self) -> (s: String)
        ensures
            s@ == violation_debug_text(self@),
    {
        match self {
            LeaseSubsetViolation::CostBudget(t) => {
                let mut s = "CostBudget(".to_owned();
                s.append(debug_quoted(t.as_str()).as_str());
                s.append(")");
                s
            },
            LeaseSubsetViolation::ModelUse(t) => {
                let mut s = "ModelUse(".to_owned();
                s.append(debug_quoted(t.as_str()).as_str());
                s.append(")");
                s
            },
            LeaseSubsetViolation::ExpiresAtBeyondParent => "ExpiresAtBeyondParent".to_owned(),
        }
    }
}

/// First child pattern no parent pattern implies.
pub open spec fn model_violation(parent: Seq<Seq<char>>, child: Seq<Seq<char>>) -> Option<Seq<char>> {
    if exists|k: int| is_first_uncovered(parent, child, k) {
        Some(child[choose|k: int| is_first_uncovered(parent, child, k)])
    } else {
        None
    }
}

proof fn lemma_first_uncovered_unique(parent: Seq<Seq<char>>, child: Seq<Seq<char>>, k: int)
    requires
        is_first_uncovered(parent, child, k),
    ensures
        model_violation(parent, child) == Some(child[k]),
{
    let c = choose|x: int| is_first_uncovered(parent, child, x);
    assert(is_first_uncovered(parent, child, c));
    if c < k {
        assert(pattern_covered(parent, child[c]));
    }
    if k < c {
        assert(pattern_covered(parent, child[k]));
    }
}

/// The `cost.budget` part of a lease subset check.
pub open spec fn lease_budget_violation(
    parent: LeaseRequestView,
    child: LeaseRequestView,
    remaining: Seq<(Seq<char>, u64)>,
) -> Option<LeaseSubsetViolationView> {
    match child.cost_budget {
        None => None,
        Some(cb) => match parent.cost_budget {
            None => Some(
                LeaseSubsetViolationView::CostBudget(
                    if cb.len() > 0 {
                        cb[0].0
                    } else {
                        "cost.budget"@
                    },
                ),
            ),
            Some(pb) => match budget_violation(pb, remaining, cb) {
                Some(c) => Some(LeaseSubsetViolationView::CostBudget(c)),
                None => None,
            },
        },
    }
}

/// The `model.use` part of a lease subset check.
pub open spec fn lease_model_violation(parent: LeaseRequestView, child: LeaseRequestView) -> Option<
    LeaseSubsetViolationView,
> {
    match child.model_use {
        None => None,
        Some(cm) => match parent.model_use {
            None => Some(
                LeaseSubsetViolationView::ModelUse(
                    if cm.len() > 0 {
                        cm[0]
                    } else {
                        "model.use"@
                    },
                ),
            ),
            Some(pm) => match model_violation(pm, cm) {
                Some(p) => Some(LeaseSubsetViolationView::ModelUse(p)),
                None => None,
            },
        },
    }
}

/// The expiry part of a lease subset check.
pub open spec fn lease_expiry_violation(parent: LeaseRequestView, child: LeaseRequestView) -> Option<
    LeaseSubsetViolationView,
> {
    match child.expires_at {
        None => None,
        Some(ce) => match parent.expires_at {
            None => Some(LeaseSubsetViolationView::ExpiresAtBeyondParent),
            Some(pe) => if utc_lt(pe, ce) {
                Some(LeaseSubsetViolationView::ExpiresAtBeyondParent)
            } else {
                None
            },
        },
    }
}

/// Subset check across all known lease capabilities, in the order budget,
/// models, expiry; the first violation found is reported.
pub open spec fn lease_violation(
    parent: LeaseRequestView,
    child: LeaseRequestView,
    remaining: Seq<(Seq<char>, u64)>,
) -> Option<LeaseSubsetViolationView> {
    if lease_budget_violation(parent, child, remaining) is Some {
        lease_budget_violation(parent, child, remaining)
    } else if lease_model_violation(parent, child) is Some {
        lease_model_violation(parent, child)
    } else {
        lease_expiry_violation(parent, child)
    }
}

/// A delegated lease never outlives its parent: a child with an expiry
/// under a parent without one, or with an expiry later than the parent's,
/// is refused; an accepted child with an expiry has a parent expiry no
/// earlier. A child that asks for no budget and no models is judged on
/// its expiry alone, so one expiring no later than its parent is accepted.
pub proof fn lemma_child_expiry_within_parent(
    parent: LeaseRequestView,
    child: LeaseRequestView,
    remaining: Seq<(Seq<char>, u64)>,
)
    ensures
        (child.expires_at is Some && parent.expires_at is None) ==> lease_expiry_violation(parent, child)
            == Some(LeaseSubsetViolationView::ExpiresAtBeyondParent),
        (child.expires_at is Some && parent.expires_at is None) ==> lease_violation(parent, child, remaining) is Some,
        match (child.expires_at, parent.expires_at) {
            (Some(ce), Some(pe)) => utc_lt(pe, ce) ==> lease_violation(parent, child, remaining) is Some,
            _ => true,
        },
        match child.expires_at {
            Some(ce) => lease_violation(parent, child, remaining) is None ==> match parent.expires_at {
                Some(pe) => !utc_lt(pe, ce),
                None => false,
            },
            None => lease_expiry_violation(parent, child) is None,
        },
        (child.cost_budget is None && child.model_use is None) ==> lease_violation(parent, child, remaining)
            == lease_expiry_violation(parent, child),
        match (child.expires_at, parent.expires_at) {
            (Some(ce), Some(pe)) => (child.cost_budget is None && child.model_use is None && !utc_lt(pe, ce))
                ==> lease_violation(parent, child, remaining) is None,
            _ => true,
        },
{
}

/// The lease carries an `expires_at` at or before `now`.
pub open spec fn lease_expired_at(lease: LeaseRequestView, now: UtcTime) -> bool {
    match lease.expires_at {
        Some(e) => utc_le(e, now),
        None => false,
    }
}

impl LeaseRequest {
    /// A copy with the same capabilities.
    pub fn clone_lease(&self) -> (r: Self)
        ensures
            r@ == self@,
    {
        LeaseRequest {
            cost_budget: match &self.cost_budget {
                Some(b) => Some(b.clone_budget()),
                None => None,
            },
            model_use: match &self.model_use {
                Some(m) => Some(m.clone_patterns()),
                None => None,
            },
            expires_at: self.expires_at,
            extra: self.extra.clone(),
        }
    }

    /// Empty lease request.
    pub fn new() -> (l: Self)
        ensures
            l@.cost_budget is None,
            l@.model_use is None,
            l@.expires_at is None,
            l@.extra.is_empty(),
    {
        LeaseRequest {
            cost_budget: None,
            model_use: None,
            expires_at: None,
            extra: std::collections::BTreeMap::new(),
        }
    }

    /// True when the lease carries no known or extension capabilities.
    pub fn is_empty(&self) -> (r: bool)
        ensures
            r == (self@.cost_budget is None && self@.model_use is None && self@.expires_at is None
                && self@.extra.is_empty()),
    {
        self.cost_budget.is_none() && self.model_use.is_none() && self.expires_at.is_none()
            && self.extra.is_empty()
    }

    /// Validate the lease at submission time against `now`: a set
    /// `expires_at` must be strictly later than `now`.
    pub fn validate_at(&self, now: UtcTime) -> (r: Result<(), ARCPError>)
        ensures
            r is Ok <==> !lease_expired_at(self@, now),
            r matches Err(e) ==> e is InvalidRequest && error_detail(e)
                == "lease.expires_at must be in the future at submission time"@,
    {
        match self.expires_at {
            Some(expires_at) => {
                if expires_at.le(&now) {
                    return Err(
                        ARCPError::InvalidRequest {
                            detail: "lease.expires_at must be in the future at submission time".to_owned(),
                        },
                    );
                }
                Ok(())
            },
            None => Ok(()),
        }
    }

    /// [`Self::validate_at`] against the current time: the result is that
    /// of `validate_at` at some instant the clock read, which is never
    /// before the epoch (so an expiry before the epoch is always refused).
    pub fn validate(&self) -> (r: Result<(), ARCPError>)
        ensures
            exists|now: UtcTime|
                now.secs >= 0 && now.nanos < 1_000_000_000 && (r is Ok <==> !lease_expired_at(
                    self@,
                    now,
                )),
            self@.expires_at is None ==> r is Ok,
            (self@.expires_at matches Some(e) && e.secs < 0) ==> r is Err,
            r matches Err(e) ==> e is InvalidRequest && error_detail(e)
                == "lease.expires_at must be in the future at submission time"@,
            r is Err ==> self@.expires_at is Some,
    {
        self.validate_at(utc_now())
    }

    /// True when the lease carries an `expires_at` at or before `now`. An
    /// absent `expires_at` never expires.
    pub fn is_expired_at(&self, now: UtcTime) -> (r: bool)
        ensures
            r == lease_expired_at(self@, now),
    {
        match self.expires_at {
            Some(e) => e.le(&now),
            None => false,
        }
    }

    /// Subset check across all known lease capabilities.
    pub fn subset_violation(&self, child: &Self, remaining_budget: &RemainingBudget) -> (r: Option<
        LeaseSubsetViolation,
    >)
        ensures
            match r {
                Some(v) => lease_violation(self@, child@, remaining_view(remaining_budget@))
                    == Some(v@),
                None => lease_violation(self@, child@, remaining_view(remaining_budget@)) is None,
            },
    {
        if let Some(child_budget) = child.cost_budget.as_ref() {
            match self.cost_budget.as_ref() {
                None => {
                    let name = if child_budget.amounts.len() > 0 {
                        child_budget.amounts[0].currency.clone()
                    } else {
                        "cost.budget".to_owned()
                    };
                    return Some(LeaseSubsetViolation::CostBudget(name));
                },
                Some(parent_budget) => {
                    match parent_budget.subset_violation(child_budget, remaining_budget) {
                        Some(currency) => {
                            return Some(LeaseSubsetViolation::CostBudget(currency.to_owned()));
                        },
                        None => {},
                    }
                },
            }
        }
        if let Some(child_models) = child.model_use.as_ref() {
            match self.model_use.as_ref() {
                None => {
                    let name = if child_models.patterns.len() > 0 {
                        child_models.patterns[0].clone()
                    } else {
                        "model.use".to_owned()
                    };
                    return Some(LeaseSubsetViolation::ModelUse(name));
                },
                Some(parent_models) => {
                    match parent_models.subset_violation(child_models) {
                        Some(pattern) => {
                            proof {
                                let k = choose|k: int|
                                    is_first_uncovered(parent_models@, child_models@, k)
                                        && pattern@ == child_models@[k];
                                lemma_first_uncovered_unique(parent_models@, child_models@, k);
                            }
                            return Some(LeaseSubsetViolation::ModelUse(pattern.to_owned()));
                        },
                        None => {
                            assert forall|x: int|
                                !is_first_uncovered(
                                    parent_models@,
                                    child_models@,
                                    x,
                                ) by {
                                if 0 <= x < child_models@.len() {
                                    assert(pattern_covered(parent_models@, child_models@[x]));
                                }
                            }
                        },
                    }
                },
            }
        }
        if let Some(child_expiry) = child.expires_at {
            match self.expires_at {
                None => {
                    return Some(LeaseSubsetViolation::ExpiresAtBeyondParent);
                },
                Some(parent_expiry) => {
                    if parent_expiry.lt(&child_expiry) {
                        return Some(LeaseSubsetViolation::ExpiresAtBeyondParent);
                    }
                },
            }
        }
        None
    }
}

/// Trust level.
#[derive(Debug, Clone, Copy, PartialEq, Eq, Hash)]
pub enum TrustLevel {
    /// External / public.
    Untrusted,
    /// Limited access.
    Constrained,
    /// Internal.
    Trusted,
    /// System-level.
    Privileged,
}

/// Payload for `permission.request`.
#[derive(Debug, Clone, PartialEq, Eq)]
pub struct PermissionRequestPayload {
    /// Permission name (e.g. `payment.refund.create`).
    pub permission: String,
    /// Resource identifier.
    pub resource: String,
    /// Operation identifier.
    pub operation: String,
    /// Operator-facing reason.
    pub reason: Option<String>,
    /// Requested lease duration in seconds.
    pub requested_lease_seconds: Option<u64>,
}

/// Payload for `permission.grant`.
#[derive(Debug, Clone, PartialEq, Eq)]
pub struct PermissionGrantPayload {
    /// Granted permission.
    pub permission: String,
    /// Resource identifier.
    pub resource: String,
    /// Operation identifier.
    pub operation: String,
    /// Lease duration in seconds.
    pub lease_seconds: u64,
}

/// Payload for `permission.deny`.
#[derive(Debug, Clone, PartialEq, Eq)]
pub struct PermissionDenyPayload {
    /// Denied permission.
    pub permission: String,
    /// Free-form reason.
    pub reason: String,
}

/// Payload for `lease.granted`.
#[derive(Debug, Clone, PartialEq, Eq)]
pub struct LeaseGrantedPayload {
    /// Newly minted lease id.
    pub lease_id: LeaseId,
    /// Permission the lease covers.
    pub permission: String,
    /// Resource the lease covers.
    pub resource: String,
    /// Operation the lease covers.
    pub operation: String,
    /// Absolute expiry time.
    pub expires_at: UtcTime,
}

/// Payload for `lease.refresh`: the holder asks for an extension.
#[derive(Debug, Clone, PartialEq, Eq)]
pub struct LeaseRefreshPayload {
    /// The lease being refreshed.
    pub lease_id: LeaseId,
    /// Requested additional duration in seconds.
    pub additional_seconds: u64,
}

/// Payload for `lease.extended`.
#[derive(Debug, Clone, PartialEq, Eq)]
pub struct LeaseExtendedPayload {
    /// The lease that was extended.
    pub lease_id: LeaseId,
    /// New absolute expiry time.
    pub expires_at: UtcTime,
}

/// Payload for `lease.revoked`.
#[derive(Debug, Clone, PartialEq, Eq)]
pub struct LeaseRevokedPayload {
    /// The revoked lease.
    pub lease_id: LeaseId,
    /// Free-form reason for revocation.
    pub reason: String,
}

} // verus!
