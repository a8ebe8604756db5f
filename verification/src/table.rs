//! Association tables: a sequence of `(key, value)` rows with one row per
//! key, read as a finite map.

use vstd::prelude::*;

verus! {

/// The map a table of rows stands for.
pub open spec fn table_view<K, V>(rows: Seq<(K, V)>) -> Map<K, V> {
    Map::new(
        |k: K| exists|i: int| 0 <= i < rows.len() && #[trigger] rows[i].0 == k,
        |k: K| rows[choose|i: int| 0 <= i < rows.len() && #[trigger] rows[i].0 == k].1,
    )
}

/// One row per key.
pub open spec fn table_wf<K, V>(rows: Seq<(K, V)>) -> bool {
    forall|i: int, j: int| 0 <= i < j < rows.len() ==> #[trigger] rows[i].0 != #[trigger] rows[j].0
}

/// A row of a well-formed table is what the map gives for its key.
pub proof fn lemma_table_entry<K, V>(rows: Seq<(K, V)>, i: int)
    requires
        table_wf(rows),
        0 <= i < rows.len(),
    ensures
        table_view(rows).contains_key(rows[i].0),
        table_view(rows)[rows[i].0] == rows[i].1,
{
    let k = rows[i].0;
    assert(table_view(rows).dom().contains(k));
    let j = choose|j: int| 0 <= j < rows.len() && #[trigger] rows[j].0 == k;
    if j != i {
        if j < i {
            assert(rows[j].0 != rows[i].0);
        } else {
            assert(rows[i].0 != rows[j].0);
        }
    }
}

/// Overwriting the row of a key updates the map at that key.
pub proof fn lemma_table_update<K, V>(rows: Seq<(K, V)>, i: int, value: V)
    requires
        table_wf(rows),
        0 <= i < rows.len(),
    ensures
        table_wf(rows.update(i, (rows[i].0, value))),
        table_view(rows.update(i, (rows[i].0, value))) == table_view(rows).insert(rows[i].0, value),
{
    let key = rows[i].0;
    let after = rows.update(i, (key, value));
    assert forall|x: int, y: int| 0 <= x < y < after.len() implies #[trigger] after[x].0
        != #[trigger] after[y].0 by {
        assert(rows[x].0 != rows[y].0);
    }
    assert forall|k: K| #[trigger] table_view(after).contains_key(k) == table_view(
        rows,
    ).insert(key, value).contains_key(k) by {
        if table_view(rows).contains_key(k) {
            let j = choose|j: int| 0 <= j < rows.len() && #[trigger] rows[j].0 == k;
            assert(after[j].0 == k);
        }
        if table_view(after).contains_key(k) {
            let j = choose|j: int| 0 <= j < after.len() && #[trigger] after[j].0 == k;
            assert(rows[j].0 == k);
        }
    }
    assert forall|k: K| #[trigger] table_view(after).contains_key(k) implies table_view(
        after,
    )[k] == table_view(rows).insert(key, value)[k] by {
        let j = choose|j: int| 0 <= j < after.len() && #[trigger] after[j].0 == k;
        lemma_table_entry(after, j);
        if j != i {
            lemma_table_entry(rows, j);
        }
    }
    assert(table_view(after) =~= table_view(rows).insert(key, value));
}

/// Appending a row for a new key adds that key to the map.
pub proof fn lemma_table_push<K, V>(rows: Seq<(K, V)>, key: K, value: V)
    requires
        table_wf(rows),
        !table_view(rows).contains_key(key),
    ensures
        table_wf(rows.push((key, value))),
        table_view(rows.push((key, value))) == table_view(rows).insert(key, value),
{
    let after = rows.push((key, value));
    assert forall|x: int, y: int| 0 <= x < y < after.len() implies #[trigger] after[x].0
        != #[trigger] after[y].0 by {
        if y == rows.len() {
            assert(rows[x].0 == after[x].0);
            if rows[x].0 == key {
                assert(table_view(rows).dom().contains(key));
            }
        } else {
            assert(rows[x].0 != rows[y].0);
        }
    }
    assert forall|k: K| #[trigger] table_view(after).contains_key(k) == table_view(
        rows,
    ).insert(key, value).contains_key(k) by {
        if table_view(rows).contains_key(k) {
            let j = choose|j: int| 0 <= j < rows.len() && #[trigger] rows[j].0 == k;
            assert(after[j].0 == k);
        }
        if k == key {
            assert(after[rows.len() as int].0 == k);
        }
        if table_view(after).contains_key(k) {
            let j = choose|j: int| 0 <= j < after.len() && #[trigger] after[j].0 == k;
            if j < rows.len() {
                assert(rows[j].0 == k);
            }
        }
    }
    assert forall|k: K| #[trigger] table_view(after).contains_key(k) implies table_view(
        after,
    )[k] == table_view(rows).insert(key, value)[k] by {
        let j = choose|j: int| 0 <= j < after.len() && #[trigger] after[j].0 == k;
        lemma_table_entry(after, j);
        if j < rows.len() {
            lemma_table_entry(rows, j);
        }
    }
    assert(table_view(after) =~= table_view(rows).insert(key, value));
}

/// Removing the row at `i` removes its key from the map.
pub proof fn lemma_table_remove<K, V>(rows: Seq<(K, V)>, i: int)
    requires
        table_wf(rows),
        0 <= i < rows.len(),
    ensures
        table_wf(rows.remove(i)),
        table_view(rows.remove(i)) == table_view(rows).remove(rows[i].0),
{
    let key = rows[i].0;
    let after = rows.remove(i);
    assert forall|x: int, y: int| 0 <= x < y < after.len() implies #[trigger] after[x].0
        != #[trigger] after[y].0 by {
        let xo = if x < i { x } else { x + 1 };
        let yo = if y < i { y } else { y + 1 };
        assert(after[x] == rows[xo]);
        assert(after[y] == rows[yo]);
        assert(rows[xo].0 != rows[yo].0);
    }
    assert forall|k: K| #[trigger] table_view(after).contains_key(k) == table_view(
        rows,
    ).remove(key).contains_key(k) by {
        if table_view(rows).contains_key(k) && k != key {
            let j = choose|j: int| 0 <= j < rows.len() && #[trigger] rows[j].0 == k;
            let ja = if j < i { j } else { j - 1 };
            assert(after[ja] == rows[j]);
        }
        if table_view(after).contains_key(k) {
            let j = choose|j: int| 0 <= j < after.len() && #[trigger] after[j].0 == k;
            let jo = if j < i { j } else { j + 1 };
            assert(rows[jo] == after[j]);
            assert(rows[jo].0 != rows[i].0) by {
                if jo < i {
                } else {
                }
            }
        }
    }
    assert forall|k: K| #[trigger] table_view(after).contains_key(k) implies table_view(
        after,
    )[k] == table_view(rows).remove(key)[k] by {
        let j = choose|j: int| 0 <= j < after.len() && #[trigger] after[j].0 == k;
        let jo = if j < i { j } else { j + 1 };
        assert(rows[jo] == after[j]);
        lemma_table_entry(after, j);
        lemma_table_entry(rows, jo);
    }
    assert(table_view(after) =~= table_view(rows).remove(key));
}

/// A well-formed table has as many keys as rows.
pub proof fn lemma_table_len<K, V>(rows: Seq<(K, V)>)
    requires
        table_wf(rows),
    ensures
        table_view(rows).dom().finite(),
        table_view(rows).len() == rows.len(),
    decreases rows.len(),
{
    if rows.len() == 0 {
        assert(table_view(rows) =~= Map::<K, V>::empty());
    } else {
        let init = rows.drop_last();
        let row = rows.last();
        assert(table_wf(init)) by {
            assert forall|x: int, y: int| 0 <= x < y < init.len() implies #[trigger] init[x].0
                != #[trigger] init[y].0 by {
                assert(rows[x].0 != rows[y].0);
            }
        }
        lemma_table_len(init);
        assert(!table_view(init).contains_key(row.0)) by {
            if table_view(init).contains_key(row.0) {
                let k = choose|k: int| 0 <= k < init.len() && #[trigger] init[k].0 == row.0;
                assert(rows[k].0 != rows[rows.len() - 1].0);
            }
        }
        assert(init.push(row) =~= rows);
        lemma_table_push(init, row.0, row.1);
        assert(table_view(rows).dom() =~= table_view(init).dom().insert(row.0));
    }
}

/// The entries of a map that pass a test.
pub open spec fn map_keep<K, V>(m: Map<K, V>, keep: spec_fn((K, V)) -> bool) -> Map<K, V> {
    Map::new(|k: K| m.contains_key(k) && keep((k, m[k])), |k: K| m[k])
}

/// Keeping the rows that pass a test keeps exactly the map's entries that
/// pass it.
pub proof fn lemma_table_filter<K, V>(rows: Seq<(K, V)>, keep: spec_fn((K, V)) -> bool)
    requires
        table_wf(rows),
    ensures
        table_wf(rows.filter(keep)),
        table_view(rows.filter(keep)) == map_keep(table_view(rows), keep),
    decreases rows.len(),
{
    reveal(Seq::filter);
    if rows.len() == 0 {
        assert(table_view(rows.filter(keep)) =~= map_keep(table_view(rows), keep));
    } else {
        let init = rows.drop_last();
        let last = rows.last();
        assert(table_wf(init)) by {
            assert forall|x: int, y: int| 0 <= x < y < init.len() implies #[trigger] init[x].0
                != #[trigger] init[y].0 by {
                assert(rows[x].0 != rows[y].0);
            }
        }
        lemma_table_filter(init, keep);
        assert(!table_view(init).contains_key(last.0)) by {
            if table_view(init).contains_key(last.0) {
                let j = choose|j: int| 0 <= j < init.len() && #[trigger] init[j].0 == last.0;
                assert(rows[j].0 != rows[rows.len() - 1].0);
            }
        }
        assert(init.push(last) =~= rows);
        lemma_table_push(init, last.0, last.1);
        let fi = init.filter(keep);
        if keep(last) {
            assert(!table_view(fi).contains_key(last.0));
            lemma_table_push(fi, last.0, last.1);
            assert(rows.filter(keep) == fi.push(last));
            assert(table_view(rows.filter(keep)) =~= map_keep(table_view(rows), keep));
        } else {
            assert(rows.filter(keep) == fi);
            assert(table_view(rows.filter(keep)) =~= map_keep(table_view(rows), keep));
        }
    }
}

/// Every element that survives a filter was in the sequence.
pub proof fn lemma_filter_subset<A>(s: Seq<A>, pred: spec_fn(A) -> bool)
    ensures
        forall|e: A| #[trigger] s.filter(pred).contains(e) ==> s.contains(e) && pred(e),
    decreases s.len(),
{
    reveal(Seq::filter);
    if s.len() > 0 {
        let init = s.drop_last();
        lemma_filter_subset(init, pred);
        assert forall|e: A| #[trigger] s.filter(pred).contains(e) implies s.contains(e) && pred(e) by {
            let f = s.filter(pred);
            let j = choose|j: int| 0 <= j < f.len() && f[j] == e;
            if j < init.filter(pred).len() {
                assert(init.filter(pred)[j] == e);
                assert(init.filter(pred).contains(e));
                let k = choose|k: int| 0 <= k < init.len() && init[k] == e;
                assert(s[k] == e);
            } else {
                assert(e == s.last());
                assert(s[s.len() - 1] == e);
            }
        }
    }
}

/// Filtering twice is filtering once by both tests.
pub proof fn lemma_filter_filter<A>(s: Seq<A>, p: spec_fn(A) -> bool, q: spec_fn(A) -> bool)
    ensures
        s.filter(p).filter(q) == s.filter(|x: A| p(x) && q(x)),
    decreases s.len(),
{
    reveal(Seq::filter);
    if s.len() > 0 {
        let init = s.drop_last();
        lemma_filter_filter(init, p, q);
        let x = s.last();
        if p(x) {
            assert(init.filter(p).push(x).drop_last() =~= init.filter(p));
        }
        assert(s.filter(p).filter(q) =~= s.filter(|y: A| p(y) && q(y)));
    }
}

/// A filter that no element passes leaves nothing.
pub proof fn lemma_filter_none<A>(s: Seq<A>, p: spec_fn(A) -> bool)
    requires
        forall|i: int| 0 <= i < s.len() ==> !p(#[trigger] s[i]),
    ensures
        s.filter(p).len() == 0,
{
    lemma_filter_subset(s, p);
    if s.filter(p).len() > 0 {
        let e = s.filter(p)[0];
        assert(s.filter(p).contains(e));
        let k = choose|k: int| 0 <= k < s.len() && s[k] == e;
        assert(!p(s[k]));
    }
}

/// A filter that every element passes keeps the sequence.
pub proof fn lemma_filter_all<A>(s: Seq<A>, p: spec_fn(A) -> bool)
    requires
        forall|i: int| 0 <= i < s.len() ==> p(#[trigger] s[i]),
    ensures
        s.filter(p) == s,
    decreases s.len(),
{
    reveal(Seq::filter);
    if s.len() > 0 {
        let init = s.drop_last();
        assert forall|i: int| 0 <= i < init.len() implies p(#[trigger] init[i]) by {
            assert(init[i] == s[i]);
        }
        lemma_filter_all(init, p);
        assert(p(s[s.len() - 1]));
        assert(init.push(s.last()) =~= s);
    }
}

} // verus!
