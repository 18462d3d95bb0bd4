//! What every table shares: duplicating rows, `WHERE` conditions, and the
//! `LIMIT`/`OFFSET` window of a paginated read.

use vstd::prelude::*;

verus! {

broadcast use vstd::seq_lib::group_seq_properties;

/// A row type whose values can be copied field for field.
pub trait Record: Sized {
    fn duplicate(&self) -> (r: Self)
        ensures
            r == *self,
    ;
}

/// A condition on rows, the part of a statement that picks the rows it reads
/// or changes.
pub trait Condition<T> {
    spec fn holds(&self, row: T) -> bool;

    fn check(&self, row: &T) -> (b: bool)
        ensures
            b == self.holds(*row),
    ;
}

/// Every row with this id: what an `UPDATE ... WHERE id = ?` rewrites.
pub struct IdIs {
    pub id: i64,
}

/// The row with this id, unless it was deleted softly.
pub struct LiveId {
    pub id: i64,
}

/// The rows that satisfy `cond`, in their stored order.
pub open spec fn matching<T, C: Condition<T>>(rows: Seq<T>, cond: C) -> Seq<T> {
    rows.filter(|r: T| cond.holds(r))
}

/// The first row that satisfies `cond`, if any does.
pub open spec fn first_matching<T, C: Condition<T>>(rows: Seq<T>, cond: C) -> Option<T> {
    let m = matching(rows, cond);
    if m.len() > 0 {
        Some(m[0])
    } else {
        None
    }
}

/// The window `LIMIT limit OFFSET offset` keeps, as SQLite reads the two
/// numbers: a negative offset counts as zero, a negative limit sets no bound.
pub open spec fn page<T>(rows: Seq<T>, offset: i64, limit: i64) -> Seq<T> {
    let start: int = if offset <= 0 {
        0
    } else if offset >= rows.len() {
        rows.len() as int
    } else {
        offset as int
    };
    let rest = rows.skip(start);
    if limit < 0 || limit >= rest.len() {
        rest
    } else {
        rest.take(limit as int)
    }
}

/// The rows a paginated read returns: those satisfying `cond`, then the
/// `LIMIT`/`OFFSET` window of them.
pub open spec fn selection<T, C: Condition<T>>(rows: Seq<T>, cond: C, offset: i64, limit: i64) -> Seq<T> {
    page(matching(rows, cond), offset, limit)
}

/// `results` holds exactly the rows `rows`, each as an `Ok`.
pub open spec fn all_ok<T, E>(results: Seq<Result<T, E>>, rows: Seq<T>) -> bool {
    &&& results.len() == rows.len()
    &&& forall|i: int| 0 <= i < rows.len() ==> results[i] == Ok::<T, E>(rows[i])
}

/// The rows that do not satisfy `cond`: what a `DELETE` with that condition
/// leaves behind.
pub open spec fn without<T, C: Condition<T>>(rows: Seq<T>, cond: C) -> Seq<T> {
    rows.filter(|r: T| !cond.holds(r))
}

/// When no row satisfies `cond`, none is matched.
pub proof fn lemma_none_matching<T, C: Condition<T>>(rows: Seq<T>, cond: C)
    requires
        forall|i: int| 0 <= i < rows.len() ==> !cond.holds(#[trigger] rows[i]),
    ensures
        matching(rows, cond) == Seq::<T>::empty(),
    decreases rows.len(),
{
    reveal(Seq::filter);
    if rows.len() > 0 {
        lemma_none_matching(rows.drop_last(), cond);
    }
    assert(matching(rows, cond) =~= Seq::<T>::empty());
}

/// The first row matched after appending `row` to rows of which none matches
/// is `row` itself, when it matches.
pub proof fn lemma_first_matching_push<T, C: Condition<T>>(rows: Seq<T>, cond: C, row: T)
    requires
        forall|i: int| 0 <= i < rows.len() ==> !cond.holds(#[trigger] rows[i]),
        cond.holds(row),
    ensures
        first_matching(rows.push(row), cond) == Some(row),
{
    lemma_none_matching(rows, cond);
    reveal(Seq::filter);
    assert(rows.push(row).drop_last() =~= rows);
}

/// Deleting the rows that satisfy `cond` leaves none that does, and keeps
/// every row that does not.
pub proof fn lemma_without<T, C: Condition<T>>(rows: Seq<T>, cond: C)
    ensures
        forall|i: int| 0 <= i < without(rows, cond).len() ==> !cond.holds(#[trigger] without(rows, cond)[i]),
        forall|i: int| 0 <= i < rows.len() && !cond.holds(rows[i]) ==> without(rows, cond).contains(#[trigger] rows[i]),
        without(rows, cond).len() + matching(rows, cond).len() == rows.len(),
    decreases rows.len(),
{
    let p = |r: T| !cond.holds(r);
    broadcast use vstd::seq_lib::group_filter_ensures;
    assert forall|i: int| 0 <= i < without(rows, cond).len() implies !cond.holds(#[trigger] without(rows, cond)[i]) by {
        assert(p(rows.filter(p)[i]));
    }
    assert forall|i: int| 0 <= i < rows.len() && !cond.holds(rows[i]) implies without(rows, cond).contains(#[trigger] rows[i]) by {
        assert(p(rows[i]));
    }
    reveal(Seq::filter);
    if rows.len() > 0 {
        lemma_without(rows.drop_last(), cond);
    }
}

/// The table after an `UPDATE` whose `WHERE` is `cond`: every row that
/// satisfies it becomes `row`.
pub open spec fn rewritten<T, C: Condition<T>>(rows: Seq<T>, cond: C, row: T) -> Seq<T> {
    rows.map_values(|r: T| if cond.holds(r) { row } else { r })
}

/// A row is matched first, and it satisfies `cond` and is one of `rows`,
/// whenever some row satisfies `cond`.
pub proof fn lemma_first_matching_some<T, C: Condition<T>>(rows: Seq<T>, cond: C, k: int)
    requires
        0 <= k < rows.len(),
        cond.holds(rows[k]),
    ensures
        first_matching(rows, cond) is Some,
        cond.holds(first_matching(rows, cond)->0),
        rows.contains(first_matching(rows, cond)->0),
{
    let p = |r: T| cond.holds(r);
    broadcast use vstd::seq_lib::group_filter_ensures;
    assert(p(rows[k]));
    assert(rows.filter(p).contains(rows[k]));
    let m = rows.filter(p);
    assert(p(m[0]));
    assert(m.contains(m[0]));
    rows.lemma_filter_contains_rev(p, m[0]);
}

/// The row matched first satisfies `cond` and is one of `rows`.
pub proof fn lemma_first_matching_holds<T, C: Condition<T>>(rows: Seq<T>, cond: C)
    requires
        first_matching(rows, cond) is Some,
    ensures
        cond.holds(first_matching(rows, cond)->0),
        rows.contains(first_matching(rows, cond)->0),
{
    let p = |r: T| cond.holds(r);
    broadcast use vstd::seq_lib::group_filter_ensures;
    let m = rows.filter(p);
    assert(p(m[0]));
    assert(m.contains(m[0]));
    rows.lemma_filter_contains_rev(p, m[0]);
}

/// When no row is matched first, no row satisfies `cond`.
pub proof fn lemma_first_matching_none<T, C: Condition<T>>(rows: Seq<T>, cond: C)
    requires
        first_matching(rows, cond) is None,
    ensures
        forall|i: int| 0 <= i < rows.len() ==> !cond.holds(#[trigger] rows[i]),
{
    let p = |r: T| cond.holds(r);
    broadcast use vstd::seq_lib::group_filter_ensures;
    assert forall|i: int| 0 <= i < rows.len() implies !cond.holds(#[trigger] rows[i]) by {
        if cond.holds(rows[i]) {
            assert(p(rows[i]));
            assert(rows.filter(p).contains(rows[i]));
        }
    }
}

/// After rows that satisfy `cond` are rewritten to `row`, which satisfies it
/// too, `row` is the first row matched.
pub proof fn lemma_rewritten_first<T, C: Condition<T>>(rows: Seq<T>, cond: C, row: T)
    requires
        first_matching(rows, cond) is Some,
        cond.holds(row),
    ensures
        first_matching(rewritten(rows, cond, row), cond) == Some(row),
{
    let p = |r: T| cond.holds(r);
    let after = rewritten(rows, cond, row);
    broadcast use vstd::seq_lib::group_filter_ensures;
    let m = matching(rows, cond);
    assert(m.contains(m[0]));
    rows.lemma_filter_contains_rev(p, m[0]);
    let k = choose|k: int| 0 <= k < rows.len() && rows[k] == m[0];
    assert(p(m[0]));
    assert(after[k] == row);
    assert(p(after[k]));
    assert(after.filter(p).contains(after[k]));
    let ma = matching(after, cond);
    assert(p(ma[0]));
    assert(ma.contains(ma[0]));
    after.lemma_filter_contains_rev(p, ma[0]);
    let j = choose|j: int| 0 <= j < after.len() && after[j] == ma[0];
    assert(ma[0] == row);
}

/// After `row` is appended to rows of which none satisfies `cond`, `row` is
/// the first row matched, when it satisfies `cond`.
pub proof fn lemma_appended_first<T, C: Condition<T>>(rows: Seq<T>, cond: C, row: T)
    requires
        first_matching(rows, cond) is None,
        cond.holds(row),
    ensures
        first_matching(rows.push(row), cond) == Some(row),
{
    lemma_first_matching_none(rows, cond);
    lemma_first_matching_push(rows, cond, row);
}

/// When `rows[k]` is the one row that satisfies `cond` (as a key is held by
/// one row), it is the only row matched, and the first.
pub proof fn lemma_only_match<T, C: Condition<T>>(rows: Seq<T>, cond: C, k: int)
    requires
        0 <= k < rows.len(),
        cond.holds(rows[k]),
        forall|j: int| 0 <= j < rows.len() && j != k ==> !cond.holds(#[trigger] rows[j]),
    ensures
        matching(rows, cond) == seq![rows[k]],
        first_matching(rows, cond) == Some(rows[k]),
    decreases rows.len(),
{
    reveal(Seq::filter);
    let last = rows.len() - 1;
    if k == last {
        assert forall|j: int| 0 <= j < rows.drop_last().len() implies !cond.holds(#[trigger] rows.drop_last()[j]) by {
            assert(rows.drop_last()[j] == rows[j]);
        }
        lemma_none_matching(rows.drop_last(), cond);
        assert(matching(rows, cond) =~= seq![rows[k]]);
    } else {
        assert forall|j: int| 0 <= j < rows.drop_last().len() && j != k implies !cond.holds(#[trigger] rows.drop_last()[j]) by {
            assert(rows.drop_last()[j] == rows[j]);
        }
        assert(rows.drop_last()[k] == rows[k]);
        lemma_only_match(rows.drop_last(), cond, k);
        assert(!cond.holds(rows[last]));
    }
}

/// Every matched row is one of `rows`.
proof fn lemma_matching_within<T, C: Condition<T>>(rows: Seq<T>, cond: C)
    ensures
        forall|i: int| 0 <= i < matching(rows, cond).len() ==> rows.contains(#[trigger] matching(rows, cond)[i]),
    decreases rows.len(),
{
    reveal(Seq::filter);
    if rows.len() > 0 {
        let init = rows.drop_last();
        lemma_matching_within(init, cond);
        let m = matching(init, cond);
        let all = matching(rows, cond);
        assert forall|i: int| 0 <= i < all.len() implies rows.contains(#[trigger] all[i]) by {
            if i < m.len() {
                assert(all[i] == m[i]);
                assert(init.contains(m[i]));
                let j = choose|j: int| 0 <= j < init.len() && init[j] == m[i];
                assert(rows[j] == init[j]);
            } else {
                assert(all[i] == rows[rows.len() - 1]);
            }
        }
    }
}

/// Rows of which no two are equal stay so when a condition picks some.
pub proof fn lemma_matching_no_duplicates<T, C: Condition<T>>(rows: Seq<T>, cond: C)
    requires
        rows.no_duplicates(),
    ensures
        matching(rows, cond).no_duplicates(),
    decreases rows.len(),
{
    reveal(Seq::filter);
    if rows.len() > 0 {
        let init = rows.drop_last();
        let x = rows.last();
        assert(init.no_duplicates()) by {
            assert forall|i: int, j: int| 0 <= i < init.len() && 0 <= j < init.len() && i != j implies init[i] != init[j] by {
                assert(init[i] == rows[i] && init[j] == rows[j]);
            }
        }
        lemma_matching_no_duplicates(init, cond);
        let m = matching(init, cond);
        lemma_matching_within(init, cond);
        if cond.holds(x) {
            assert forall|i: int| 0 <= i < m.len() implies m[i] != x by {
                assert(init.contains(m[i]));
                let j = choose|j: int| 0 <= j < init.len() && init[j] == m[i];
                assert(rows[j] == init[j]);
            }
            assert(matching(rows, cond) == m.push(x));
            assert forall|i: int, j: int| 0 <= i < m.push(x).len() && 0 <= j < m.push(x).len() && i != j
                implies m.push(x)[i] != m.push(x)[j] by {
                if i < m.len() && j < m.len() {
                } else if i < m.len() {
                    assert(m.push(x)[i] == m[i]);
                } else {
                    assert(m.push(x)[j] == m[j]);
                }
            }
        } else {
            assert(matching(rows, cond) == m);
        }
    }
}

/// The exact window of a paginated read: with a non-negative offset and
/// limit it holds `min(limit, max(0, matched - offset))` rows; each is a
/// matched row; and it holds no row twice when the table holds none twice.
pub proof fn lemma_selection_window<T, C: Condition<T>>(rows: Seq<T>, cond: C, offset: i64, limit: i64)
    ensures
        ({
            let m = matching(rows, cond).len() as int;
            0 <= offset && 0 <= limit ==> selection(rows, cond, offset, limit).len() == (if m - offset <= 0 {
                0
            } else if limit < m - offset {
                limit as int
            } else {
                m - offset
            })
        }),
        forall|i: int| 0 <= i < selection(rows, cond, offset, limit).len() ==> matching(rows, cond).contains(
            #[trigger] selection(rows, cond, offset, limit)[i],
        ),
        rows.no_duplicates() ==> selection(rows, cond, offset, limit).no_duplicates(),
{
    let m = matching(rows, cond);
    let sel = selection(rows, cond, offset, limit);
    let start: int = if offset <= 0 {
        0
    } else if offset >= m.len() {
        m.len() as int
    } else {
        offset as int
    };
    assert forall|i: int| 0 <= i < sel.len() implies sel[i] == m[start + i] by {}
    assert forall|i: int| 0 <= i < sel.len() implies m.contains(#[trigger] sel[i]) by {
        assert(sel[i] == m[start + i]);
    }
    if rows.no_duplicates() {
        lemma_matching_no_duplicates(rows, cond);
        assert forall|i: int, j: int| 0 <= i < sel.len() && 0 <= j < sel.len() && i != j implies sel[i] != sel[j] by {
            assert(sel[i] == m[start + i] && sel[j] == m[start + j]);
        }
    }
}

/// When `d` holds of exactly the rows of which `c` and `extra` hold, the rows
/// `d` matches are those `c` matches that `extra` keeps, in their order.
pub proof fn lemma_matching_refined<T, C: Condition<T>, D: Condition<T>>(rows: Seq<T>, c: C, d: D, extra: spec_fn(T) -> bool)
    requires
        forall|r: T| #[trigger] d.holds(r) == (c.holds(r) && extra(r)),
    ensures
        matching(rows, d) == matching(rows, c).filter(extra),
    decreases rows.len(),
{
    reveal(Seq::filter);
    if rows.len() == 0 {
        assert(matching(rows, d) =~= matching(rows, c).filter(extra));
    } else {
        let init = rows.drop_last();
        let x = rows.last();
        lemma_matching_refined(init, c, d, extra);
        let mc = matching(init, c);
        if c.holds(x) {
            assert(matching(rows, c) == mc.push(x));
            assert(mc.push(x).drop_last() =~= mc);
            assert(mc.push(x).last() == x);
        } else {
            assert(matching(rows, c) == mc);
        }
    }
}

/// A read with no offset and no limit returns every matched row.
pub proof fn lemma_selection_unbounded<T, C: Condition<T>>(rows: Seq<T>, cond: C, limit: i64)
    requires
        limit < 0,
    ensures
        selection(rows, cond, 0, limit) == matching(rows, cond),
{
    assert(matching(rows, cond).skip(0) =~= matching(rows, cond));
}

/// The rows `cond` matches are exactly the rows of `rows` that satisfy it.
pub proof fn lemma_matching_members<T, C: Condition<T>>(rows: Seq<T>, cond: C)
    ensures
        forall|x: T| #[trigger] matching(rows, cond).contains(x) <==> rows.contains(x) && cond.holds(x),
{
    let p = |r: T| cond.holds(r);
    broadcast use vstd::seq_lib::group_filter_ensures;
    assert forall|x: T| #[trigger] matching(rows, cond).contains(x) <==> rows.contains(x) && cond.holds(x) by {
        if matching(rows, cond).contains(x) {
            rows.lemma_filter_contains_rev(p, x);
            let i = choose|i: int| 0 <= i < rows.filter(p).len() && rows.filter(p)[i] == x;
            assert(p(rows.filter(p)[i]));
        }
        if rows.contains(x) && cond.holds(x) {
            let i = choose|i: int| 0 <= i < rows.len() && rows[i] == x;
            assert(p(rows[i]));
        }
    }
}

/// A paginated read gives rows of `rows` that satisfy `cond`; with no offset
/// and no limit it gives every such row.
pub proof fn lemma_selection_members<T, C: Condition<T>>(rows: Seq<T>, cond: C, offset: i64, limit: i64)
    ensures
        forall|x: T| #[trigger] selection(rows, cond, offset, limit).contains(x) ==> rows.contains(x) && cond.holds(x),
        offset <= 0 && limit < 0 ==> forall|x: T|
            #[trigger] selection(rows, cond, offset, limit).contains(x) <==> rows.contains(x) && cond.holds(x),
{
    lemma_matching_members(rows, cond);
    lemma_selection_window(rows, cond, offset, limit);
    let sel = selection(rows, cond, offset, limit);
    assert forall|x: T| #[trigger] sel.contains(x) implies rows.contains(x) && cond.holds(x) by {
        let i = choose|i: int| 0 <= i < sel.len() && sel[i] == x;
        assert(matching(rows, cond).contains(sel[i]));
    }
    if offset <= 0 && limit < 0 {
        assert(page(matching(rows, cond), offset, limit) =~= matching(rows, cond));
    }
}

/// A first-match lookup gives a row of `rows` that satisfies `cond`; when it
/// gives none, no row of `rows` satisfies `cond`.
pub proof fn lemma_first_matching_members<T, C: Condition<T>>(rows: Seq<T>, cond: C)
    ensures
        first_matching(rows, cond) matches Some(x) ==> rows.contains(x) && cond.holds(x),
        first_matching(rows, cond) is None ==> forall|x: T| #[trigger] rows.contains(x) ==> !cond.holds(x),
{
    lemma_matching_members(rows, cond);
    let m = matching(rows, cond);
    if m.len() > 0 {
        assert(m.contains(m[0]));
    } else {
        assert forall|x: T| #[trigger] rows.contains(x) implies !cond.holds(x) by {
            if cond.holds(x) {
                assert(m.contains(x));
            }
        }
    }
}

/// Two conditions that hold of the same rows match the same rows.
pub proof fn lemma_same_condition<T, C: Condition<T>, D: Condition<T>>(rows: Seq<T>, c: C, d: D)
    requires
        forall|r: T| c.holds(r) == d.holds(r),
    ensures
        matching(rows, c) == matching(rows, d),
        first_matching(rows, c) == first_matching(rows, d),
{
    assert((|r: T| c.holds(r)) =~= (|r: T| d.holds(r)));
}

/// Two conditions that agree on every row of `rows` match the same rows.
pub proof fn lemma_same_on_rows<T, C: Condition<T>, D: Condition<T>>(rows: Seq<T>, c: C, d: D)
    requires
        forall|k: int| 0 <= k < rows.len() ==> c.holds(#[trigger] rows[k]) == d.holds(rows[k]),
    ensures
        matching(rows, c) == matching(rows, d),
        first_matching(rows, c) == first_matching(rows, d),
    decreases rows.len(),
{
    reveal(Seq::filter);
    if rows.len() > 0 {
        lemma_same_on_rows(rows.drop_last(), c, d);
    }
}

/// Every row a paginated read returns satisfies its condition, and there are
/// no more of them than a non-negative limit.
pub proof fn lemma_selection<T, C: Condition<T>>(rows: Seq<T>, cond: C, offset: i64, limit: i64)
    ensures
        forall|i: int| 0 <= i < selection(rows, cond, offset, limit).len() ==> cond.holds(#[trigger] selection(rows, cond, offset, limit)[i]),
        0 <= limit ==> selection(rows, cond, offset, limit).len() <= limit,
{
    let m = matching(rows, cond);
    let p = |r: T| cond.holds(r);
    broadcast use vstd::seq_lib::group_filter_ensures;
    let sel = selection(rows, cond, offset, limit);
    assert forall|i: int| 0 <= i < sel.len() implies cond.holds(#[trigger] sel[i]) by {
        let start: int = if offset <= 0 {
            0
        } else if offset >= m.len() {
            m.len() as int
        } else {
            offset as int
        };
        assert(sel[i] == m[start + i]);
        assert(p(m[start + i]));
    }
}

proof fn lemma_matching_push<T, C: Condition<T>>(rows: Seq<T>, cond: C, i: int)
    requires
        0 <= i < rows.len(),
    ensures
        matching(rows.take(i + 1), cond) == if cond.holds(rows[i]) {
            matching(rows.take(i), cond).push(rows[i])
        } else {
            matching(rows.take(i), cond)
        },
{
    reveal(Seq::filter);
    assert(rows.take(i + 1).drop_last() =~= rows.take(i));
}

/// The rows of `rows` that satisfy `cond`, in order.
pub fn filter_rows<T: Record, C: Condition<T>>(rows: &Vec<T>, cond: &C) -> (out: Vec<T>)
    ensures
        out@ == matching(rows@, *cond),
{
    let mut out: Vec<T> = Vec::new();
    let mut i: usize = 0;
    while i < rows.len()
        invariant
            i <= rows.len(),
            out@ == matching(rows@.take(i as int), *cond),
        decreases rows.len() - i,
    {
        proof {
            lemma_matching_push(rows@, *cond, i as int);
        }
        if cond.check(&rows[i]) {
            out.push(rows[i].duplicate());
        }
        i = i + 1;
    }
    assert(rows@.take(rows.len() as int) =~= rows@);
    out
}

/// The `LIMIT`/`OFFSET` window of `rows`.
pub fn page_rows<T: Record>(rows: &Vec<T>, offset: i64, limit: i64) -> (out: Vec<T>)
    ensures
        out@ == page(rows@, offset, limit),
{
    let len = rows.len();
    let start: usize = if offset <= 0 {
        0
    } else if offset as u64 >= len as u64 {
        len
    } else {
        offset as usize
    };
    let end: usize = if limit < 0 || limit as u64 >= (len - start) as u64 {
        len
    } else {
        start + limit as usize
    };
    let mut out: Vec<T> = Vec::new();
    let mut i: usize = start;
    while i < end
        invariant
            start <= i <= end <= len == rows.len(),
            out@ == rows@.subrange(start as int, i as int),
        decreases end - i,
    {
        out.push(rows[i].duplicate());
        i = i + 1;
        assert(out@ =~= rows@.subrange(start as int, i as int));
    }
    assert(out@ =~= page(rows@, offset, limit));
    out
}

/// The rows a paginated read returns.
pub fn select_rows<T: Record, C: Condition<T>>(rows: &Vec<T>, cond: &C, offset: i64, limit: i64) -> (out: Vec<T>)
    ensures
        out@ == selection(rows@, *cond, offset, limit),
{
    let matched = filter_rows(rows, cond);
    page_rows(&matched, offset, limit)
}

/// The first row of `rows` that satisfies `cond`.
pub fn find_first<T: Record, C: Condition<T>>(rows: &Vec<T>, cond: &C) -> (found: Option<T>)
    ensures
        found == first_matching(rows@, *cond),
{
    let mut i: usize = 0;
    while i < rows.len()
        invariant
            i <= rows.len(),
            matching(rows@.take(i as int), *cond) =~= Seq::<T>::empty(),
        decreases rows.len() - i,
    {
        proof {
            lemma_matching_push(rows@, *cond, i as int);
        }
        if cond.check(&rows[i]) {
            proof {
                let p = |r: T| cond.holds(r);
                assert(rows@ =~= rows@.take(i + 1) + rows@.skip(i + 1));
                Seq::filter_distributes_over_add(rows@.take(i + 1), rows@.skip(i + 1), p);
            }
            return Some(rows[i].duplicate());
        }
        i = i + 1;
    }
    assert(rows@.take(rows.len() as int) =~= rows@);
    None
}

/// Each row as an `Ok`, in order.
pub fn all_ok_rows<T: Record, E>(rows: &Vec<T>) -> (out: Vec<Result<T, E>>)
    ensures
        all_ok(out@, rows@),
{
    let mut out: Vec<Result<T, E>> = Vec::new();
    let mut i: usize = 0;
    while i < rows.len()
        invariant
            i <= rows.len(),
            out.len() == i,
            forall|j: int| 0 <= j < i ==> out@[j] == Ok::<T, E>(rows@[j]),
        decreases rows.len() - i,
    {
        out.push(Ok(rows[i].duplicate()));
        i = i + 1;
    }
    out
}

} // verus!
