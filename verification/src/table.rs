//! Tables of rows, and what is read from them and done to them.

use vstd::prelude::*;

verus! {

broadcast use vstd::seq_lib::group_to_multiset_ensures;

/// A row of a table.
pub trait Row: View + Sized {
    /// A copy of the row.
    fn duplicate(&self) -> (r: Self)
        ensures
            r@ == self@,
    ;
}

/// What the rows of a table hold.
pub open spec fn models<T: View>(rows: Seq<T>) -> Seq<T::V> {
    Seq::new(rows.len(), |i: int| rows[i]@)
}

/// What a row holds, where there is one.
pub open spec fn model<T: View>(row: Option<T>) -> Option<T::V> {
    match row {
        Some(x) => Some(x@),
        None => None,
    }
}

/// The position of the first row that meets a condition.
pub open spec fn first<M>(rows: Seq<M>, p: spec_fn(M) -> bool) -> Option<int>
    decreases rows.len(),
{
    if rows.len() == 0 {
        None
    } else if p(rows[0]) {
        Some(0)
    } else {
        match first(rows.drop_first(), p) {
            Some(i) => Some(i + 1),
            None => None,
        }
    }
}

/// The first row that meets a condition.
pub open spec fn find<M>(rows: Seq<M>, p: spec_fn(M) -> bool) -> Option<M> {
    match first(rows, p) {
        Some(i) => Some(rows[i]),
        None => None,
    }
}

/// Some row meets a condition.
pub open spec fn any<M>(rows: Seq<M>, p: spec_fn(M) -> bool) -> bool {
    first(rows, p) is Some
}

/// How many rows meet a condition.
pub open spec fn count<M>(rows: Seq<M>, p: spec_fn(M) -> bool) -> nat
    decreases rows.len(),
{
    if rows.len() == 0 {
        0
    } else {
        count(rows.drop_last(), p) + (if p(rows.last()) {
            1nat
        } else {
            0
        })
    }
}

/// The rows that meet a condition.
pub open spec fn matching<M>(rows: Seq<M>, p: spec_fn(M) -> bool) -> Seq<M>
    decreases rows.len(),
{
    if rows.len() == 0 {
        Seq::empty()
    } else if p(rows.last()) {
        matching(rows.drop_last(), p).push(rows.last())
    } else {
        matching(rows.drop_last(), p)
    }
}

/// The rows that do not meet a condition.
pub open spec fn others<M>(rows: Seq<M>, p: spec_fn(M) -> bool) -> Seq<M>
    decreases rows.len(),
{
    if rows.len() == 0 {
        Seq::empty()
    } else if p(rows.last()) {
        others(rows.drop_last(), p)
    } else {
        others(rows.drop_last(), p).push(rows.last())
    }
}

/// The rows, those that meet a condition changed.
pub open spec fn revised<M>(rows: Seq<M>, p: spec_fn(M) -> bool, f: spec_fn(M) -> M) -> Seq<M> {
    Seq::new(
        rows.len(),
        |i: int|
            if p(rows[i]) {
                f(rows[i])
            } else {
                rows[i]
            },
    )
}

/// In the order of a relation.
pub open spec fn ordered<M>(rows: Seq<M>, before: spec_fn(M, M) -> bool) -> bool {
    forall|i: int, j: int|
        0 <= i < j < rows.len() ==> before(#[trigger] rows[i], #[trigger] rows[j])
}

/// The first `limit` of some rows in the order of a relation.
pub open spec fn listing<M>(
    result: Seq<M>,
    rows: Seq<M>,
    before: spec_fn(M, M) -> bool,
    limit: int,
) -> bool {
    exists|all: Seq<M>|
        {
            &&& #[trigger] ordered(all, before)
            &&& all.to_multiset() == rows.to_multiset()
            &&& all.len() == rows.len()
            &&& result == all.take(
                if limit < all.len() {
                    limit
                } else {
                    all.len() as int
                },
            )
        }
}

/// A relation orders rows: any two are in some order, and the order carries over.
pub open spec fn orders<M>(before: spec_fn(M, M) -> bool) -> bool {
    &&& forall|a: M, b: M| #[trigger] before(a, b) || before(b, a)
    &&& forall|a: M, b: M, c: M|
        #[trigger] before(a, b) && #[trigger] before(b, c) ==> before(a, c)
}

/// The position of the row that comes before the others among those that meet a
/// condition; the one that was entered first where several do.
pub open spec fn least<M>(
    rows: Seq<M>,
    p: spec_fn(M) -> bool,
    before: spec_fn(M, M) -> bool,
) -> Option<int>
    decreases rows.len(),
{
    if rows.len() == 0 {
        None
    } else {
        match least(rows.drop_last(), p, before) {
            None => if p(rows.last()) {
                Some(rows.len() - 1)
            } else {
                None
            },
            Some(i) => if p(rows.last()) && !before(rows[i], rows.last()) {
                Some(rows.len() - 1)
            } else {
                Some(i)
            },
        }
    }
}

/// The row that comes before the others among those that meet a condition.
pub open spec fn foremost<M>(
    rows: Seq<M>,
    p: spec_fn(M) -> bool,
    before: spec_fn(M, M) -> bool,
) -> Option<M> {
    match least(rows, p, before) {
        Some(i) => Some(rows[i]),
        None => None,
    }
}

/// Another row in the place of any.
pub open spec fn replaced_by<M>(row: M) -> spec_fn(M) -> M {
    |m: M| row
}

/// Every row.
pub open spec fn all<M>() -> spec_fn(M) -> bool {
    |m: M| true
}

/// All rows are among those that meet no condition.
pub proof fn all_match<M>(rows: Seq<M>)
    ensures
        matching(rows, all()) == rows,
    decreases rows.len(),
{
    if rows.len() > 0 {
        all_match(rows.drop_last());
        assert(rows =~= rows.drop_last().push(rows.last()));
    }
}

/// The first row is a row that meets the condition, and no earlier one does.
pub proof fn first_is_first<M>(rows: Seq<M>, p: spec_fn(M) -> bool)
    ensures
        match first(rows, p) {
            Some(i) => 0 <= i < rows.len() && p(rows[i]) && forall|j: int|
                0 <= j < i ==> !p(#[trigger] rows[j]),
            None => forall|j: int| 0 <= j < rows.len() ==> !p(#[trigger] rows[j]),
        },
    decreases rows.len(),
{
    if rows.len() > 0 && !p(rows[0]) {
        first_is_first(rows.drop_first(), p);
        let rest = rows.drop_first();
        match first(rest, p) {
            Some(i) => {
                assert forall|j: int| 0 <= j < i + 1 implies !p(#[trigger] rows[j]) by {
                    if j > 0 {
                        assert(rows[j] == rest[j - 1]);
                    }
                }
            },
            None => {
                assert forall|j: int| 0 <= j < rows.len() implies !p(#[trigger] rows[j]) by {
                    if j > 0 {
                        assert(rows[j] == rest[j - 1]);
                    }
                }
            },
        }
    }
}

/// Where a change of rows does not touch a condition, the first row that meets it stays
/// where it is.
pub proof fn first_survives<M>(
    rows: Seq<M>,
    p: spec_fn(M) -> bool,
    f: spec_fn(M) -> M,
    q: spec_fn(M) -> bool,
)
    requires
        forall|m: M| #[trigger] p(m) ==> q(f(m)) == q(m),
    ensures
        first(revised(rows, p, f), q) == first(rows, q),
    decreases rows.len(),
{
    let after = revised(rows, p, f);
    if rows.len() > 0 {
        assert(p(rows[0]) || !p(rows[0]));
        assert(after.drop_first() =~= revised(rows.drop_first(), p, f));
        first_survives(rows.drop_first(), p, f, q);
    }
}

/// A row that meets the condition is among those that do.
pub proof fn matching_has<M>(rows: Seq<M>, p: spec_fn(M) -> bool, m: M)
    ensures
        matching(rows, p).contains(m) <==> rows.contains(m) && p(m),
    decreases rows.len(),
{
    if rows.len() > 0 {
        let front = rows.drop_last();
        matching_has(front, p, m);
        if rows.contains(m) {
            let k = choose|k: int| 0 <= k < rows.len() && rows[k] == m;
            if k < rows.len() - 1 {
                assert(front[k] == m);
            }
        }
        if front.contains(m) {
            let k = choose|k: int| 0 <= k < front.len() && front[k] == m;
            assert(rows[k] == m);
        }
        assert(rows[rows.len() - 1] == rows.last());
        let r = matching(rows, p);
        if p(rows.last()) {
            let f = matching(front, p);
            assert(r[r.len() - 1] == rows.last());
            if f.contains(m) {
                let k = choose|k: int| 0 <= k < f.len() && f[k] == m;
                assert(r[k] == m);
            }
            if r.contains(m) {
                let k = choose|k: int| 0 <= k < r.len() && r[k] == m;
                if k < f.len() {
                    assert(f[k] == m);
                }
            }
        }
    }
}

/// A row that does not meet the condition is among those that do not.
pub proof fn others_has<M>(rows: Seq<M>, p: spec_fn(M) -> bool, m: M)
    ensures
        others(rows, p).contains(m) <==> rows.contains(m) && !p(m),
    decreases rows.len(),
{
    if rows.len() > 0 {
        let front = rows.drop_last();
        others_has(front, p, m);
        if rows.contains(m) {
            let k = choose|k: int| 0 <= k < rows.len() && rows[k] == m;
            if k < rows.len() - 1 {
                assert(front[k] == m);
            }
        }
        if front.contains(m) {
            let k = choose|k: int| 0 <= k < front.len() && front[k] == m;
            assert(rows[k] == m);
        }
        assert(rows[rows.len() - 1] == rows.last());
        let r = others(rows, p);
        if !p(rows.last()) {
            let f = others(front, p);
            assert(r[r.len() - 1] == rows.last());
            if f.contains(m) {
                let k = choose|k: int| 0 <= k < f.len() && f[k] == m;
                assert(r[k] == m);
            }
            if r.contains(m) {
                let k = choose|k: int| 0 <= k < r.len() && r[k] == m;
                if k < f.len() {
                    assert(f[k] == m);
                }
            }
        }
    }
}

/// The rows of two lists that meet a condition are those of the one and those of the other.
pub proof fn matching_of_both<M>(a: Seq<M>, b: Seq<M>, p: spec_fn(M) -> bool)
    ensures
        matching(a + b, p) == matching(a, p) + matching(b, p),
    decreases b.len(),
{
    if b.len() == 0 {
        assert(a + b =~= a);
        assert(matching(a, p) + matching(b, p) =~= matching(a, p));
    } else {
        assert((a + b).drop_last() =~= a + b.drop_last());
        assert((a + b).last() == b.last());
        matching_of_both(a, b.drop_last(), p);
        assert(matching(a + b, p) =~= matching(a, p) + matching(b, p));
    }
}

/// Where no row meets a condition, none is among those that do.
pub proof fn matching_of_none<M>(rows: Seq<M>, p: spec_fn(M) -> bool)
    requires
        forall|i: int| 0 <= i < rows.len() ==> !p(#[trigger] rows[i]),
    ensures
        matching(rows, p).len() == 0,
    decreases rows.len(),
{
    if rows.len() > 0 {
        let front = rows.drop_last();
        assert forall|i: int| 0 <= i < front.len() implies !p(#[trigger] front[i]) by {
            assert(front[i] == rows[i]);
        }
        assert(!p(rows[rows.len() - 1]));
        matching_of_none(front, p);
    }
}

/// No two rows share a key.
pub open spec fn distinct_by<M, K>(rows: Seq<M>, key: spec_fn(M) -> K) -> bool {
    forall|i: int, j: int|
        0 <= i < j < rows.len() ==> key(#[trigger] rows[i]) != key(#[trigger] rows[j])
}

/// Every row meets a condition.
pub open spec fn every<M>(rows: Seq<M>, q: spec_fn(M) -> bool) -> bool {
    forall|i: int| 0 <= i < rows.len() ==> q(#[trigger] rows[i])
}

/// A row with a new key keeps the keys distinct.
pub proof fn appending_keeps_distinct<M, K>(rows: Seq<M>, key: spec_fn(M) -> K, row: M)
    requires
        distinct_by(rows, key),
        forall|i: int| 0 <= i < rows.len() ==> key(#[trigger] rows[i]) != key(row),
    ensures
        distinct_by(rows.push(row), key),
{
}

/// A change that leaves the keys alone keeps them distinct.
pub proof fn revising_keeps_distinct<M, K>(
    rows: Seq<M>,
    key: spec_fn(M) -> K,
    p: spec_fn(M) -> bool,
    f: spec_fn(M) -> M,
)
    requires
        distinct_by(rows, key),
        forall|m: M| p(m) ==> key(#[trigger] f(m)) == key(m),
    ensures
        distinct_by(revised(rows, p, f), key),
{
    let after = revised(rows, p, f);
    assert forall|i: int, j: int| 0 <= i < j < after.len() implies key(#[trigger] after[i]) != key(
        #[trigger] after[j],
    ) by {
        assert(p(rows[i]) ==> key(f(rows[i])) == key(rows[i]));
        assert(p(rows[j]) ==> key(f(rows[j])) == key(rows[j]));
        assert(key(rows[i]) != key(rows[j]));
    }
}

/// Removing rows keeps the keys distinct.
pub proof fn removing_keeps_distinct<M, K>(
    rows: Seq<M>,
    key: spec_fn(M) -> K,
    p: spec_fn(M) -> bool,
)
    requires
        distinct_by(rows, key),
    ensures
        distinct_by(others(rows, p), key),
    decreases rows.len(),
{
    if rows.len() > 0 {
        let front = rows.drop_last();
        assert forall|i: int, j: int| 0 <= i < j < front.len() implies key(#[trigger] front[i])
            != key(#[trigger] front[j]) by {
            assert(front[i] == rows[i] && front[j] == rows[j]);
        }
        removing_keeps_distinct(front, key, p);
        if !p(rows.last()) {
            let left = others(front, p);
            assert forall|i: int| 0 <= i < left.len() implies key(#[trigger] left[i]) != key(
                rows.last(),
            ) by {
                assert(left.contains(left[i]));
                others_has(front, p, left[i]);
                let k = choose|k: int| 0 <= k < front.len() && front[k] == left[i];
                assert(rows[k] == front[k]);
                assert(rows[rows.len() - 1] == rows.last());
            }
            appending_keeps_distinct(left, key, rows.last());
        }
    }
}

/// Removing rows keeps what holds of every row.
pub proof fn removing_keeps_every<M>(rows: Seq<M>, q: spec_fn(M) -> bool, p: spec_fn(M) -> bool)
    requires
        every(rows, q),
    ensures
        every(others(rows, p), q),
{
    let left = others(rows, p);
    assert forall|i: int| 0 <= i < left.len() implies q(#[trigger] left[i]) by {
        assert(left.contains(left[i]));
        others_has(rows, p, left[i]);
        let k = choose|k: int| 0 <= k < rows.len() && rows[k] == left[i];
        assert(q(rows[k]));
    }
}

/// A change that keeps a condition keeps it of every row.
pub proof fn revising_keeps_every<M>(
    rows: Seq<M>,
    q: spec_fn(M) -> bool,
    p: spec_fn(M) -> bool,
    f: spec_fn(M) -> M,
)
    requires
        every(rows, q),
        forall|m: M| q(m) ==> q(#[trigger] f(m)),
    ensures
        every(revised(rows, p, f), q),
{
    let after = revised(rows, p, f);
    assert forall|i: int| 0 <= i < after.len() implies q(#[trigger] after[i]) by {
        assert(q(rows[i]));
        assert(q(rows[i]) ==> q(f(rows[i])));
    }
}

/// Where one row only has a key, it is the only one that a condition on the key can find.
pub proof fn only_row_is_found<M, K>(
    rows: Seq<M>,
    key: spec_fn(M) -> K,
    i: int,
    p: spec_fn(M) -> bool,
)
    requires
        0 <= i < rows.len(),
        forall|j: int|
            0 <= j < rows.len() && key(#[trigger] rows[j]) == key(rows[i]) ==> j == i,
        forall|m: M| #[trigger] p(m) ==> key(m) == key(rows[i]),
    ensures
        first(rows, p) == (if p(rows[i]) {
            Some(i)
        } else {
            None
        }),
{
    first_is_first(rows, p);
    if p(rows[i]) {
        assert(first(rows, p) is Some);
    }
}

/// No row meets a condition exactly where none is counted.
pub proof fn count_is_any<M>(rows: Seq<M>, p: spec_fn(M) -> bool)
    ensures
        count(rows, p) > 0 <==> any(rows, p),
    decreases rows.len(),
{
    first_is_first(rows, p);
    if rows.len() > 0 {
        let front = rows.drop_last();
        count_is_any(front, p);
        first_is_first(front, p);
        match first(front, p) {
            Some(i) => {
                assert(rows[i] == front[i]);
            },
            None => {
                match first(rows, p) {
                    Some(i) => {
                        if i < front.len() {
                            assert(front[i] == rows[i]);
                        }
                    },
                    None => {
                        assert(rows[rows.len() - 1] == rows.last());
                    },
                }
            },
        }
    }
}

/// The rows that meet a condition are those that a filter keeps, in their order; those that
/// are left after a removal are those that the opposite filter keeps; and as many are counted
/// as a filter keeps.
pub proof fn rows_are_chosen_as_by_a_filter<M>(rows: Seq<M>, p: spec_fn(M) -> bool)
    ensures
        matching(rows, p) == rows.filter(p),
        others(rows, p) == rows.filter(|m: M| !p(m)),
        count(rows, p) == rows.filter(p).len(),
    decreases rows.len(),
{
    reveal(Seq::filter);
    if rows.len() > 0 {
        rows_are_chosen_as_by_a_filter(rows.drop_last(), p);
    }
}

/// Where no row meets a condition, removing those that do removes none.
pub proof fn nothing_removed<M>(rows: Seq<M>, p: spec_fn(M) -> bool)
    ensures
        !any(rows, p) ==> others(rows, p) == rows,
    decreases rows.len(),
{
    first_is_first(rows, p);
    if rows.len() > 0 && !any(rows, p) {
        let front = rows.drop_last();
        first_is_first(front, p);
        assert(!any(front, p)) by {
            if any(front, p) {
                assert(rows[first(front, p)->0] == front[first(front, p)->0]);
            }
        }
        nothing_removed(front, p);
        assert(rows[rows.len() - 1] == rows.last());
        assert(rows =~= front.push(rows.last()));
    }
}

/// A row that meets the condition is there exactly where some row holds it.
pub proof fn any_is_some_row<M>(rows: Seq<M>, p: spec_fn(M) -> bool)
    ensures
        any(rows, p) <==> exists|i: int| 0 <= i < rows.len() && p(#[trigger] rows[i]),
{
    first_is_first(rows, p);
}

/// The foremost row is a row that meets the condition; there is one where some row meets
/// it.
pub proof fn least_of_some<M>(
    rows: Seq<M>,
    p: spec_fn(M) -> bool,
    before: spec_fn(M, M) -> bool,
)
    ensures
        match least(rows, p, before) {
            Some(i) => 0 <= i < rows.len() && p(rows[i]),
            None => forall|j: int| 0 <= j < rows.len() ==> !p(#[trigger] rows[j]),
        },
    decreases rows.len(),
{
    if rows.len() > 0 {
        let front = rows.drop_last();
        least_of_some(front, p, before);
        match least(front, p, before) {
            Some(i) => {
                assert(front[i] == rows[i]);
            },
            None => {
                assert forall|j: int| 0 <= j < rows.len() - 1 implies !p(#[trigger] rows[j]) by {
                    assert(front[j] == rows[j]);
                }
            },
        }
    }
}

/// No more rows meet a condition than there are.
pub proof fn matching_is_no_longer<M>(rows: Seq<M>, p: spec_fn(M) -> bool)
    ensures
        matching(rows, p).len() <= rows.len(),
    decreases rows.len(),
{
    if rows.len() > 0 {
        matching_is_no_longer(rows.drop_last(), p);
    }
}

/// The foremost row comes before every other that meets the condition.
pub proof fn least_comes_first<M>(
    rows: Seq<M>,
    p: spec_fn(M) -> bool,
    before: spec_fn(M, M) -> bool,
)
    requires
        orders(before),
    ensures
        match least(rows, p, before) {
            Some(i) => 0 <= i < rows.len() && p(rows[i]) && forall|j: int|
                0 <= j < rows.len() && p(#[trigger] rows[j]) ==> before(rows[i], rows[j]),
            None => forall|j: int| 0 <= j < rows.len() ==> !p(#[trigger] rows[j]),
        },
    decreases rows.len(),
{
    least_of_some(rows, p, before);
    if rows.len() > 0 {
        let front = rows.drop_last();
        least_comes_first(front, p, before);
        least_of_some(front, p, before);
        if let Some(i) = least(rows, p, before) {
            assert forall|j: int| 0 <= j < rows.len() && p(#[trigger] rows[j]) implies before(
                rows[i],
                rows[j],
            ) by {
                assert(before(rows[i], rows[i]) || before(rows[i], rows[i]));
                match least(front, p, before) {
                    Some(k) => {
                        if j < front.len() {
                            assert(front[j] == rows[j] && front[k] == rows[k]);
                            assert(before(front[k], front[j]));
                            if i != k {
                                assert(before(rows.last(), rows[k]) || before(rows[k], rows.last()));
                            }
                        } else {
                            assert(rows[j] == rows.last());
                        }
                    },
                    None => {
                        if j < front.len() {
                            assert(front[j] == rows[j]);
                        }
                    },
                }
            }
        }
    }
}

/// A listing holds rows that meet the condition, in order; all of them where the limit
/// allows it, and else those that come first.
pub proof fn listings_hold_the_first<M>(
    result: Seq<M>,
    rows: Seq<M>,
    p: spec_fn(M) -> bool,
    before: spec_fn(M, M) -> bool,
    limit: int,
)
    requires
        listing(result, matching(rows, p), before, limit),
        limit >= 0,
    ensures
        forall|i: int, j: int|
            0 <= i < j < result.len() ==> before(#[trigger] result[i], #[trigger] result[j]),
        forall|m: M| #[trigger] result.contains(m) ==> rows.contains(m) && p(m),
        result.len() <= limit,
        rows.len() <= limit ==> forall|m: M|
            rows.contains(m) && #[trigger] p(m) ==> result.contains(m),
        forall|m: M, i: int|
            rows.contains(m) && p(m) && !result.contains(m) && 0 <= i < result.len() ==> before(
                #[trigger] result[i],
                m,
            ) && #[trigger] p(m),
{
    let kept = matching(rows, p);
    let sorted = choose|sorted: Seq<M>|
        {
            &&& #[trigger] ordered(sorted, before)
            &&& sorted.to_multiset() == kept.to_multiset()
            &&& sorted.len() == kept.len()
            &&& result == sorted.take(
                if limit < sorted.len() {
                    limit
                } else {
                    sorted.len() as int
                },
            )
        };
    matching_is_no_longer(rows, p);
    assert forall|m: M| #[trigger] result.contains(m) implies rows.contains(m) && p(m) by {
        let k = choose|k: int| 0 <= k < result.len() && result[k] == m;
        assert(sorted[k] == m);
        assert(sorted.contains(m));
        assert(sorted.to_multiset().count(m) > 0);
        assert(kept.to_multiset().count(m) > 0);
        matching_has(rows, p, m);
    }
    assert forall|m: M| rows.contains(m) && #[trigger] p(m) implies sorted.contains(m) by {
        matching_has(rows, p, m);
        assert(kept.to_multiset().count(m) > 0);
        assert(sorted.to_multiset().count(m) > 0);
    }
    if rows.len() <= limit {
        assert(result =~= sorted);
    }
    assert forall|m: M, i: int|
        rows.contains(m) && p(m) && !result.contains(m) && 0 <= i < result.len() implies before(
        #[trigger] result[i],
        m,
    ) && #[trigger] p(m) by {
        assert(sorted.contains(m));
        let k = choose|k: int| 0 <= k < sorted.len() && sorted[k] == m;
        if k < result.len() {
            assert(result[k] == m);
        }
        assert(before(sorted[i], sorted[k]));
    }
}

/// The position of the first row that meets a condition.
#[verifier::loop_isolation(false)]
pub(crate) fn position<T: Row, F: Fn(&T) -> bool>(
    rows: &Vec<T>,
    test: F,
    Ghost(p): Ghost<spec_fn(T::V) -> bool>,
) -> (r: Option<usize>)
    requires
        forall|x: &T| #[trigger] call_requires(test, (x,)),
        forall|x: &T, b: bool| #[trigger] call_ensures(test, (x,), b) ==> b == p(x@),
    ensures
        match r {
            Some(i) => i < rows@.len() && first(models(rows@), p) == Some(i as int),
            None => first(models(rows@), p) is None,
        },
{
    let ghost ms = models(rows@);
    let mut i: usize = 0;
    proof {
        assert(ms.skip(0) =~= ms);
    }
    while i < rows.len()
        invariant
            i <= rows@.len(),
            first(ms, p) == (match first(ms.skip(i as int), p) {
                Some(k) => Some(k + i),
                None => None,
            }),
        decreases rows@.len() - i,
    {
        proof {
            assert(ms.skip(i as int)[0] == rows@[i as int]@);
            assert(ms.skip(i as int).drop_first() =~= ms.skip(i as int + 1));
        }
        if test(&rows[i]) {
            return Some(i);
        }
        i = i + 1;
    }
    None
}

/// A copy of the first row that meets a condition.
pub(crate) fn look_up<T: Row, F: Fn(&T) -> bool>(
    rows: &Vec<T>,
    test: F,
    Ghost(p): Ghost<spec_fn(T::V) -> bool>,
) -> (r: Option<T>)
    requires
        forall|x: &T| #[trigger] call_requires(test, (x,)),
        forall|x: &T, b: bool| #[trigger] call_ensures(test, (x,), b) ==> b == p(x@),
    ensures
        model(r) == find(models(rows@), p),
{
    match position(rows, test, Ghost(p)) {
        Some(i) => {
            proof {
                assert(models(rows@)[i as int] == rows@[i as int]@);
            }
            Some(rows[i].duplicate())
        },
        None => None,
    }
}

/// Whether some row meets a condition.
pub(crate) fn occurs<T: Row, F: Fn(&T) -> bool>(
    rows: &Vec<T>,
    test: F,
    Ghost(p): Ghost<spec_fn(T::V) -> bool>,
) -> (r: bool)
    requires
        forall|x: &T| #[trigger] call_requires(test, (x,)),
        forall|x: &T, b: bool| #[trigger] call_ensures(test, (x,), b) ==> b == p(x@),
    ensures
        r == any(models(rows@), p),
{
    match position(rows, test, Ghost(p)) {
        Some(i) => true,
        None => false,
    }
}

/// Copies of the rows that meet a condition.
pub(crate) fn select<T: Row, F: Fn(&T) -> bool>(
    rows: &Vec<T>,
    test: F,
    Ghost(p): Ghost<spec_fn(T::V) -> bool>,
) -> (r: Vec<T>)
    requires
        forall|x: &T| #[trigger] call_requires(test, (x,)),
        forall|x: &T, b: bool| #[trigger] call_ensures(test, (x,), b) ==> b == p(x@),
    ensures
        models(r@) == matching(models(rows@), p),
        r@.len() <= rows@.len(),
        r@.len() == count(models(rows@), p),
{
    let ghost ms = models(rows@);
    let mut r: Vec<T> = Vec::new();
    let mut i: usize = 0;
    proof {
        assert(ms.take(0) =~= Seq::<T::V>::empty());
        assert(models(r@) =~= Seq::<T::V>::empty());
    }
    while i < rows.len()
        invariant
            i <= rows@.len(),
            ms == models(rows@),
            models(r@) == matching(ms.take(i as int), p),
            r@.len() <= i,
            r@.len() == count(ms.take(i as int), p),
            forall|x: &T| #[trigger] call_requires(test, (x,)),
            forall|x: &T, b: bool| #[trigger] call_ensures(test, (x,), b) ==> b == p(x@),
        decreases rows@.len() - i,
    {
        proof {
            assert(ms.take(i as int + 1).drop_last() =~= ms.take(i as int));
            assert(ms.take(i as int + 1).last() == rows@[i as int]@);
        }
        if test(&rows[i]) {
            let ghost before = r@;
            let x = rows[i].duplicate();
            let ghost m = x@;
            r.push(x);
            proof {
                assert(models(r@) =~= models(before).push(m));
            }
        }
        i = i + 1;
    }
    proof {
        assert(ms.take(ms.len() as int) =~= ms);
    }
    r
}

/// Removes the rows that meet a condition, and counts them.
pub(crate) fn remove<T: Row, F: Fn(&T) -> bool>(
    rows: &mut Vec<T>,
    test: F,
    Ghost(p): Ghost<spec_fn(T::V) -> bool>,
) -> (r: usize)
    requires
        forall|x: &T| #[trigger] call_requires(test, (x,)),
        forall|x: &T, b: bool| #[trigger] call_ensures(test, (x,), b) ==> b == p(x@),
    ensures
        models(final(rows)@) == others(models(old(rows)@), p),
        r == count(models(old(rows)@), p),
{
    let ghost ms = models(rows@);
    let mut kept: Vec<T> = Vec::new();
    let mut removed: usize = 0;
    let mut i: usize = 0;
    proof {
        assert(ms.take(0) =~= Seq::<T::V>::empty());
        assert(models(kept@) =~= Seq::<T::V>::empty());
    }
    while i < rows.len()
        invariant
            i <= rows@.len(),
            ms == models(rows@),
            models(kept@) == others(ms.take(i as int), p),
            removed <= i,
            removed == count(ms.take(i as int), p),
            forall|x: &T| #[trigger] call_requires(test, (x,)),
            forall|x: &T, b: bool| #[trigger] call_ensures(test, (x,), b) ==> b == p(x@),
        decreases rows@.len() - i,
    {
        proof {
            assert(ms.take(i as int + 1).drop_last() =~= ms.take(i as int));
            assert(ms.take(i as int + 1).last() == rows@[i as int]@);
        }
        if test(&rows[i]) {
            removed = removed + 1;
        } else {
            let ghost before = kept@;
            let x = rows[i].duplicate();
            let ghost m = x@;
            kept.push(x);
            proof {
                assert(models(kept@) =~= models(before).push(m));
            }
        }
        i = i + 1;
    }
    proof {
        assert(ms.take(ms.len() as int) =~= ms);
    }
    *rows = kept;
    removed
}

/// Changes the rows that meet a condition, and counts them.
pub(crate) fn revise<T: Row, F: Fn(&T) -> bool, G: Fn(&T) -> T>(
    rows: &mut Vec<T>,
    test: F,
    change: G,
    Ghost(p): Ghost<spec_fn(T::V) -> bool>,
    Ghost(f): Ghost<spec_fn(T::V) -> T::V>,
) -> (r: usize)
    requires
        forall|x: &T| #[trigger] call_requires(test, (x,)),
        forall|x: &T, b: bool| #[trigger] call_ensures(test, (x,), b) ==> b == p(x@),
        forall|x: &T| p(x@) ==> #[trigger] call_requires(change, (x,)),
        forall|x: &T, y: T| #[trigger] call_ensures(change, (x,), y) ==> y@ == f(x@),
    ensures
        models(final(rows)@) == revised(models(old(rows)@), p, f),
        r == count(models(old(rows)@), p),
{
    let ghost ms = models(rows@);
    let mut changed: usize = 0;
    let mut i: usize = 0;
    proof {
        assert(ms.take(0) =~= Seq::<T::V>::empty());
    }
    while i < rows.len()
        invariant
            i <= rows@.len(),
            rows@.len() == ms.len(),
            forall|j: int| 0 <= j < i ==> (#[trigger] rows@[j])@ == revised(ms, p, f)[j],
            forall|j: int| i <= j < rows@.len() ==> (#[trigger] rows@[j])@ == ms[j],
            changed <= i,
            changed == count(ms.take(i as int), p),
            forall|x: &T| #[trigger] call_requires(test, (x,)),
            forall|x: &T, b: bool| #[trigger] call_ensures(test, (x,), b) ==> b == p(x@),
            forall|x: &T| p(x@) ==> #[trigger] call_requires(change, (x,)),
            forall|x: &T, y: T| #[trigger] call_ensures(change, (x,), y) ==> y@ == f(x@),
        decreases rows@.len() - i,
    {
        proof {
            assert(ms.take(i as int + 1).drop_last() =~= ms.take(i as int));
            assert(ms.take(i as int + 1).last() == rows@[i as int]@);
        }
        if test(&rows[i]) {
            let y = change(&rows[i]);
            rows.set(i, y);
            changed = changed + 1;
        }
        i = i + 1;
    }
    proof {
        assert(ms.take(ms.len() as int) =~= ms);
        assert(models(rows@) =~= revised(ms, p, f));
    }
    changed
}

/// Appends a row.
pub(crate) fn append<T: Row>(rows: &mut Vec<T>, row: T)
    ensures
        models(final(rows)@) == models(old(rows)@).push(row@),
{
    let ghost before = rows@;
    rows.push(row);
    proof {
        assert(models(rows@) =~= models(before).push(row@));
    }
}

/// The first `limit` of some rows in the order of a relation.
pub(crate) fn list<T: Row, F: Fn(&T, &T) -> bool>(
    rows: Vec<T>,
    le: F,
    limit: usize,
    Ghost(before): Ghost<spec_fn(T::V, T::V) -> bool>,
) -> (r: Vec<T>)
    requires
        forall|x: &T, y: &T| #[trigger] call_requires(le, (x, y)),
        forall|x: &T, y: &T, b: bool| #[trigger] call_ensures(le, (x, y), b) ==> b == before(x@, y@),
        orders(before),
    ensures
        listing(models(r@), models(rows@), before, limit as int),
        r@.len() == (if limit < rows@.len() {
            limit as int
        } else {
            rows@.len() as int
        }),
{
    let ghost ms = models(rows@);
    let mut rest = rows;
    let mut r: Vec<T> = Vec::new();
    proof {
        assert(models(r@) =~= Seq::<T::V>::empty());
        assert(ms.to_multiset().add(Seq::<T::V>::empty().to_multiset()) =~= ms.to_multiset());
    }
    while rest.len() > 0
        invariant
            ordered(models(r@), before),
            models(rest@).to_multiset().add(models(r@).to_multiset()) == ms.to_multiset(),
            rest@.len() + r@.len() == ms.len(),
            forall|x: &T, y: &T| #[trigger] call_requires(le, (x, y)),
            forall|x: &T, y: &T, b: bool| #[trigger]
                call_ensures(le, (x, y), b) ==> b == before(x@, y@),
            orders(before),
        decreases rest@.len(),
    {
        let ghost whole = models(rest@);
        let ghost sorted = models(r@);
        match rest.pop() {
            None => {},
            Some(x) => {
                let ghost m = x@;
                let mut at: usize = 0;
                while at < r.len() && !le(&x, &r[at])
                    invariant
                        at <= r@.len(),
                        m == x@,
                        forall|k: int| 0 <= k < at ==> !before(m, (#[trigger] r@[k])@),
                        forall|x: &T, y: &T| #[trigger] call_requires(le, (x, y)),
                        forall|x: &T, y: &T, b: bool| #[trigger]
                            call_ensures(le, (x, y), b) ==> b == before(x@, y@),
                    decreases r@.len() - at,
                {
                    at = at + 1;
                }
                proof {
                    if at < r@.len() {
                        assert(before(m, r@[at as int]@));
                        assert(sorted[at as int] == r@[at as int]@);
                    }
                    assert forall|k: int| 0 <= k < at implies !before(m, #[trigger] sorted[k]) by {
                        assert(sorted[k] == r@[k]@);
                    }
                    assert(whole =~= models(rest@).push(m));
                }
                r.insert(at, x);
                proof {
                    let after = models(r@);
                    assert(after =~= sorted.insert(at as int, m));
                    insertion_keeps_order(sorted, before, at as int, m);
                    assert(models(rest@).to_multiset().add(after.to_multiset())
                        =~= whole.to_multiset().add(sorted.to_multiset()));
                }
            },
        }
    }
    let ghost every = models(r@);
    proof {
        assert(models(rest@) =~= Seq::<T::V>::empty());
        assert(models(rest@).to_multiset().add(every.to_multiset()) =~= every.to_multiset());
    }
    if limit < r.len() {
        r.truncate(limit);
    }
    proof {
        let n = if limit < every.len() {
            limit as int
        } else {
            every.len() as int
        };
        assert(models(r@) =~= every.take(n));
        assert(ordered(every, before));
    }
    r
}

proof fn insertion_keeps_order<M>(
    sorted: Seq<M>,
    before: spec_fn(M, M) -> bool,
    at: int,
    m: M,
)
    requires
        ordered(sorted, before),
        orders(before),
        0 <= at <= sorted.len(),
        forall|k: int| 0 <= k < at ==> !before(m, #[trigger] sorted[k]),
        at < sorted.len() ==> before(m, sorted[at]),
    ensures
        ordered(sorted.insert(at, m), before),
{
    let r = sorted.insert(at, m);
    assert forall|i: int, j: int| 0 <= i < j < r.len() implies before(
        #[trigger] r[i],
        #[trigger] r[j],
    ) by {
        if j < at {
            assert(r[i] == sorted[i] && r[j] == sorted[j]);
        } else if j == at {
            assert(r[i] == sorted[i]);
            assert(before(m, sorted[i]) || before(sorted[i], m));
        } else if i < at {
            assert(r[i] == sorted[i] && r[j] == sorted[j - 1]);
        } else if i == at {
            assert(r[j] == sorted[j - 1]);
            if j - 1 > at {
                assert(before(m, sorted[at]) && before(sorted[at], sorted[j - 1]));
            }
        } else {
            assert(r[i] == sorted[i - 1] && r[j] == sorted[j - 1]);
        }
    }
}

/// The position of the row that comes before the others among those that meet a
/// condition.
pub(crate) fn pick<T: Row, F: Fn(&T) -> bool, G: Fn(&T, &T) -> bool>(
    rows: &Vec<T>,
    test: F,
    le: G,
    Ghost(p): Ghost<spec_fn(T::V) -> bool>,
    Ghost(before): Ghost<spec_fn(T::V, T::V) -> bool>,
) -> (r: Option<usize>)
    requires
        forall|x: &T| #[trigger] call_requires(test, (x,)),
        forall|x: &T, b: bool| #[trigger] call_ensures(test, (x,), b) ==> b == p(x@),
        forall|x: &T, y: &T| #[trigger] call_requires(le, (x, y)),
        forall|x: &T, y: &T, b: bool| #[trigger] call_ensures(le, (x, y), b) ==> b == before(x@, y@),
    ensures
        match r {
            Some(i) => i < rows@.len() && least(models(rows@), p, before) == Some(i as int) && p(
                models(rows@)[i as int],
            ),
            None => least(models(rows@), p, before) is None,
        },
{
    let ghost ms = models(rows@);
    let mut r: Option<usize> = None;
    let mut i: usize = 0;
    proof {
        assert(ms.take(0) =~= Seq::<T::V>::empty());
    }
    while i < rows.len()
        invariant
            i <= rows@.len(),
            ms == models(rows@),
            match r {
                Some(k) => k < i && least(ms.take(i as int), p, before) == Some(k as int) && p(
                    ms[k as int],
                ),
                None => least(ms.take(i as int), p, before) is None,
            },
            forall|x: &T| #[trigger] call_requires(test, (x,)),
            forall|x: &T, b: bool| #[trigger] call_ensures(test, (x,), b) ==> b == p(x@),
            forall|x: &T, y: &T| #[trigger] call_requires(le, (x, y)),
            forall|x: &T, y: &T, b: bool| #[trigger]
                call_ensures(le, (x, y), b) ==> b == before(x@, y@),
        decreases rows@.len() - i,
    {
        proof {
            let next = ms.take(i as int + 1);
            assert(next.drop_last() =~= ms.take(i as int));
            assert(next.last() == rows@[i as int]@);
            if r is Some {
                assert(next[r->0 as int] == rows@[r->0 as int]@);
            }
        }
        if test(&rows[i]) {
            match r {
                None => {
                    r = Some(i);
                },
                Some(k) => {
                    if !le(&rows[k], &rows[i]) {
                        r = Some(i);
                    }
                },
            }
        }
        i = i + 1;
    }
    proof {
        assert(ms.take(ms.len() as int) =~= ms);
    }
    r
}

} // verus!
