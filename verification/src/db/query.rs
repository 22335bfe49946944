//! What it means to look a row up in a table, and the facts about filtered
//! tables that the proofs of the queries share.

use vstd::prelude::*;

verus! {

/// Row `i` is the first row of `rows` that is `wanted`.
pub open spec fn is_first<T>(rows: Seq<T>, wanted: spec_fn(T) -> bool, i: int) -> bool {
    &&& 0 <= i < rows.len()
    &&& wanted(rows[i])
    &&& forall|j: int| 0 <= j < i ==> !wanted(#[trigger] rows[j])
}

/// No row of `rows` is `wanted`.
pub open spec fn none_is<T>(rows: Seq<T>, wanted: spec_fn(T) -> bool) -> bool {
    forall|j: int| 0 <= j < rows.len() ==> !wanted(#[trigger] rows[j])
}

/// A row other than the one at index `skip` is `wanted`.
pub open spec fn another_is<T>(rows: Seq<T>, wanted: spec_fn(T) -> bool, skip: int) -> bool {
    exists|k: int| 0 <= k < rows.len() && k != skip && wanted(#[trigger] rows[k])
}

/// The index of the first row that is `wanted`, if there is one.
pub open spec fn position<T>(rows: Seq<T>, wanted: spec_fn(T) -> bool) -> Option<int> {
    if exists|i: int| is_first(rows, wanted, i) {
        Some(choose|i: int| is_first(rows, wanted, i))
    } else {
        None
    }
}

/// The first row that is `wanted`, if there is one.
pub open spec fn first<T>(rows: Seq<T>, wanted: spec_fn(T) -> bool) -> Option<T> {
    match position(rows, wanted) {
        Some(i) => Some(rows[i]),
        None => None,
    }
}

/// No two rows of `rows` have the same `key`.
pub open spec fn distinct_by<T, K>(rows: Seq<T>, key: spec_fn(T) -> K) -> bool {
    forall|i: int, j: int|
        0 <= i < j < rows.len() ==> key(#[trigger] rows[i]) != key(#[trigger] rows[j])
}

/// A row that is the first wanted one is the one that `position` names.
pub proof fn position_of_first<T>(rows: Seq<T>, wanted: spec_fn(T) -> bool, i: int)
    requires
        is_first(rows, wanted, i),
    ensures
        position(rows, wanted) == Some(i),
        first(rows, wanted) == Some(rows[i]),
{
    let k = choose|k: int| is_first(rows, wanted, k);
    assert(is_first(rows, wanted, k));
    if k < i {
        assert(!wanted(rows[k]));
    }
    if i < k {
        assert(!wanted(rows[i]));
    }
}

/// Where no row is wanted, `position` names none.
pub proof fn position_of_none<T>(rows: Seq<T>, wanted: spec_fn(T) -> bool)
    requires
        none_is(rows, wanted),
    ensures
        position(rows, wanted) is None,
        first(rows, wanted) is None,
{
    if exists|i: int| is_first(rows, wanted, i) {
        let k = choose|k: int| is_first(rows, wanted, k);
        assert(!wanted(rows[k]));
    }
}

/// Two tests that agree on every row of the table find the same row.
pub proof fn position_agrees<T>(rows: Seq<T>, wanted: spec_fn(T) -> bool, other: spec_fn(T) -> bool)
    requires
        forall|i: int| 0 <= i < rows.len() ==> wanted(#[trigger] rows[i]) == other(rows[i]),
    ensures
        position(rows, wanted) == position(rows, other),
        first(rows, wanted) == first(rows, other),
{
    position_facts(rows, wanted);
    match position(rows, wanted) {
        Some(i) => {
            assert(is_first(rows, other, i)) by {
                assert forall|j: int| 0 <= j < i implies !other(#[trigger] rows[j]) by {
                    assert(!wanted(rows[j]));
                }
            }
            position_of_first(rows, other, i);
        },
        None => {
            assert(none_is(rows, other)) by {
                assert forall|j: int| 0 <= j < rows.len() implies !other(#[trigger] rows[j]) by {
                    assert(!wanted(rows[j]));
                }
            }
            position_of_none(rows, other);
        },
    }
}

/// What `position` says of the table, either way.
pub proof fn position_facts<T>(rows: Seq<T>, wanted: spec_fn(T) -> bool)
    ensures
        match position(rows, wanted) {
            Some(i) => is_first(rows, wanted, i),
            None => none_is(rows, wanted),
        },
{
    if exists|i: int| is_first(rows, wanted, i) {
    } else {
        least_wanted(rows, wanted, rows.len() as int);
    }
}

/// Among the first `n` rows either none is wanted or one is the first.
proof fn least_wanted<T>(rows: Seq<T>, wanted: spec_fn(T) -> bool, n: int)
    requires
        0 <= n <= rows.len(),
    ensures
        (exists|i: int| is_first(rows, wanted, i)) || forall|j: int|
            0 <= j < n ==> !wanted(#[trigger] rows[j]),
    decreases n,
{
    if n > 0 {
        least_wanted(rows, wanted, n - 1);
        if !(exists|i: int| is_first(rows, wanted, i)) {
            if wanted(rows[n - 1]) {
                assert(is_first(rows, wanted, n - 1));
            }
        }
    }
}

/// Taking one row more appends that row, and taking all rows yields the
/// table.
pub proof fn take_step<T>(rows: Seq<T>, k: int)
    requires
        0 <= k < rows.len(),
    ensures
        rows.take(k + 1) == rows.take(k).push(rows[k]),
        rows.take(rows.len() as int) == rows,
        rows.take(0) == Seq::<T>::empty(),
{
    assert(rows.take(k + 1) =~= rows.take(k).push(rows[k]));
    assert(rows.take(rows.len() as int) =~= rows);
    assert(rows.take(0) =~= Seq::<T>::empty());
}

/// Appending a row with a new key keeps the keys distinct.
pub proof fn push_keeps_distinct<T, K>(rows: Seq<T>, row: T, key: spec_fn(T) -> K)
    requires
        distinct_by(rows, key),
        forall|j: int| 0 <= j < rows.len() ==> key(#[trigger] rows[j]) != key(row),
    ensures
        distinct_by(rows.push(row), key),
{
    let after = rows.push(row);
    assert forall|i: int, j: int| 0 <= i < j < after.len() implies key(#[trigger] after[i]) != key(
        #[trigger] after[j],
    ) by {
        if j < rows.len() {
            assert(key(rows[i]) != key(rows[j]));
        } else {
            assert(key(rows[i]) != key(row));
        }
    }
}

/// Replacing a row by one whose key no other row has keeps the keys
/// distinct.
pub proof fn update_keeps_distinct<T, K>(rows: Seq<T>, at: int, row: T, key: spec_fn(T) -> K)
    requires
        distinct_by(rows, key),
        0 <= at < rows.len(),
        forall|j: int| 0 <= j < rows.len() && j != at ==> key(#[trigger] rows[j]) != key(row),
    ensures
        distinct_by(rows.update(at, row), key),
{
    let after = rows.update(at, row);
    assert forall|i: int, j: int| 0 <= i < j < after.len() implies key(#[trigger] after[i]) != key(
        #[trigger] after[j],
    ) by {
        assert(key(rows[i]) != key(rows[j]));
        if i == at {
            assert(key(rows[j]) != key(row));
        }
        if j == at {
            assert(key(rows[i]) != key(row));
        }
    }
}

/// Filtering one row more either appends that row or changes nothing.
pub proof fn filter_take_step<T>(rows: Seq<T>, k: int, keep: spec_fn(T) -> bool)
    requires
        0 <= k < rows.len(),
    ensures
        rows.take(k + 1).filter(keep) == if keep(rows[k]) {
            rows.take(k).filter(keep).push(rows[k])
        } else {
            rows.take(k).filter(keep)
        },
{
    assert(rows.take(k + 1) =~= rows.take(k).push(rows[k]));
    rows.take(k).lemma_filter_push(rows[k], keep);
}

/// Filtering no rows yields none, and taking all rows yields the table.
pub proof fn filter_take_ends<T>(rows: Seq<T>, keep: spec_fn(T) -> bool)
    ensures
        rows.take(0).filter(keep) == Seq::<T>::empty(),
        rows.take(rows.len() as int) == rows,
{
    reveal(Seq::filter);
    assert(rows.take(0) =~= Seq::<T>::empty());
    assert(rows.take(rows.len() as int) =~= rows);
}

/// A filter that keeps every row of a table yields the table.
pub proof fn filter_keeps_all<T>(rows: Seq<T>, keep: spec_fn(T) -> bool)
    requires
        forall|i: int| 0 <= i < rows.len() ==> keep(#[trigger] rows[i]),
    ensures
        rows.filter(keep) == rows,
    decreases rows.len(),
{
    reveal(Seq::filter);
    if rows.len() > 0 {
        let rest = rows.drop_last();
        assert forall|i: int| 0 <= i < rest.len() implies keep(#[trigger] rest[i]) by {
            assert(rest[i] == rows[i]);
        }
        filter_keeps_all(rest, keep);
        assert(rest.push(rows.last()) =~= rows);
    }
}

/// A filter that keeps no row of a table yields the empty table.
pub proof fn filter_keeps_none<T>(rows: Seq<T>, keep: spec_fn(T) -> bool)
    requires
        forall|i: int| 0 <= i < rows.len() ==> !keep(#[trigger] rows[i]),
    ensures
        rows.filter(keep) == Seq::<T>::empty(),
    decreases rows.len(),
{
    reveal(Seq::filter);
    if rows.len() > 0 {
        let rest = rows.drop_last();
        assert forall|i: int| 0 <= i < rest.len() implies !keep(#[trigger] rest[i]) by {
            assert(rest[i] == rows[i]);
        }
        filter_keeps_none(rest, keep);
    }
}

/// Every row of a filtered table is a row of the table that was kept, in
/// the order of the table.
pub proof fn filter_keeps_order<T>(rows: Seq<T>, keep: spec_fn(T) -> bool)
    ensures
        forall|i: int|
            0 <= i < rows.filter(keep).len() ==> keep(#[trigger] rows.filter(keep)[i]),
        forall|i: int, j: int|
            0 <= i < j < rows.filter(keep).len() ==> exists|a: int, b: int|
                0 <= a < b < rows.len() && rows[a] == #[trigger] rows.filter(keep)[i] && rows[b]
                    == #[trigger] rows.filter(keep)[j],
        forall|i: int|
            0 <= i < rows.filter(keep).len() ==> exists|a: int|
                0 <= a < rows.len() && rows[a] == #[trigger] rows.filter(keep)[i],
        forall|a: int|
            0 <= a < rows.len() && keep(#[trigger] rows[a]) ==> rows.filter(keep).contains(
                rows[a],
            ),
    decreases rows.len(),
{
    reveal(Seq::filter);
    if rows.len() > 0 {
        let rest = rows.drop_last();
        filter_keeps_order(rest, keep);
        let kept = rows.filter(keep);
        let last = rows.len() - 1;
        assert forall|i: int| 0 <= i < kept.len() implies exists|a: int|
            0 <= a < rows.len() && rows[a] == #[trigger] kept[i] by {
            if i < rest.filter(keep).len() {
                let a = choose|a: int| 0 <= a < rest.len() && rest[a] == rest.filter(keep)[i];
                assert(rows[a] == kept[i]);
            } else {
                assert(rows[last] == kept[i]);
            }
        }
        assert forall|i: int, j: int| 0 <= i < j < kept.len() implies exists|a: int, b: int|
            0 <= a < b < rows.len() && rows[a] == #[trigger] kept[i] && rows[b]
                == #[trigger] kept[j] by {
            if j < rest.filter(keep).len() {
                let (a, b) = choose|a: int, b: int|
                    0 <= a < b < rest.len() && rest[a] == rest.filter(keep)[i] && rest[b]
                        == rest.filter(keep)[j];
                assert(rows[a] == kept[i] && rows[b] == kept[j]);
            } else {
                let a = choose|a: int| 0 <= a < rest.len() && rest[a] == rest.filter(keep)[i];
                assert(rows[a] == kept[i] && rows[last] == kept[j]);
            }
        }
        assert forall|a: int| 0 <= a < rows.len() && keep(#[trigger] rows[a]) implies kept.contains(
            rows[a],
        ) by {
            if a < last {
                assert(rest[a] == rows[a]);
                let w = choose|w: int|
                    0 <= w < rest.filter(keep).len() && rest.filter(keep)[w] == rest[a];
                assert(kept[w] == rows[a]);
            } else {
                assert(kept[kept.len() - 1] == rows[a]);
            }
        }
    }
}

/// A filtered table has distinct keys where the table has.
pub proof fn filter_keeps_distinct<T, K>(
    rows: Seq<T>,
    keep: spec_fn(T) -> bool,
    key: spec_fn(T) -> K,
)
    requires
        distinct_by(rows, key),
    ensures
        distinct_by(rows.filter(keep), key),
{
    filter_keeps_order(rows, keep);
    let kept = rows.filter(keep);
    assert forall|i: int, j: int| 0 <= i < j < kept.len() implies key(#[trigger] kept[i]) != key(
        #[trigger] kept[j],
    ) by {
        let (a, b) = choose|a: int, b: int|
            0 <= a < b < rows.len() && rows[a] == kept[i] && rows[b] == kept[j];
        assert(key(rows[a]) != key(rows[b]));
    }
}

/// What a row is mapped to is in the mapped table.
pub proof fn filter_map_has<T, U>(rows: Seq<T>, pick: spec_fn(T) -> Option<U>, i: int)
    requires
        0 <= i < rows.len(),
        pick(rows[i]) is Some,
    ensures
        rows.filter_map(pick).contains(pick(rows[i])->0),
    decreases rows.len(),
{
    let rest = rows.drop_last();
    let mapped = rows.filter_map(pick);
    if i == rows.len() - 1 {
        assert(mapped[mapped.len() - 1] == pick(rows[i])->0);
    } else {
        filter_map_has(rest, pick, i);
        let w = choose|w: int|
            0 <= w < rest.filter_map(pick).len() && rest.filter_map(pick)[w] == pick(rest[i])->0;
        assert(mapped[w] == pick(rows[i])->0);
    }
}

} // verus!
