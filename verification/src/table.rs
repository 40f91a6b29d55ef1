//! Rows kept in insertion order: the first row that meets a condition, and the rows
//! that are left when some are deleted.

use vstd::prelude::*;

verus! {

/// Whether `k` is the first row that meets `pred`.
pub open spec fn is_first<T>(rows: Seq<T>, pred: spec_fn(T) -> bool, k: int) -> bool {
    &&& 0 <= k < rows.len()
    &&& pred(rows[k])
    &&& forall|j: int| 0 <= j < k ==> !pred(#[trigger] rows[j])
}

/// The first row that meets `pred`, if any does.
pub open spec fn first_match<T>(rows: Seq<T>, pred: spec_fn(T) -> bool) -> Option<T> {
    if exists|k: int| is_first(rows, pred, k) {
        Some(rows[choose|k: int| is_first(rows, pred, k)])
    } else {
        None
    }
}

/// The first row that meets `pred` is what `first_match` gives.
pub proof fn lemma_first_match<T>(rows: Seq<T>, pred: spec_fn(T) -> bool, k: int)
    requires
        is_first(rows, pred, k),
    ensures
        first_match(rows, pred) == Some(rows[k]),
{
    let c = choose|c: int| is_first(rows, pred, c);
    if c < k {
        assert(!pred(rows[c]));
    } else if k < c {
        assert(!pred(rows[k]));
    }
}

/// Where no row meets `pred`, `first_match` gives nothing.
pub proof fn lemma_no_match<T>(rows: Seq<T>, pred: spec_fn(T) -> bool)
    requires
        forall|j: int| 0 <= j < rows.len() ==> !pred(#[trigger] rows[j]),
    ensures
        first_match(rows, pred).is_none(),
{
    if exists|k: int| is_first(rows, pred, k) {
        let k = choose|k: int| is_first(rows, pred, k);
        assert(!pred(rows[k]));
    }
}

/// What `first_match` gives meets `pred` and is a row.
pub proof fn lemma_first_match_is_row<T>(rows: Seq<T>, pred: spec_fn(T) -> bool)
    ensures
        first_match(rows, pred).is_some() ==> pred(first_match(rows, pred).unwrap())
            && rows.contains(first_match(rows, pred).unwrap()),
        first_match(rows, pred).is_none() ==> forall|j: int|
            0 <= j < rows.len() ==> !pred(#[trigger] rows[j]),
{
    if exists|k: int| is_first(rows, pred, k) {
        let k = choose|k: int| is_first(rows, pred, k);
        assert(rows[k] == first_match(rows, pred).unwrap());
    } else {
        assert forall|j: int| 0 <= j < rows.len() implies !pred(#[trigger] rows[j]) by {
            if pred(rows[j]) {
                lemma_some_first(rows, pred, j);
            }
        }
    }
}

/// Where some row meets `pred`, one is the first to do so.
pub proof fn lemma_some_first<T>(rows: Seq<T>, pred: spec_fn(T) -> bool, j: int)
    requires
        0 <= j < rows.len(),
        pred(rows[j]),
    ensures
        exists|k: int| is_first(rows, pred, k),
    decreases j,
{
    if exists|i: int| 0 <= i < j && pred(rows[i]) {
        let i = choose|i: int| 0 <= i < j && pred(rows[i]);
        lemma_some_first(rows, pred, i);
    } else {
        assert(is_first(rows, pred, j));
    }
}

/// Whether `k` is the last row that meets `pred`.
pub open spec fn is_last<T>(rows: Seq<T>, pred: spec_fn(T) -> bool, k: int) -> bool {
    &&& 0 <= k < rows.len()
    &&& pred(rows[k])
    &&& forall|j: int| k < j < rows.len() ==> !pred(#[trigger] rows[j])
}

/// The last row that meets `pred`, if any does.
pub open spec fn last_match<T>(rows: Seq<T>, pred: spec_fn(T) -> bool) -> Option<T> {
    if exists|k: int| is_last(rows, pred, k) {
        Some(rows[choose|k: int| is_last(rows, pred, k)])
    } else {
        None
    }
}

/// The last row that meets `pred` is what `last_match` gives.
pub proof fn lemma_last_match<T>(rows: Seq<T>, pred: spec_fn(T) -> bool, k: int)
    requires
        is_last(rows, pred, k),
    ensures
        last_match(rows, pred) == Some(rows[k]),
{
    let c = choose|c: int| is_last(rows, pred, c);
    if c < k {
        assert(!pred(rows[k]));
    } else if k < c {
        assert(!pred(rows[c]));
    }
}

/// Where no row meets `pred`, `last_match` gives nothing.
pub proof fn lemma_no_last_match<T>(rows: Seq<T>, pred: spec_fn(T) -> bool)
    requires
        forall|j: int| 0 <= j < rows.len() ==> !pred(#[trigger] rows[j]),
    ensures
        last_match(rows, pred).is_none(),
{
    if exists|k: int| is_last(rows, pred, k) {
        let k = choose|k: int| is_last(rows, pred, k);
        assert(!pred(rows[k]));
    }
}

/// Whether no two rows have the same key.
pub open spec fn distinct_by<T>(rows: Seq<T>, key: spec_fn(T) -> Seq<char>) -> bool {
    forall|i: int, j: int|
        0 <= i < j < rows.len() ==> key(#[trigger] rows[i]) != key(#[trigger] rows[j])
}

/// Deleting rows leaves the keys of the others distinct.
pub proof fn lemma_filter_keeps_distinct<T>(
    rows: Seq<T>,
    key: spec_fn(T) -> Seq<char>,
    pred: spec_fn(T) -> bool,
)
    requires
        distinct_by(rows, key),
    ensures
        distinct_by(rows.filter(pred), key),
    decreases rows.len(),
{
    reveal(Seq::filter);
    if rows.len() > 0 {
        let front = rows.drop_last();
        let last = rows.last();
        assert forall|i: int, j: int| 0 <= i < j < front.len() implies key(#[trigger] front[i])
            != key(#[trigger] front[j]) by {
            assert(front[i] == rows[i] && front[j] == rows[j]);
        }
        lemma_filter_keeps_distinct(front, key, pred);
        let kept = front.filter(pred);
        if pred(last) {
            let all = kept.push(last);
            assert forall|i: int, j: int| 0 <= i < j < all.len() implies key(#[trigger] all[i])
                != key(#[trigger] all[j]) by {
                if j < kept.len() {
                    assert(all[i] == kept[i] && all[j] == kept[j]);
                } else {
                    assert(all[i] == kept[i]);
                    assert(kept.contains(kept[i]));
                    front.lemma_filter_contains_rev(pred, kept[i]);
                    let m = choose|m: int| 0 <= m < front.len() && front[m] == kept[i];
                    assert(rows[m] == kept[i]);
                    assert(rows[rows.len() - 1] == last);
                }
            }
        }
    }
}

/// A row with a key of its own may join rows with distinct keys.
pub proof fn lemma_push_keeps_distinct<T>(rows: Seq<T>, key: spec_fn(T) -> Seq<char>, row: T)
    requires
        distinct_by(rows, key),
        forall|i: int| 0 <= i < rows.len() ==> key(#[trigger] rows[i]) != key(row),
    ensures
        distinct_by(rows.push(row), key),
{
    let all = rows.push(row);
    assert forall|i: int, j: int| 0 <= i < j < all.len() implies key(#[trigger] all[i]) != key(
        #[trigger] all[j],
    ) by {
        if j < rows.len() {
            assert(all[i] == rows[i] && all[j] == rows[j]);
        } else {
            assert(all[i] == rows[i]);
        }
    }
}

/// The rows whose mark is not set, in order.
pub open spec fn unmarked<T>(rows: Seq<T>, marks: Seq<bool>) -> Seq<T>
    recommends
        marks.len() == rows.len(),
    decreases rows.len(),
{
    if rows.len() == 0 {
        rows
    } else if marks[rows.len() - 1] {
        unmarked(rows.drop_last(), marks)
    } else {
        unmarked(rows.drop_last(), marks).push(rows.last())
    }
}

/// Deleting the rows marked by `pred` leaves the rows that do not meet `pred`.
pub proof fn lemma_unmarked_is_filter<T>(rows: Seq<T>, marks: Seq<bool>, pred: spec_fn(T) -> bool)
    requires
        marks.len() >= rows.len(),
        forall|i: int| 0 <= i < rows.len() ==> marks[i] == pred(#[trigger] rows[i]),
    ensures
        unmarked(rows, marks) == rows.filter(|row: T| !pred(row)),
    decreases rows.len(),
{
    reveal(Seq::filter);
    if rows.len() > 0 {
        lemma_unmarked_is_filter(rows.drop_last(), marks, pred);
    }
}

/// The rows whose mark is set, in order.
pub open spec fn marked<T>(rows: Seq<T>, marks: Seq<bool>) -> Seq<T>
    recommends
        marks.len() == rows.len(),
    decreases rows.len(),
{
    if rows.len() == 0 {
        rows
    } else if marks[rows.len() - 1] {
        marked(rows.drop_last(), marks).push(rows.last())
    } else {
        marked(rows.drop_last(), marks)
    }
}

/// The rows marked by `pred` are the rows that meet `pred`.
pub proof fn lemma_marked_is_filter<T>(rows: Seq<T>, marks: Seq<bool>, pred: spec_fn(T) -> bool)
    requires
        marks.len() >= rows.len(),
        forall|i: int| 0 <= i < rows.len() ==> marks[i] == pred(#[trigger] rows[i]),
    ensures
        marked(rows, marks) == rows.filter(pred),
    decreases rows.len(),
{
    reveal(Seq::filter);
    if rows.len() > 0 {
        lemma_marked_is_filter(rows.drop_last(), marks, pred);
    }
}

/// Deletes from `rows` every row whose mark is set.
pub fn delete_marked<T>(rows: &mut Vec<T>, marks: &Vec<bool>)
    requires
        marks@.len() == old(rows)@.len(),
    ensures
        final(rows)@ == unmarked(old(rows)@, marks@),
{
    let ghost before = rows@;
    let n = marks.len();
    let mut i: usize = 0;
    let mut j: usize = 0;
    while j < n
        invariant
            n == marks@.len(),
            n == before.len(),
            i <= j <= n,
            rows@.len() == i + (n - j),
            rows@.subrange(0, i as int) == unmarked(before.subrange(0, j as int), marks@),
            rows@.subrange(i as int, rows@.len() as int) == before.subrange(j as int, n as int),
        decreases n - j,
    {
        let ghost cur = rows@;
        let ghost next = before.subrange(0, j + 1);
        assert(next.drop_last() =~= before.subrange(0, j as int));
        assert(next.last() == before[j as int]);
        assert(cur[i as int] == cur.subrange(i as int, cur.len() as int)[0]);
        let ghost old_tail = cur.subrange(i as int, cur.len() as int);
        let ghost rest = before.subrange(j + 1, n as int);
        if marks[j] {
            rows.remove(i);
            let ghost tail = rows@.subrange(i as int, rows@.len() as int);
            assert(rows@.subrange(0, i as int) =~= cur.subrange(0, i as int));
            assert forall|m: int| 0 <= m < tail.len() implies #[trigger] tail[m] == rest[m] by {
                assert(tail[m] == old_tail[m + 1]);
            }
            assert(tail =~= rest);
        } else {
            let ghost tail = rows@.subrange(i + 1, rows@.len() as int);
            assert(rows@.subrange(0, i + 1) =~= cur.subrange(0, i as int).push(cur[i as int]));
            assert forall|m: int| 0 <= m < tail.len() implies #[trigger] tail[m] == rest[m] by {
                assert(tail[m] == old_tail[m + 1]);
            }
            assert(tail =~= rest);
            i = i + 1;
        }
        j = j + 1;
    }
    assert(before.subrange(0, n as int) =~= before);
    assert(rows@.subrange(0, i as int) =~= rows@);
}

} // verus!
