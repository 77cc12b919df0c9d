//! Stable ordering of timestamped rows.
//!
//! Rows are ordered by their microsecond timestamp alone; rows with equal
//! timestamps keep the order in which they were given.

use vstd::prelude::*;

verus! {

/// A row that carries the time at which it was written.
pub trait Timestamped: Sized {
    /// The row's timestamp, in microseconds.
    spec fn stamp(&self) -> int;

    fn timestamp(&self) -> (t: i64)
        ensures
            t == self.stamp(),
    ;
}

/// Whether a row stamped `a` may stand before a row stamped `b`.
pub open spec fn in_order(a: int, b: int, newest_first: bool) -> bool {
    if newest_first {
        a >= b
    } else {
        a <= b
    }
}

/// Whether every row of `rows` may stand before all the rows after it.
pub open spec fn is_ordered<T: Timestamped>(rows: Seq<T>, newest_first: bool) -> bool {
    forall|i: int, j: int|
        0 <= i < j < rows.len() ==> in_order(
            #[trigger] rows[i].stamp(),
            #[trigger] rows[j].stamp(),
            newest_first,
        )
}

/// `sorted` with `t` placed behind every row that may stand before it.
pub open spec fn insert_in_order<T: Timestamped>(sorted: Seq<T>, t: T, newest_first: bool) -> Seq<T>
    decreases sorted.len(),
{
    if sorted.len() > 0 && !in_order(sorted.last().stamp(), t.stamp(), newest_first) {
        insert_in_order(sorted.drop_last(), t, newest_first).push(sorted.last())
    } else {
        sorted.push(t)
    }
}

/// The rows of `rows` ordered by timestamp, ties in the order given.
pub open spec fn stable_sorted<T: Timestamped>(rows: Seq<T>, newest_first: bool) -> Seq<T>
    decreases rows.len(),
{
    if rows.len() == 0 {
        Seq::empty()
    } else {
        insert_in_order(stable_sorted(rows.drop_last(), newest_first), rows.last(), newest_first)
    }
}

/// Placing a row at its insertion point is what `insert_in_order` does.
pub proof fn lemma_insert_at_point<T: Timestamped>(
    sorted: Seq<T>,
    t: T,
    newest_first: bool,
    p: int,
)
    requires
        0 <= p <= sorted.len(),
        forall|j: int| p <= j < sorted.len() ==> !in_order(sorted[j].stamp(), t.stamp(), newest_first),
        p > 0 ==> in_order(sorted[p - 1].stamp(), t.stamp(), newest_first),
    ensures
        insert_in_order(sorted, t, newest_first) == sorted.insert(p, t),
    decreases sorted.len(),
{
    if p == sorted.len() {
        assert(sorted.insert(p, t) =~= sorted.push(t));
    } else {
        let front = sorted.drop_last();
        lemma_insert_at_point(front, t, newest_first, p);
        assert(front.insert(p, t).push(sorted.last()) =~= sorted.insert(p, t));
    }
}

/// Inserting a row keeps an ordered sequence ordered, and adds exactly that row.
pub proof fn lemma_insert_in_order<T: Timestamped>(sorted: Seq<T>, t: T, newest_first: bool)
    requires
        is_ordered(sorted, newest_first),
    ensures
        is_ordered(insert_in_order(sorted, t, newest_first), newest_first),
        insert_in_order(sorted, t, newest_first).len() == sorted.len() + 1,
        insert_in_order(sorted, t, newest_first).to_multiset() == sorted.to_multiset().insert(t),
    decreases sorted.len(),
{
    broadcast use vstd::seq_lib::to_multiset_build;

    let out = insert_in_order(sorted, t, newest_first);
    if sorted.len() > 0 && !in_order(sorted.last().stamp(), t.stamp(), newest_first) {
        let front = sorted.drop_last();
        let last = sorted.last();
        assert(is_ordered(front, newest_first)) by {
            assert forall|i: int, j: int| 0 <= i < j < front.len() implies in_order(
                #[trigger] front[i].stamp(),
                #[trigger] front[j].stamp(),
                newest_first,
            ) by {
                assert(front[i] == sorted[i] && front[j] == sorted[j]);
            }
        }
        lemma_insert_in_order(front, t, newest_first);
        let inner = insert_in_order(front, t, newest_first);
        assert(out == inner.push(last));
        assert(sorted =~= front.push(last));
        assert(out.to_multiset() == sorted.to_multiset().insert(t)) by {
            assert(front.to_multiset().insert(t).insert(last) =~= front.to_multiset().insert(
                last,
            ).insert(t));
        }
        // Every row of `inner` is `t` or a row of `front`, so it may stand before `last`.
        assert forall|i: int, j: int| 0 <= i < j < out.len() implies in_order(
            #[trigger] out[i].stamp(),
            #[trigger] out[j].stamp(),
            newest_first,
        ) by {
            if j < inner.len() {
                assert(out[i] == inner[i] && out[j] == inner[j]);
            } else {
                assert(out[j] == last);
                assert(out[i] == inner[i]);
                assert(inner.to_multiset().count(inner[i]) > 0) by {
                    vstd::seq_lib::to_multiset_contains(inner, inner[i]);
                    assert(inner.contains(inner[i]));
                }
                if inner[i] == t {
                } else {
                    assert(front.to_multiset().count(inner[i]) > 0);
                    vstd::seq_lib::to_multiset_contains(front, inner[i]);
                    let k = choose|k: int| 0 <= k < front.len() && front[k] == inner[i];
                    assert(sorted[k] == inner[i]);
                    assert(in_order(
                        sorted[k].stamp(),
                        sorted[sorted.len() - 1].stamp(),
                        newest_first,
                    ));
                }
            }
        }
    } else {
        assert forall|i: int, j: int| 0 <= i < j < out.len() implies in_order(
            #[trigger] out[i].stamp(),
            #[trigger] out[j].stamp(),
            newest_first,
        ) by {
            if j < sorted.len() {
                assert(out[i] == sorted[i] && out[j] == sorted[j]);
            } else if sorted.len() > 0 {
                assert(out[i] == sorted[i]);
                if i < sorted.len() - 1 {
                    assert(in_order(
                        sorted[i].stamp(),
                        sorted[sorted.len() - 1].stamp(),
                        newest_first,
                    ));
                }
            }
        }
    }
}

/// A stable sort yields an ordered rearrangement of its input.
pub proof fn lemma_stable_sorted<T: Timestamped>(rows: Seq<T>, newest_first: bool)
    ensures
        is_ordered(stable_sorted(rows, newest_first), newest_first),
        stable_sorted(rows, newest_first).len() == rows.len(),
        stable_sorted(rows, newest_first).to_multiset() == rows.to_multiset(),
    decreases rows.len(),
{
    broadcast use vstd::seq_lib::to_multiset_build;

    if rows.len() == 0 {
        assert(rows =~= Seq::<T>::empty());
    } else {
        let front = rows.drop_last();
        lemma_stable_sorted(front, newest_first);
        lemma_insert_in_order(stable_sorted(front, newest_first), rows.last(), newest_first);
        assert(rows =~= front.push(rows.last()));
    }
}

/// Rows that stand in order already are left as they are.
pub proof fn lemma_sorted_stays<T: Timestamped>(rows: Seq<T>, newest_first: bool)
    requires
        is_ordered(rows, newest_first),
    ensures
        stable_sorted(rows, newest_first) == rows,
    decreases rows.len(),
{
    if rows.len() == 0 {
        assert(rows =~= Seq::<T>::empty());
    } else {
        let front = rows.drop_last();
        assert(is_ordered(front, newest_first)) by {
            assert forall|i: int, j: int| 0 <= i < j < front.len() implies in_order(
                #[trigger] front[i].stamp(),
                #[trigger] front[j].stamp(),
                newest_first,
            ) by {
                assert(front[i] == rows[i] && front[j] == rows[j]);
            }
        }
        lemma_sorted_stays(front, newest_first);
        if front.len() > 0 {
            assert(in_order(
                rows[front.len() - 1].stamp(),
                rows[rows.len() - 1].stamp(),
                newest_first,
            ));
            assert(front.last() == rows[front.len() - 1]);
        }
        assert(front.push(rows.last()) =~= rows);
    }
}

/// Leaving rows out of an ordered sequence leaves it ordered.
pub proof fn lemma_filter_stays_ordered<T: Timestamped>(
    rows: Seq<T>,
    keep: spec_fn(T) -> bool,
    newest_first: bool,
)
    requires
        is_ordered(rows, newest_first),
    ensures
        is_ordered(rows.filter(keep), newest_first),
    decreases rows.len(),
{
    reveal(Seq::filter);
    if rows.len() > 0 {
        let front = rows.drop_last();
        let last = rows.last();
        assert(is_ordered(front, newest_first)) by {
            assert forall|i: int, j: int| 0 <= i < j < front.len() implies in_order(
                #[trigger] front[i].stamp(),
                #[trigger] front[j].stamp(),
                newest_first,
            ) by {
                assert(front[i] == rows[i] && front[j] == rows[j]);
            }
        }
        lemma_filter_stays_ordered(front, keep, newest_first);
        let kept = rows.filter(keep);
        let inner = front.filter(keep);
        if keep(last) {
            assert(kept == inner.push(last));
            assert forall|i: int, j: int| 0 <= i < j < kept.len() implies in_order(
                #[trigger] kept[i].stamp(),
                #[trigger] kept[j].stamp(),
                newest_first,
            ) by {
                if j < inner.len() {
                    assert(kept[i] == inner[i] && kept[j] == inner[j]);
                } else {
                    assert(kept[i] == inner[i]);
                    assert(inner.contains(inner[i]));
                    front.lemma_filter_contains_rev(keep, inner[i]);
                    let k = choose|k: int| 0 <= k < front.len() && front[k] == inner[i];
                    assert(rows[k] == inner[i]);
                    assert(in_order(rows[k].stamp(), rows[rows.len() - 1].stamp(), newest_first));
                }
            }
        } else {
            assert(kept == inner);
        }
    }
}

/// Sorting one more row is inserting it into the sorted rest.
pub proof fn lemma_stable_sorted_push<T: Timestamped>(rows: Seq<T>, t: T, newest_first: bool)
    ensures
        stable_sorted(rows.push(t), newest_first) == insert_in_order(
            stable_sorted(rows, newest_first),
            t,
            newest_first,
        ),
{
    assert(rows.push(t).drop_last() =~= rows);
}

/// Index at which a row stamped `stamp` is inserted into `sorted`.
fn insertion_point<T: Timestamped>(sorted: &Vec<T>, stamp: i64, newest_first: bool) -> (p: usize)
    ensures
        p <= sorted.len(),
        forall|j: int| p <= j < sorted.len() ==> !in_order(sorted@[j].stamp(), stamp as int, newest_first),
        p > 0 ==> in_order(sorted@[p - 1].stamp(), stamp as int, newest_first),
{
    let mut p: usize = sorted.len();
    while p > 0
        invariant
            p <= sorted.len(),
            forall|j: int|
                p <= j < sorted.len() ==> !in_order(sorted@[j].stamp(), stamp as int, newest_first),
        decreases p,
    {
        let other: i64 = sorted[p - 1].timestamp();
        let keeps: bool = if newest_first {
            other >= stamp
        } else {
            other <= stamp
        };
        if keeps {
            return p;
        }
        p -= 1;
    }
    p
}

/// Orders `rows` by timestamp, oldest first unless `newest_first`; rows with
/// equal timestamps keep their relative order.
pub fn sort_by_time<T: Timestamped>(rows: Vec<T>, newest_first: bool) -> (out: Vec<T>)
    ensures
        out@ == stable_sorted(rows@, newest_first),
        is_ordered(out@, newest_first),
        out@.to_multiset() == rows@.to_multiset(),
        out.len() == rows.len(),
{
    let ghost all = rows@;
    let mut out: Vec<T> = Vec::new();
    for t in it: rows
        invariant
            it.seq() == all,
            out@ == stable_sorted(all.take(it.index() as int), newest_first),
    {
        let ghost done = all.take(it.index() as int);
        let p = insertion_point(&out, t.timestamp(), newest_first);
        proof {
            lemma_insert_at_point(out@, t, newest_first, p as int);
            lemma_stable_sorted_push(done, t, newest_first);
            assert(all.take(it.index() as int + 1) =~= done.push(t));
        }
        out.insert(p, t);
    }
    proof {
        assert(all.take(all.len() as int) =~= all);
        lemma_stable_sorted(all, newest_first);
    }
    out
}

/// `rows` in the opposite order.
pub fn reversed<T>(rows: Vec<T>) -> (out: Vec<T>)
    ensures
        out@ == rows@.reverse(),
{
    let ghost all = rows@;
    let mut rows = rows;
    let mut out: Vec<T> = Vec::new();
    while rows.len() > 0
        invariant
            rows.len() <= all.len(),
            rows@ == all.take(rows.len() as int),
            out.len() == all.len() - rows.len(),
            forall|i: int| 0 <= i < out.len() ==> out@[i] == all[all.len() - 1 - i],
        decreases rows.len(),
    {
        let t = rows.pop().unwrap();
        out.push(t);
    }
    assert(out@ =~= all.reverse());
    out
}

/// The `n` newest rows of `rows`, oldest first: the rows are put newest
/// first, cut to `n`, and turned around.
pub open spec fn newest_window<T: Timestamped>(rows: Seq<T>, n: nat) -> Seq<T> {
    let newest = stable_sorted(rows, true);
    if n >= newest.len() {
        newest.reverse()
    } else {
        newest.take(n as int).reverse()
    }
}

/// The window holds `n` rows, or all of them if there are fewer, oldest
/// first; each is one of the rows given, and no row left out is newer than a
/// row of the window.
pub proof fn lemma_newest_window<T: Timestamped>(rows: Seq<T>, n: nat)
    ensures
        newest_window(rows, n).len() == if n <= rows.len() {
            n
        } else {
            rows.len()
        },
        is_ordered(newest_window(rows, n), false),
        forall|i: int|
            0 <= i < newest_window(rows, n).len() ==> rows.contains(
                #[trigger] newest_window(rows, n)[i],
            ),
        forall|i: int, j: int|
            0 <= i < newest_window(rows, n).len() && newest_window(rows, n).len() <= j < rows.len()
                ==> (#[trigger] stable_sorted(rows, true)[j]).stamp() <= (#[trigger] newest_window(
                rows,
                n,
            )[i]).stamp(),
{
    let newest = stable_sorted(rows, true);
    let window = newest_window(rows, n);
    lemma_stable_sorted(rows, true);
    let k = window.len() as int;
    assert forall|i: int| 0 <= i < k implies #[trigger] window[i] == newest[k - 1 - i] by {}
    assert forall|i: int, j: int| 0 <= i < j < k implies in_order(
        #[trigger] window[i].stamp(),
        #[trigger] window[j].stamp(),
        false,
    ) by {
        assert(in_order(newest[k - 1 - j].stamp(), newest[k - 1 - i].stamp(), true));
    }
    assert forall|i: int| 0 <= i < k implies rows.contains(#[trigger] window[i]) by {
        let row = newest[k - 1 - i];
        assert(newest.contains(row));
        vstd::seq_lib::to_multiset_contains(newest, row);
        vstd::seq_lib::to_multiset_contains(rows, row);
    }
    assert forall|i: int, j: int| 0 <= i < k && k <= j < rows.len() implies (
    #[trigger] newest[j]).stamp() <= (#[trigger] window[i]).stamp() by {
        assert(in_order(newest[k - 1 - i].stamp(), newest[j].stamp(), true));
    }
}

/// The `n` newest rows of an unordered scan, oldest first.
pub fn recent_window<T: Timestamped>(rows: Vec<T>, n: usize) -> (window: Vec<T>)
    ensures
        window@ == newest_window(rows@, n as nat),
{
    let mut newest = sort_by_time(rows, true);
    newest.truncate(n);
    reversed(newest)
}

} // verus!
