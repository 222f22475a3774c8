//! Sequences of cells: what the operations on a container mean for the
//! sequence it holds, and what follows from that.

use vstd::prelude::*;

verus! {

/// The cells of `cells` outside the run `[begin, end)`, in order.
pub open spec fn without_run<T>(cells: Seq<T>, begin: int, end: int) -> Seq<T> {
    cells.subrange(0, begin) + cells.subrange(end, cells.len() as int)
}

/// The cells of `cells` whose mark in `dropped` is false, in their order.
/// A cell without a mark stays.
pub open spec fn kept<T>(cells: Seq<T>, dropped: Seq<bool>) -> Seq<T>
    decreases cells.len(),
{
    if cells.len() == 0 {
        Seq::empty()
    } else if dropped.len() > 0 && dropped[0] {
        kept(cells.skip(1), dropped.skip(1))
    } else {
        seq![cells[0]] + kept(cells.skip(1), dropped.skip(1))
    }
}

/// Number of unmarked positions of `dropped` in front of `at`.
pub open spec fn kept_before(dropped: Seq<bool>, at: int) -> int
    decreases at,
{
    if at <= 0 {
        0
    } else if dropped[at - 1] {
        kept_before(dropped, at - 1)
    } else {
        kept_before(dropped, at - 1) + 1
    }
}

/// What a sequence becomes when the values of `values` are appended to
/// `start` one at a time, first to last.
pub open spec fn pushed_back<T>(start: Seq<T>, values: Seq<T>) -> Seq<T>
    decreases values.len(),
{
    if values.len() == 0 {
        start
    } else {
        pushed_back(start, values.drop_last()).push(values.last())
    }
}

/// Where no cell from `from` up to `to` is marked, all of them are kept.
pub proof fn lemma_kept_run<T>(cells: Seq<T>, dropped: Seq<bool>, from: int, to: int)
    requires
        cells.len() == dropped.len(),
        0 <= from <= to <= cells.len(),
        forall|j: int| from <= j < to ==> !dropped[j],
    ensures
        kept(cells.skip(from), dropped.skip(from)) == cells.subrange(from, to) + kept(
            cells.skip(to),
            dropped.skip(to),
        ),
    decreases to - from,
{
    if from == to {
        assert(cells.subrange(from, to) =~= Seq::<T>::empty());
        assert(cells.subrange(from, to) + kept(cells.skip(to), dropped.skip(to)) =~= kept(
            cells.skip(to),
            dropped.skip(to),
        ));
    } else {
        lemma_kept_run(cells, dropped, from + 1, to);
        assert(cells.skip(from).skip(1) =~= cells.skip(from + 1));
        assert(dropped.skip(from).skip(1) =~= dropped.skip(from + 1));
        assert(!dropped.skip(from)[0]);
        assert(seq![cells.skip(from)[0]] + cells.subrange(from + 1, to) =~= cells.subrange(
            from,
            to,
        ));
        assert(seq![cells.skip(from)[0]] + (cells.subrange(from + 1, to) + kept(
            cells.skip(to),
            dropped.skip(to),
        )) =~= cells.subrange(from, to) + kept(cells.skip(to), dropped.skip(to)));
    }
}

/// Behind a marked cell at `at`, what is kept from `at` on is the unmarked
/// run up to `to` and what is kept from `to` on.
pub proof fn lemma_kept_after_dropped<T>(cells: Seq<T>, dropped: Seq<bool>, at: int, to: int)
    requires
        cells.len() == dropped.len(),
        0 <= at < to <= cells.len(),
        dropped[at],
        forall|j: int| at < j < to ==> !dropped[j],
    ensures
        kept(cells.skip(at), dropped.skip(at)) == cells.subrange(at + 1, to) + kept(
            cells.skip(to),
            dropped.skip(to),
        ),
{
    lemma_kept_run(cells, dropped, at + 1, to);
    assert(cells.skip(at).skip(1) =~= cells.skip(at + 1));
    assert(dropped.skip(at).skip(1) =~= dropped.skip(at + 1));
    assert(dropped.skip(at)[0]);
}

/// `cells` brought to `new_len` cells: cut behind the first `new_len`, or
/// filled up at the end with `fill`.
pub open spec fn resized<T>(cells: Seq<T>, new_len: nat, fill: T) -> Seq<T> {
    if new_len <= cells.len() {
        cells.take(new_len as int)
    } else {
        cells + Seq::new((new_len - cells.len()) as nat, |i: int| fill)
    }
}

/// Where a clone of `fill` cannot differ from `fill`, a sequence that keeps
/// the first cells of `before`, has `new_len` cells and holds clones of
/// `fill` behind those of `before` is `before` resized with `fill`.
pub proof fn lemma_resized_with_faithful_clones<T: Clone>(
    before: Seq<T>,
    after: Seq<T>,
    new_len: nat,
    fill: T,
)
    requires
        after.len() == new_len,
        new_len <= before.len() ==> after == before.take(new_len as int),
        new_len >= before.len() ==> after.take(before.len() as int) == before,
        forall|i: int| before.len() <= i < new_len ==> cloned::<T>(fill, #[trigger] after[i]),
        forall|copy: T| cloned::<T>(fill, copy) ==> copy == fill,
    ensures
        after == resized(before, new_len, fill),
{
    if new_len > before.len() {
        let target = resized(before, new_len, fill);
        assert forall|i: int| 0 <= i < new_len implies after[i] == target[i] by {
            if i < before.len() {
                assert(after.take(before.len() as int)[i] == before[i]);
            }
        }
        assert(after =~= target);
    }
}

/// Appending values one at a time gives the starting cells followed by the
/// values in the order of the calls. Starting from nothing, the result is
/// the values themselves, as many as there were calls.
pub proof fn lemma_push_back_sequence<T>(start: Seq<T>, values: Seq<T>)
    ensures
        pushed_back(start, values) == start + values,
        pushed_back(Seq::<T>::empty(), values) == values,
        pushed_back(Seq::<T>::empty(), values).len() == values.len(),
    decreases values.len(),
{
    if values.len() == 0 {
        assert(start + values =~= start);
        assert(Seq::<T>::empty() + values =~= values);
    } else {
        lemma_push_back_sequence(start, values.drop_last());
        lemma_push_back_sequence(Seq::<T>::empty(), values.drop_last());
        assert((start + values.drop_last()).push(values.last()) =~= start + values);
        assert(values.drop_last().push(values.last()) =~= values);
    }
}

/// Counting unmarked positions from the second one on.
proof fn lemma_kept_before_shift(dropped: Seq<bool>, at: int)
    requires
        1 <= at <= dropped.len(),
    ensures
        kept_before(dropped, at) == kept_before(dropped.skip(1), at - 1) + if dropped[0] {
            0int
        } else {
            1int
        },
    decreases at,
{
    if at > 1 {
        lemma_kept_before_shift(dropped, at - 1);
        assert(dropped.skip(1)[at - 2] == dropped[at - 1]);
    } else {
        assert(kept_before(dropped, 0) == 0);
        assert(kept_before(dropped.skip(1), 0) == 0);
    }
}

/// The count of unmarked positions never falls, and rises behind an
/// unmarked position.
pub proof fn lemma_kept_before_rises(dropped: Seq<bool>, i: int, j: int)
    requires
        0 <= i < j <= dropped.len(),
    ensures
        0 <= kept_before(dropped, i) <= kept_before(dropped, j),
        !dropped[i] ==> kept_before(dropped, i) < kept_before(dropped, j),
    decreases j,
{
    if i > 0 {
        lemma_kept_before_rises(dropped, 0, i);
    }
    if j > i + 1 {
        lemma_kept_before_rises(dropped, i, j - 1);
    }
}

/// What is kept is exactly the unmarked cells, in their order: there are as
/// many kept cells as unmarked positions, and the cell at an unmarked
/// position `i` stands behind as many kept cells as there are unmarked
/// positions in front of `i`.
pub proof fn lemma_kept_selects<T>(cells: Seq<T>, dropped: Seq<bool>)
    requires
        cells.len() == dropped.len(),
    ensures
        kept(cells, dropped).len() == kept_before(dropped, cells.len() as int),
        forall|i: int|
            0 <= i < cells.len() && !dropped[i] ==> 0 <= #[trigger] kept_before(dropped, i) < kept(
                cells,
                dropped,
            ).len() && kept(cells, dropped)[kept_before(dropped, i)] == cells[i],
        forall|i: int, j: int|
            0 <= i < j < cells.len() && !dropped[i] && !dropped[j] ==> #[trigger] kept_before(
                dropped,
                i,
            ) < #[trigger] kept_before(dropped, j),
    decreases cells.len(),
{
    let n = cells.len() as int;
    if n > 0 {
        let rest = cells.skip(1);
        let marks = dropped.skip(1);
        lemma_kept_selects(rest, marks);
        lemma_kept_before_shift(dropped, n);
        let head: int = if dropped[0] { 0 } else { 1 };
        assert(kept(cells, dropped).len() == head + kept(rest, marks).len());
        assert forall|i: int| 0 <= i < n && !dropped[i] implies 0 <= #[trigger] kept_before(
            dropped,
            i,
        ) < kept(cells, dropped).len() && kept(cells, dropped)[kept_before(dropped, i)]
            == cells[i] by {
            if i > 0 {
                lemma_kept_before_shift(dropped, i);
                assert(marks[i - 1] == dropped[i]);
                assert(rest[i - 1] == cells[i]);
                let k = kept_before(marks, i - 1);
                assert(kept(rest, marks)[k] == rest[i - 1]);
                assert(kept(cells, dropped)[head + k] == kept(rest, marks)[k]);
            }
        }
    }
    assert forall|i: int, j: int| 0 <= i < j < n && !dropped[i] && !dropped[j] implies #[trigger] kept_before(
        dropped,
        i,
    ) < #[trigger] kept_before(dropped, j) by {
        lemma_kept_before_rises(dropped, i, j);
    }
}

} // verus!
