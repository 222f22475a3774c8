//! Dynamic arrays: the capabilities every container shares, and one wrapper
//! for each kind of cell.

use crate::cells::kept;
use crate::cells::lemma_kept_after_dropped;
use crate::cells::lemma_kept_run;
use crate::cells::without_run;
use crate::raw::RawBitVector;
use crate::raw::RawVector;
use std::ops::Deref;
use std::ops::DerefMut;
use std::ops::Index;
use vstd::prelude::*;

verus! {

/// A container whose cells can be counted and seen side by side.
pub trait VectorSlice {
    type Item;

    /// The cells, first to last. An implementor that can say what it holds
    /// states it here; of any other, nothing is known but what `size` and
    /// the slices show.
    open spec fn view(&self) -> Seq<Self::Item> {
        arbitrary()
    }

    /// Number of cells.
    fn size(&self) -> (n: usize)
        ensures
            n == self@.len(),
    ;

    /// The cells as they are now.
    fn as_slice(&self) -> (cells: &[Self::Item])
        ensures
            cells@ == self@,
    ;

    /// The cells, open to writing in place. What is written through the
    /// slice is what the container holds afterwards.
    fn as_mut_slice(&mut self) -> (cells: &mut [Self::Item])
        ensures
            cells@ == old(self)@,
            final(self)@ == final(cells)@,
    ;
}

/// A container that can give cells up.
pub trait VectorRemove: VectorSlice {
    /// Removes the `len` cells that start at `offset`.
    fn erase_range(&mut self, offset: usize, len: usize)
        requires
            offset + len <= old(self)@.len(),
        ensures
            final(self)@ == without_run(old(self)@, offset as int, offset + len),
    ;

    /// Removes the last cell.
    fn pop_back(&mut self)
        requires
            old(self)@.len() > 0,
        ensures
            final(self)@ == old(self)@.drop_last(),
    {
        let last: usize = self.size() - 1;
        self.erase(last);
        assert(self@ =~= old(self)@.drop_last());
    }

    /// Removes the cell at `index`.
    fn erase(&mut self, index: usize)
        requires
            index < old(self)@.len(),
        ensures
            final(self)@ == old(self)@.remove(index as int),
    {
        self.erase_range(index, 1);
        assert(self@ =~= old(self)@.remove(index as int));
    }

    /// Removes every cell, the last one first.
    fn clear(&mut self)
        ensures
            final(self)@ == Seq::<Self::Item>::empty(),
    {
        while self.size() > 0
            decreases self@.len(),
        {
            self.pop_back();
        }
        assert(self@ =~= Seq::<Self::Item>::empty());
    }

    /// Asks `pred` about every cell, first to last, with the cell's index,
    /// and removes the cells for which it answers true. The other cells keep
    /// their order.
    fn retain<F: Fn(usize, &Self::Item) -> bool>(&mut self, pred: F)
        requires
            forall|i: int|
                0 <= i < old(self)@.len() ==> call_requires(pred, (i as usize, &old(self)@[i])),
        ensures
            exists|dropped: Seq<bool>|
                {
                    &&& dropped.len() == old(self)@.len()
                    &&& forall|i: int|
                        0 <= i < dropped.len() ==> call_ensures(
                            pred,
                            (i as usize, &old(self)@[i]),
                            #[trigger] dropped[i],
                        )
                    &&& final(self)@ == kept(old(self)@, dropped)
                },
    {
        let n: usize = self.size();
        let mut removed: Vec<usize> = Vec::new();
        let ghost mut dropped: Seq<bool> = Seq::empty();
        let cells = self.as_slice();
        let mut i: usize = 0;
        while i < n
            invariant
                n == cells@.len(),
                cells@ == old(self)@,
                i <= n,
                dropped.len() == i,
                forall|j: int| 0 <= j < n ==> call_requires(pred, (j as usize, &cells@[j])),
                forall|j: int|
                    0 <= j < i ==> call_ensures(
                        pred,
                        (j as usize, &cells@[j]),
                        #[trigger] dropped[j],
                    ),
                forall|k: int| 0 <= k < removed@.len() ==> 0 <= #[trigger] removed@[k] < i,
                forall|k: int| 0 <= k < removed@.len() ==> dropped[#[trigger] removed@[k] as int],
                forall|k: int, l: int|
                    0 <= k < l < removed@.len() ==> #[trigger] removed@[k] < #[trigger] removed@[l],
                forall|j: int|
                    0 <= j < i && #[trigger] dropped[j] ==> exists|k: int|
                        0 <= k < removed@.len() && #[trigger] removed@[k] == j,
            decreases n - i,
        {
            let answer: bool = pred(i, &cells[i]);
            let ghost removed_before = removed@;
            let ghost dropped_before = dropped;
            if answer {
                removed.push(i);
            }
            proof {
                dropped = dropped.push(answer);
                assert forall|j: int| 0 <= j < i + 1 && #[trigger] dropped[j] implies exists|k: int|
                    0 <= k < removed@.len() && #[trigger] removed@[k] == j by {
                    if j < i {
                        assert(dropped_before[j]);
                        let k = choose|k: int|
                            0 <= k < removed_before.len() && #[trigger] removed_before[k] == j;
                        assert(removed@[k] == j);
                    } else {
                        assert(removed@[removed_before.len() as int] == j);
                    }
                }
            }
            i += 1;
        }
        let mut k: usize = removed.len();
        let ghost mut bound: int = n as int;
        proof {
            assert(old(self)@.skip(n as int) =~= Seq::<Self::Item>::empty());
            assert(self@ =~= old(self)@.take(bound) + kept(
                old(self)@.skip(bound),
                dropped.skip(bound),
            ));
        }
        while k > 0
            invariant
                k <= removed@.len(),
                n == old(self)@.len(),
                dropped.len() == n,
                0 <= bound <= n,
                k < removed@.len() ==> bound == removed@[k as int],
                k == removed@.len() ==> bound == n,
                forall|m: int| 0 <= m < removed@.len() ==> 0 <= #[trigger] removed@[m] < n,
                forall|m: int| 0 <= m < removed@.len() ==> dropped[#[trigger] removed@[m] as int],
                forall|m: int, l: int|
                    0 <= m < l < removed@.len() ==> #[trigger] removed@[m] < #[trigger] removed@[l],
                forall|j: int|
                    0 <= j < n && #[trigger] dropped[j] ==> exists|m: int|
                        0 <= m < removed@.len() && #[trigger] removed@[m] == j,
                self@ == old(self)@.take(bound) + kept(old(self)@.skip(bound), dropped.skip(bound)),
            decreases k,
        {
            k -= 1;
            let index: usize = removed[k];
            proof {
                assert forall|j: int| index < j < bound implies !dropped[j] by {
                    if dropped[j] {
                        let m = choose|m: int| 0 <= m < removed@.len() && #[trigger] removed@[m] == j;
                        if m <= k {
                            assert(removed@[m] <= removed@[k as int]);
                        } else {
                            assert(m >= k + 1);
                            if k + 1 < removed@.len() {
                                assert(removed@[k + 1] <= removed@[m]);
                            }
                        }
                    }
                }
                lemma_kept_after_dropped(old(self)@, dropped, index as int, bound);
            }
            let ghost before = self@;
            self.erase(index);
            proof {
                assert(self@ =~= old(self)@.take(index as int) + kept(
                    old(self)@.skip(index as int),
                    dropped.skip(index as int),
                ));
                bound = index as int;
            }
        }
        proof {
            assert forall|j: int| 0 <= j < bound implies !dropped[j] by {
                if dropped[j] {
                    let m = choose|m: int| 0 <= m < removed@.len() && #[trigger] removed@[m] == j;
                    if removed@.len() > 0 {
                        assert(removed@[0] <= removed@[m]);
                    }
                }
            }
            lemma_kept_run(old(self)@, dropped, 0, bound);
            assert(old(self)@.skip(0) =~= old(self)@);
            assert(dropped.skip(0) =~= dropped);
            assert(old(self)@.subrange(0, bound) =~= old(self)@.take(bound));
        }
    }

    /// Removes the cells behind the first `size`.
    fn truncate(&mut self, size: usize)
        requires
            size <= old(self)@.len(),
        ensures
            final(self)@ == old(self)@.take(size as int),
    {
        let excess: usize = self.size() - size;
        self.erase_range(size, excess);
        assert(self@ =~= old(self)@.take(size as int));
    }
}

/// A container that can take new cells of type `T` at its end.
pub trait VectorInsert<T>: VectorRemove + VectorSlice<Item = T> {
    /// Appends one cell.
    fn push_back(&mut self, v: T)
        ensures
            final(self)@ == old(self)@.push(v),
    ;

    /// Replaces the cells by the values of `vs`, in their order.
    fn assign(&mut self, vs: Vec<T>)
        ensures
            final(self)@ == vs@,
    {
        self.clear();
        for v in it: vs
            invariant
                it.seq() == vs@,
                self@ == vs@.take(it.index()),
        {
            self.push_back(v);
            assert(self@ =~= vs@.take(it.index() + 1));
        }
        assert(vs@.take(vs@.len() as int) =~= vs@);
    }

    /// Brings the number of cells to `new_len`: appends clones of `fill`
    /// one by one while there are too few, removes the last cell while there
    /// are too many.
    fn resize(&mut self, new_len: usize, fill: T) where T: Clone
        ensures
            final(self)@.len() == new_len,
            new_len == old(self)@.len() ==> final(self)@ == old(self)@,
            new_len <= old(self)@.len() ==> final(self)@ == old(self)@.take(new_len as int),
            new_len >= old(self)@.len() ==> final(self)@.take(old(self)@.len() as int) == old(
                self,
            )@,
            forall|i: int|
                old(self)@.len() <= i < new_len ==> cloned::<T>(fill, #[trigger] final(self)@[i]),
    {
        while self.size() < new_len
            invariant
                old(self)@.len() <= new_len ==> old(self)@.len() <= self@.len() <= new_len,
                old(self)@.len() > new_len ==> self@ == old(self)@,
                self@.take(old(self)@.len() as int) == old(self)@,
                forall|i: int|
                    old(self)@.len() <= i < self@.len() ==> cloned::<T>(fill, #[trigger] self@[i]),
            decreases new_len - self@.len(),
        {
            let ghost before = self@;
            self.push_back(fill.clone());
            assert(self@.take(old(self)@.len() as int) =~= before.take(old(self)@.len() as int));
        }
        while self.size() > new_len
            invariant
                new_len <= self@.len() <= old(self)@.len() || self@.len() == new_len,
                self@.len() > new_len ==> self@ == old(self)@.take(self@.len() as int),
                new_len <= old(self)@.len() ==> self@ == old(self)@.take(self@.len() as int),
                new_len >= old(self)@.len() ==> self@.take(old(self)@.len() as int) == old(self)@,
                forall|i: int|
                    old(self)@.len() <= i < self@.len() ==> cloned::<T>(fill, #[trigger] self@[i]),
            decreases self@.len(),
        {
            self.pop_back();
            assert(self@ =~= old(self)@.take(self@.len() as int));
        }
    }
}

/// Wrapper over a bit-packed array of booleans. The packed cells cannot be
/// seen side by side, so the wrapper offers no access to them.
#[derive(Debug)]
pub struct VectorOfBool(RawBitVector);

/// Wrapper over an array of bytes.
pub struct VectorOfU8(RawVector<u8>);

impl VectorOfU8 {
    /// Lays the wrapper over a live array.
    pub fn overlay(raw: RawVector<u8>) -> (vector: Self)
        ensures
            vector@ == raw@,
    {
        VectorOfU8(raw)
    }
}

impl VectorSlice for VectorOfU8 {
    type Item = u8;

    closed spec fn view(&self) -> Seq<u8> {
        self.0@
    }

    fn size(&self) -> (n: usize) {
        self.0.size()
    }

    fn as_slice(&self) -> (cells: &[u8]) {
        self.0.data()
    }

    fn as_mut_slice(&mut self) -> (cells: &mut [u8]) {
        self.0.data_mut()
    }
}

impl VectorRemove for VectorOfU8 {
    fn erase_range(&mut self, offset: usize, len: usize) {
        proof {
            self.0.lemma_size_fits();
        }
        let begin: usize = offset;
        let end: usize = offset + len;
        self.0.erase(begin, end);
    }
}

impl VectorInsert<u8> for VectorOfU8 {
    fn push_back(&mut self, v: u8) {
        self.0.push_back(v);
    }
}

impl Deref for VectorOfU8 {
    type Target = [u8];

    fn deref(&self) -> (cells: &[u8])
        ensures
            cells@ == self@,
    {
        self.as_slice()
    }
}

impl DerefMut for VectorOfU8 {
    fn deref_mut(&mut self) -> (cells: &mut [u8])
        ensures
            cells@ == old(self)@,
            final(self)@ == final(cells)@,
    {
        self.as_mut_slice()
    }
}

impl<'a> IntoIterator for &'a VectorOfU8 {
    type Item = &'a u8;

    type IntoIter = std::slice::Iter<'a, u8>;

    /// A walk over the cells as they are now, first to last.
    fn into_iter(self) -> (walk: std::slice::Iter<'a, u8>)
        ensures
            vstd::std_specs::slice::into_iter_elts(walk) == self@,
            vstd::std_specs::iter::IteratorSpec::decrease(&walk) is Some,
            vstd::std_specs::iter::IteratorSpec::initial_value_relation(&walk, &walk),
    {
        self.as_slice().iter()
    }
}

/// Wrapper over an array of 32-bit signed integers.
pub struct VectorOfI32(RawVector<i32>);

impl VectorOfI32 {
    /// Lays the wrapper over a live array.
    pub fn overlay(raw: RawVector<i32>) -> (vector: Self)
        ensures
            vector@ == raw@,
    {
        VectorOfI32(raw)
    }
}

impl VectorSlice for VectorOfI32 {
    type Item = i32;

    closed spec fn view(&self) -> Seq<i32> {
        self.0@
    }

    fn size(&self) -> (n: usize) {
        self.0.size()
    }

    fn as_slice(&self) -> (cells: &[i32]) {
        self.0.data()
    }

    fn as_mut_slice(&mut self) -> (cells: &mut [i32]) {
        self.0.data_mut()
    }
}

impl VectorRemove for VectorOfI32 {
    fn erase_range(&mut self, offset: usize, len: usize) {
        proof {
            self.0.lemma_size_fits();
        }
        let begin: usize = offset;
        let end: usize = offset + len;
        self.0.erase(begin, end);
    }
}

impl VectorInsert<i32> for VectorOfI32 {
    fn push_back(&mut self, v: i32) {
        self.0.push_back(v);
    }
}

impl Deref for VectorOfI32 {
    type Target = [i32];

    fn deref(&self) -> (cells: &[i32])
        ensures
            cells@ == self@,
    {
        self.as_slice()
    }
}

impl DerefMut for VectorOfI32 {
    fn deref_mut(&mut self) -> (cells: &mut [i32])
        ensures
            cells@ == old(self)@,
            final(self)@ == final(cells)@,
    {
        self.as_mut_slice()
    }
}

impl<'a> IntoIterator for &'a VectorOfI32 {
    type Item = &'a i32;

    type IntoIter = std::slice::Iter<'a, i32>;

    /// A walk over the cells as they are now, first to last.
    fn into_iter(self) -> (walk: std::slice::Iter<'a, i32>)
        ensures
            vstd::std_specs::slice::into_iter_elts(walk) == self@,
            vstd::std_specs::iter::IteratorSpec::decrease(&walk) is Some,
            vstd::std_specs::iter::IteratorSpec::initial_value_relation(&walk, &walk),
    {
        self.as_slice().iter()
    }
}

/// Wrapper over an array of 64-bit signed integers.
pub struct VectorOfI64(RawVector<i64>);

impl VectorOfI64 {
    /// Lays the wrapper over a live array.
    pub fn overlay(raw: RawVector<i64>) -> (vector: Self)
        ensures
            vector@ == raw@,
    {
        VectorOfI64(raw)
    }
}

impl VectorSlice for VectorOfI64 {
    type Item = i64;

    closed spec fn view(&self) -> Seq<i64> {
        self.0@
    }

    fn size(&self) -> (n: usize) {
        self.0.size()
    }

    fn as_slice(&self) -> (cells: &[i64]) {
        self.0.data()
    }

    fn as_mut_slice(&mut self) -> (cells: &mut [i64]) {
        self.0.data_mut()
    }
}

impl VectorRemove for VectorOfI64 {
    fn erase_range(&mut self, offset: usize, len: usize) {
        proof {
            self.0.lemma_size_fits();
        }
        let begin: usize = offset;
        let end: usize = offset + len;
        self.0.erase(begin, end);
    }
}

impl VectorInsert<i64> for VectorOfI64 {
    fn push_back(&mut self, v: i64) {
        self.0.push_back(v);
    }
}

impl Deref for VectorOfI64 {
    type Target = [i64];

    fn deref(&self) -> (cells: &[i64])
        ensures
            cells@ == self@,
    {
        self.as_slice()
    }
}

impl DerefMut for VectorOfI64 {
    fn deref_mut(&mut self) -> (cells: &mut [i64])
        ensures
            cells@ == old(self)@,
            final(self)@ == final(cells)@,
    {
        self.as_mut_slice()
    }
}

impl<'a> IntoIterator for &'a VectorOfI64 {
    type Item = &'a i64;

    type IntoIter = std::slice::Iter<'a, i64>;

    /// A walk over the cells as they are now, first to last.
    fn into_iter(self) -> (walk: std::slice::Iter<'a, i64>)
        ensures
            vstd::std_specs::slice::into_iter_elts(walk) == self@,
            vstd::std_specs::iter::IteratorSpec::decrease(&walk) is Some,
            vstd::std_specs::iter::IteratorSpec::initial_value_relation(&walk, &walk),
    {
        self.as_slice().iter()
    }
}

/// Wrapper over an array of 32-bit floating-point numbers, each cell held as its
/// IEEE 754 bit pattern.
pub struct VectorOfF32(RawVector<u32>);

impl VectorOfF32 {
    /// Lays the wrapper over a live array.
    pub fn overlay(raw: RawVector<u32>) -> (vector: Self)
        ensures
            vector@ == raw@,
    {
        VectorOfF32(raw)
    }
}

impl VectorSlice for VectorOfF32 {
    type Item = u32;

    closed spec fn view(&self) -> Seq<u32> {
        self.0@
    }

    fn size(&self) -> (n: usize) {
        self.0.size()
    }

    fn as_slice(&self) -> (cells: &[u32]) {
        self.0.data()
    }

    fn as_mut_slice(&mut self) -> (cells: &mut [u32]) {
        self.0.data_mut()
    }
}

impl VectorRemove for VectorOfF32 {
    fn erase_range(&mut self, offset: usize, len: usize) {
        proof {
            self.0.lemma_size_fits();
        }
        let begin: usize = offset;
        let end: usize = offset + len;
        self.0.erase(begin, end);
    }
}

impl VectorInsert<u32> for VectorOfF32 {
    fn push_back(&mut self, v: u32) {
        self.0.push_back(v);
    }
}

impl Deref for VectorOfF32 {
    type Target = [u32];

    fn deref(&self) -> (cells: &[u32])
        ensures
            cells@ == self@,
    {
        self.as_slice()
    }
}

impl DerefMut for VectorOfF32 {
    fn deref_mut(&mut self) -> (cells: &mut [u32])
        ensures
            cells@ == old(self)@,
            final(self)@ == final(cells)@,
    {
        self.as_mut_slice()
    }
}

impl<'a> IntoIterator for &'a VectorOfF32 {
    type Item = &'a u32;

    type IntoIter = std::slice::Iter<'a, u32>;

    /// A walk over the cells as they are now, first to last.
    fn into_iter(self) -> (walk: std::slice::Iter<'a, u32>)
        ensures
            vstd::std_specs::slice::into_iter_elts(walk) == self@,
            vstd::std_specs::iter::IteratorSpec::decrease(&walk) is Some,
            vstd::std_specs::iter::IteratorSpec::initial_value_relation(&walk, &walk),
    {
        self.as_slice().iter()
    }
}

/// Wrapper over an array whose cells are owned pointers; the array owns what
/// they point to. Indexing goes through the pointer to the value behind it.
pub struct VectorOfUniquePtr<T>(RawVector<Box<T>>);

impl<T> VectorOfUniquePtr<T> {
    /// Lays the wrapper over a live array.
    pub fn overlay(raw: RawVector<Box<T>>) -> (vector: Self)
        ensures
            vector@ == raw@,
    {
        VectorOfUniquePtr(raw)
    }

    /// The value that the pointer in cell `index` points to, open to writing.
    pub fn index_mut(&mut self, index: usize) -> (pointee: &mut T)
        requires
            index < old(self)@.len(),
        ensures
            *pointee == *old(self)@[index as int],
            final(self)@ == old(self)@.update(index as int, Box::new(*final(pointee))),
    {
        self.0.pointee_mut(index)
    }

    /// A walk over the pointed-to values, from the first cell on.
    pub fn iter(&self) -> (walk: Iter<'_, T>)
        ensures
            walk.cells() == self@,
            walk.position() == 0,
    {
        Iter { vector: self, index: 0 }
    }
}

impl<T> VectorSlice for VectorOfUniquePtr<T> {
    type Item = Box<T>;

    closed spec fn view(&self) -> Seq<Box<T>> {
        self.0@
    }

    fn size(&self) -> (n: usize) {
        self.0.size()
    }

    fn as_slice(&self) -> (cells: &[Box<T>]) {
        self.0.data()
    }

    fn as_mut_slice(&mut self) -> (cells: &mut [Box<T>]) {
        self.0.data_mut()
    }
}

impl<T> vstd::std_specs::core::IndexSpecImpl<usize> for VectorOfUniquePtr<T> {
    open spec fn index_req(&self, index: &usize) -> bool {
        *index < self@.len()
    }
}

impl<T> Index<usize> for VectorOfUniquePtr<T> {
    type Output = T;

    /// The value that the pointer in cell `index` points to.
    fn index(&self, index: usize) -> (pointee: &T)
        ensures
            *pointee == *self@[index as int],
    {
        self.0.pointee(index)
    }
}

/// A forward walk over the values of a `VectorOfUniquePtr`.
pub struct Iter<'a, T> {
    vector: &'a VectorOfUniquePtr<T>,
    index: usize,
}

impl<'a, T> Iter<'a, T> {
    /// The cells of the array that is walked.
    pub closed spec fn cells(&self) -> Seq<Box<T>> {
        self.vector@
    }

    /// Number of values handed out so far.
    pub closed spec fn position(&self) -> nat {
        self.index as nat
    }

    #[verifier::type_invariant]
    spec fn in_range(&self) -> bool {
        self.index <= self.vector@.len()
    }

    /// The next value, or `None` behind the last cell.
    pub fn next(&mut self) -> (item: Option<&'a T>)
        ensures
            final(self).cells() == old(self).cells(),
            old(self).position() <= old(self).cells().len(),
            old(self).position() < old(self).cells().len() ==> final(self).position() == old(
                self,
            ).position() + 1 && item == Some(&*old(self).cells()[old(self).position() as int]),
            old(self).position() == old(self).cells().len() ==> final(self).position() == old(
                self,
            ).position() && item is None,
    {
        proof {
            use_type_invariant(&*self);
        }
        if self.index == self.vector.size() {
            return None;
        }
        self.index += 1;
        Some(&self.vector[self.index - 1])
    }
}

} // verus!
