//! Raw descriptors: the runtime's own representation of each container,
//! with the entry points through which a wrapper reaches it.
//!
//! A descriptor is the sole data member of the wrapper that is laid over it.
//! Every primitive operation of a wrapper is one call of an entry point
//! below; the wrappers themselves keep no state of their own. The runtime
//! behind these descriptors keeps the cells in a `Vec`.

use crate::cells::without_run;
use vstd::prelude::*;

verus! {

/// Descriptor of a dynamic array whose cells lie side by side.
pub struct RawVector<T> {
    cells: Vec<T>,
}

impl<T> View for RawVector<T> {
    type V = Seq<T>;

    closed spec fn view(&self) -> Seq<T> {
        self.cells@
    }
}

impl<T> RawVector<T> {
    /// A descriptor of an array that holds exactly `cells`.
    pub fn holding(cells: Vec<T>) -> (raw: Self)
        ensures
            raw@ == cells@,
    {
        RawVector { cells }
    }

    /// The number of cells fits a machine word.
    pub proof fn lemma_size_fits(&self)
        ensures
            self@.len() <= usize::MAX,
    {
        assert(self.cells.len() == self.cells@.len());
    }

    /// Number of cells.
    pub fn size(&self) -> (n: usize)
        ensures
            n == self@.len(),
    {
        self.cells.len()
    }

    /// The cells, first to last.
    pub fn data(&self) -> (cells: &[T])
        ensures
            cells@ == self@,
    {
        self.cells.as_slice()
    }

    /// The cells, open to writing in place; their number cannot change through it.
    pub fn data_mut(&mut self) -> (cells: &mut [T])
        ensures
            cells@ == old(self)@,
            final(self)@ == final(cells)@,
    {
        self.cells.as_mut_slice()
    }

    /// Appends one cell.
    pub fn push_back(&mut self, value: T)
        ensures
            final(self)@ == old(self)@.push(value),
    {
        self.cells.push(value);
    }

    /// Removes the cells at positions `begin` up to, not including, `end`;
    /// the cells behind them move up.
    pub fn erase(&mut self, begin: usize, end: usize)
        requires
            begin <= end <= old(self)@.len(),
        ensures
            final(self)@ == without_run(old(self)@, begin as int, end as int),
    {
        let mut tail = self.cells.split_off(end);
        self.cells.truncate(begin);
        self.cells.append(&mut tail);
        assert(self@ =~= without_run(old(self)@, begin as int, end as int));
    }
}

impl<T> RawVector<Box<T>> {
    /// What the owned pointer in cell `index` points to.
    pub fn pointee(&self, index: usize) -> (target: &T)
        requires
            index < self@.len(),
        ensures
            *target == *self@[index as int],
    {
        &*self.cells[index]
    }

    /// What the owned pointer in cell `index` points to, open to writing.
    pub fn pointee_mut(&mut self, index: usize) -> (target: &mut T)
        requires
            index < old(self)@.len(),
        ensures
            *target == *old(self)@[index as int],
            final(self)@ == old(self)@.update(index as int, Box::new(*final(target))),
    {
        &mut *self.cells[index]
    }
}

/// Descriptor of a bit-packed boolean array. Its cells are not addressable
/// one by one, so it has no entry points.
#[derive(Debug)]
pub struct RawBitVector {
    region: [usize; 5],
}

/// The bytes of `bytes` in front of its first zero byte; all of them where
/// there is none.
pub open spec fn until_nul(bytes: Seq<u8>) -> Seq<u8>
    decreases bytes.len(),
{
    if bytes.len() == 0 || bytes[0] == 0 {
        Seq::empty()
    } else {
        seq![bytes[0]] + until_nul(bytes.skip(1))
    }
}

/// Where the first `end` bytes hold no zero and a zero or the end follows,
/// they are the bytes in front of the first zero.
pub proof fn lemma_until_nul(bytes: Seq<u8>, end: int)
    requires
        0 <= end <= bytes.len(),
        forall|j: int| 0 <= j < end ==> bytes[j] != 0,
        end == bytes.len() || bytes[end] == 0,
    ensures
        until_nul(bytes) == bytes.take(end),
    decreases end,
{
    if end == 0 {
        assert(bytes.take(0) =~= Seq::<u8>::empty());
    } else {
        let rest = bytes.skip(1);
        assert forall|j: int| 0 <= j < end - 1 implies rest[j] != 0 by {
            assert(rest[j] == bytes[j + 1]);
        }
        lemma_until_nul(rest, end - 1);
        assert(seq![bytes[0]] + rest.take(end - 1) =~= bytes.take(end));
    }
}

/// Descriptor of a byte string. The runtime keeps a zero byte behind the
/// text, and the text itself holds none.
pub struct RawString {
    bytes: Vec<u8>,
}

impl View for RawString {
    type V = Seq<u8>;

    /// The text, without the zero byte behind it.
    closed spec fn view(&self) -> Seq<u8> {
        self.bytes@.drop_last()
    }
}

impl RawString {
    #[verifier::type_invariant]
    spec fn terminated(&self) -> bool {
        &&& self.bytes@.len() > 0
        &&& self.bytes@.last() == 0
        &&& forall|i: int| 0 <= i < self.bytes@.len() - 1 ==> self.bytes@[i] != 0
    }

    /// A descriptor of a string whose text is `text` up to its first zero byte.
    pub fn holding(text: &[u8]) -> (raw: Self)
        ensures
            raw@ == until_nul(text@),
    {
        let mut bytes: Vec<u8> = Vec::new();
        let mut i: usize = 0;
        while i < text.len() && text[i] != 0
            invariant
                i <= text@.len(),
                bytes@ == text@.take(i as int),
                forall|j: int| 0 <= j < i ==> text@[j] != 0,
            decreases text@.len() - i,
        {
            bytes.push(text[i]);
            i += 1;
            assert(bytes@ =~= text@.take(i as int));
        }
        proof {
            lemma_until_nul(text@, i as int);
        }
        bytes.push(0);
        assert(bytes@.drop_last() =~= text@.take(i as int));
        RawString { bytes }
    }

    /// Number of bytes of text.
    pub fn size(&self) -> (n: usize)
        ensures
            n == self@.len(),
    {
        proof {
            use_type_invariant(self);
        }
        self.bytes.len() - 1
    }

    /// The text with the zero byte behind it; no other byte of it is zero.
    pub fn c_str(&self) -> (bytes: &[u8])
        ensures
            bytes@ == self@.push(0),
            forall|i: int| 0 <= i < self@.len() ==> self@[i] != 0,
    {
        proof {
            use_type_invariant(self);
            assert(self.bytes@ =~= self@.push(0));
        }
        self.bytes.as_slice()
    }

    /// Replaces the whole text by `text` up to its first zero byte.
    pub fn assign(&mut self, text: &[u8])
        ensures
            final(self)@ == until_nul(text@),
    {
        let fresh = RawString::holding(text);
        *self = fresh;
    }
}

} // verus!
