//! The byte string: its length, its text as zero-terminated bytes, and
//! replacing the text as a whole.

use crate::raw::until_nul;
use crate::raw::RawString;
use libc::size_t;
use vstd::prelude::*;

verus! {

/// Wrapper over a byte string.
pub struct String(RawString);

impl View for String {
    type V = Seq<u8>;

    /// The text, without the zero byte behind it.
    closed spec fn view(&self) -> Seq<u8> {
        self.0@
    }
}

impl String {
    /// Lays the wrapper over a live string.
    pub fn overlay(raw: RawString) -> (string: Self)
        ensures
            string@ == raw@,
    {
        String(raw)
    }

    /// Number of bytes of text.
    pub fn len(&self) -> (n: size_t)
        ensures
            n == self@.len(),
    {
        self.0.size()
    }

    /// The text with one zero byte behind it. The text itself holds no zero
    /// byte, so the view ends at the first one.
    pub fn c_str(&self) -> (bytes: &[u8])
        ensures
            bytes@ == self@.push(0),
            forall|i: int| 0 <= i < self@.len() ==> self@[i] != 0,
    {
        self.0.c_str()
    }

    /// Replaces the whole text by `text` up to its first zero byte, or by all
    /// of `text` where it holds none.
    pub fn assign(&mut self, text: &[u8])
        ensures
            final(self)@ == until_nul(text@),
    {
        self.0.assign(text);
    }
}

} // verus!
