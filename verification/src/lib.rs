//! Wrappers that let a caller read, write, grow and shrink the containers of
//! a runtime that owns their memory: dynamic arrays of scalars, of packed
//! booleans and of owned pointers, and a byte string.
//!
//! A wrapper holds one descriptor and nothing else. The traits in `vector`
//! ask an implementor for a few primitive operations and build the richer
//! ones on top of them, once, for every implementor. In this crate the
//! runtime is plain Rust: a descriptor of `raw` owns its cells. A binding to
//! another runtime implements the same traits over descriptors that the
//! other side owns and gets the same richer operations.

pub mod cells;
pub mod layout;
pub mod raw;
pub mod string;
pub mod vector;
