//! What the file system gave for a path.

use vstd::prelude::*;

verus! {

/// The outcome of looking a file or a directory up and reading it.
#[derive(Debug, Clone, PartialEq, Eq)]
pub enum Fetched<T> {
    /// Nothing is there.
    Missing,
    /// Something is there, but reading it failed, or what was read is not
    /// the text it should be.
    Unreadable,
    /// What was read.
    Found(T),
}

} // verus!
