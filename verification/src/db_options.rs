//! Options for opening the node's key-value store.
use vstd::prelude::*;

verus! {

/// How the node's key-value store is opened.
#[derive(Default)]
pub struct Options {
    create_if_missing: bool,
}

impl Options {
    /// Whether a missing store is created.
    pub closed spec fn creates_if_missing(&self) -> bool {
        self.create_if_missing
    }

    /// Set whether a missing store is created.
    pub fn create_if_missing(&mut self, val: bool)
        ensures
            final(self).creates_if_missing() == val,
    {
        self.create_if_missing = val;
    }
}

} // verus!
