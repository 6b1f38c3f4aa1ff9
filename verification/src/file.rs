//! The file capability handle.

use vstd::prelude::*;

verus! {

/// A handle to one regular file of a store. Obtainable only from the
/// resolver, through the operations of [`crate::dir::Dir`]; two handles
/// are equal exactly when they denote the same object.
#[derive(Clone, Copy, Debug, PartialEq, Eq, Structural)]
pub struct File {
    pub(crate) node: usize,
}

impl File {
    /// The identity of the object this handle denotes.
    pub closed spec fn id(&self) -> usize {
        self.node
    }

    pub(crate) fn from_node(node: usize) -> (r: File)
        ensures
            r.id() == node,
    {
        File { node }
    }

    pub(crate) fn node_index(&self) -> (n: usize)
        ensures
            n == self.id(),
    {
        self.node
    }
}

} // verus!
