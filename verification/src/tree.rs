//! Directory trees, as contracts speak of them.

use vstd::prelude::*;

verus! {

/// A directory tree as looking at it finds it: a file, or a directory with
/// the trees of its entries in the order listed. `P` is what names an
/// entry, a path as a rule.
pub enum Tree<P> {
    File(P),
    Dir(P, Seq<Tree<P>>),
}

impl<P> Tree<P> {
    /// The entry at the top of the tree.
    pub open spec fn name(self) -> P {
        match self {
            Tree::File(p) => p,
            Tree::Dir(p, _) => p,
        }
    }
}

} // verus!
