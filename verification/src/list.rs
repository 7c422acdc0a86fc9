//! The link field of a table that the host chains with others.

use vstd::prelude::*;

verus! {

/// The link by which the host chains the tables registered with it. Zero
/// stands for the null pointer.
#[derive(Clone, Copy, Debug, PartialEq, Eq)]
pub struct ListHead {
    pub next: usize,
    pub prev: usize,
}

impl ListHead {
    /// A link that is not on any list.
    pub fn unlinked() -> (link: ListHead)
        ensures
            link == (ListHead { next: 0, prev: 0 }),
    {
        ListHead { next: 0, prev: 0 }
    }
}

} // verus!
