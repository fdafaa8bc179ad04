//! Identifiers of the points written to the vector store.

use vstd::prelude::*;

verus! {

/// The identifier that the next point written to the vector store gets. Each
/// point that is written takes the current identifier, and the counter then
/// moves one up, so identifiers increase strictly in the order of writing.
pub struct PointIds {
    pub next: u64,
}

impl PointIds {
    /// A counter whose first identifier is 0.
    pub fn new() -> (r: Self)
        ensures
            r.next == 0,
    {
        PointIds { next: 0 }
    }

    /// The identifier for the next point.
    pub fn current(&self) -> (r: u64)
        ensures
            r == self.next,
    {
        self.next
    }

    /// Records that the current identifier was used. Fails, leaving the
    /// counter as it is, when no larger identifier is left.
    pub fn advance(&mut self) -> (r: bool)
        ensures
            r == (old(self).next < u64::MAX),
            final(self).next == if r {
                old(self).next + 1
            } else {
                old(self).next as int
            },
    {
        if self.next < u64::MAX {
            self.next = self.next + 1;
            true
        } else {
            false
        }
    }
}

} // verus!
