//! Numbers of L1 batches.

use vstd::prelude::*;
use vstd::std_specs::convert::FromSpecImpl;

verus! {

/// Number of an L1 batch: an unsigned 32-bit identifier. Batches are numbered
/// densely, so the batch after `n` is `n + 1`.
#[derive(Clone, Copy, Debug, PartialEq, Eq, Structural, PartialOrd, Ord, Hash)]
pub struct L1BatchNumber(pub u32);

impl L1BatchNumber {
    /// The batch that follows this one, or `None` for the last representable batch.
    pub fn next(self) -> (r: Option<L1BatchNumber>)
        ensures
            self.0 < u32::MAX ==> r == Some(L1BatchNumber((self.0 + 1) as u32)),
            self.0 == u32::MAX ==> r is None,
    {
        if self.0 < u32::MAX {
            Some(L1BatchNumber(self.0 + 1))
        } else {
            None
        }
    }
}

impl From<u32> for L1BatchNumber {
    fn from(number: u32) -> (r: L1BatchNumber) {
        L1BatchNumber(number)
    }
}

impl FromSpecImpl<u32> for L1BatchNumber {
    open spec fn obeys_from_spec() -> bool {
        true
    }

    open spec fn from_spec(number: u32) -> L1BatchNumber {
        L1BatchNumber(number)
    }
}

} // verus!
