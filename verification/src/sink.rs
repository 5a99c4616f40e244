//! The I/O sink: where the watermark lives.

use crate::batch::L1BatchNumber;
use vstd::prelude::*;

verus! {

/// The authority on the watermark. It reports the watermark and records each
/// advance.
///
/// Nothing is assumed of an implementation. The pipeline for its part calls
/// `mark_processed` only from the watermark task, with the batch right after
/// the one that the sink reported or recorded last.
pub trait IoSink {
    /// Why the sink could not record a batch.
    type Error;

    /// The last batch that was recorded as processed.
    fn current(&self) -> L1BatchNumber;

    /// The greatest batch that the runner plans to submit. The pipeline does
    /// not read it: batches are requested by the runner, which stays within
    /// this bound, and the watermark passes requested batches only.
    fn last_considered(&self) -> L1BatchNumber;

    /// Records `number` as processed.
    fn mark_processed(&mut self, number: L1BatchNumber) -> Result<(), Self::Error>;
}

} // verus!
