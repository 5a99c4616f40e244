//! Output handlers, and the wrapper that reports their completion.

use crate::batch::L1BatchNumber;
use crate::completion_map::CompletionMap;
use std::sync::Arc;
use vstd::prelude::*;

verus! {

/// Consumer of the results of one batch, in two phases: it is shown every L2
/// block of the batch, and then, once, the finished L1 batch.
///
/// Nothing is assumed of an implementation: either call may take long, and
/// either may fail.
pub trait OutputHandler {
    /// The execution trace that the handler is shown.
    type Updates;

    /// Why the handler failed.
    type Error;

    /// Takes note of one more L2 block of the batch.
    fn handle_l2_block(&mut self, updates: &Self::Updates) -> Result<(), Self::Error>;

    /// Finalizes the batch. The trace is shared: the handler may read it from
    /// several places at once, and must copy it to change it.
    fn handle_l1_batch(&mut self, updates: Arc<Self::Updates>) -> Result<(), Self::Error>;
}

/// Source of the handlers that do the actual work, one per batch.
pub trait InnerFactory {
    /// The handlers that this factory makes.
    type Handler: OutputHandler;

    /// Why the factory could not make a handler.
    type Error;

    /// Makes the handler for a batch.
    fn create_inner(&mut self, number: L1BatchNumber) -> Result<Self::Handler, Self::Error>;
}

/// An output handler together with the producing end of its batch's
/// completion signal.
///
/// L2 blocks go to the inner handler unchanged. When the inner handler has
/// finalized the batch, the wrapper resolves the signal of its batch; when
/// the inner handler fails, the signal stays pending and the error goes to
/// the caller. The completion map is lent to the wrapper for that moment.
pub struct WrappingHandler<H> {
    number: L1BatchNumber,
    inner: H,
}

impl<H> WrappingHandler<H> {
    /// The batch whose signal the wrapper resolves.
    pub closed spec fn batch(&self) -> L1BatchNumber {
        self.number
    }

    /// The handler that does the work.
    pub closed spec fn handler(&self) -> H {
        self.inner
    }

    /// Wraps `inner` as the handler of batch `number`.
    pub(crate) fn new(number: L1BatchNumber, inner: H) -> (handler: WrappingHandler<H>)
        ensures
            handler.batch() == number,
            handler.handler() == inner,
    {
        WrappingHandler { number, inner }
    }

    /// The batch whose signal the wrapper resolves.
    pub fn number(&self) -> (number: L1BatchNumber)
        ensures
            number == self.batch(),
    {
        self.number
    }

    /// The handler that does the work.
    pub fn inner(&self) -> (inner: &H)
        ensures
            *inner == self.handler(),
    {
        &self.inner
    }

    /// The handler that does the work, to drive it from outside. Whoever
    /// lets it finalize the batch reports the outcome with `settle`.
    pub fn inner_mut(&mut self) -> (inner: &mut H)
        ensures
            *inner == old(self).handler(),
            final(self).handler() == *final(inner),
            final(self).batch() == old(self).batch(),
    {
        &mut self.inner
    }

    /// Reports how the inner handler's finalization of the batch ended.
    ///
    /// `Ok` resolves the signal of the batch in `completions`; an error
    /// leaves `completions` as it was. The outcome is handed back unchanged.
    pub fn settle<E>(&self, outcome: Result<(), E>, completions: &mut CompletionMap) -> (r: Result<
        (),
        E,
    >)
        ensures
            r == outcome,
            old(completions)@.wf() ==> final(completions)@.wf(),
            outcome is Ok ==> final(completions)@ == old(completions)@.resolve(
                self.batch().0 as int,
            ),
            outcome is Err ==> final(completions)@ == old(completions)@,
    {
        if outcome.is_ok() {
            completions.resolve(self.number);
        }
        outcome
    }
}

impl<H: OutputHandler> WrappingHandler<H> {
    /// Shows an L2 block to the inner handler and hands its answer back.
    ///
    /// The call is the inner handler's own `handle_l2_block` on the same
    /// `updates`: the answer and the state in which the inner handler is
    /// left are its. The wrapper adds nothing and keeps its batch.
    pub fn handle_l2_block(&mut self, updates: &H::Updates) -> (r: Result<(), H::Error>)
        ensures
            final(self).batch() == old(self).batch(),
            exists|handler: &mut H|
                mut_ref_current(handler) == old(self).handler() && mut_ref_future(handler)
                    == final(self).handler() && #[trigger] call_ensures(
                    H::handle_l2_block,
                    (handler, updates),
                    r,
                ),
    {
        let handler = &mut self.inner;
        handler.handle_l2_block(updates)
    }

    /// Lets the inner handler finalize the batch, and resolves the batch's
    /// signal in `completions` if it succeeded.
    ///
    /// The call is the inner handler's own `handle_l1_batch` on the same
    /// `updates`, and whatever it answers is handed back. After a success the
    /// signal of the batch is resolved; after a failure `completions` is as
    /// it was, so that the watermark cannot pass the batch.
    pub fn handle_l1_batch(
        &mut self,
        updates: Arc<H::Updates>,
        completions: &mut CompletionMap,
    ) -> (r: Result<(), H::Error>)
        ensures
            final(self).batch() == old(self).batch(),
            exists|handler: &mut H|
                mut_ref_current(handler) == old(self).handler() && mut_ref_future(handler)
                    == final(self).handler() && #[trigger] call_ensures(
                    H::handle_l1_batch,
                    (handler, updates),
                    r,
                ),
            old(completions)@.wf() ==> final(completions)@.wf(),
            r is Ok ==> final(completions)@ == old(completions)@.resolve(
                old(self).batch().0 as int,
            ),
            r is Err ==> final(completions)@ == old(completions)@,
    {
        let handler = &mut self.inner;
        let outcome = handler.handle_l1_batch(updates);
        self.settle(outcome, completions)
    }
}

} // verus!
