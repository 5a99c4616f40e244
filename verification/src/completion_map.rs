//! The completion map: one single-shot signal per requested batch.

use crate::batch::L1BatchNumber;
use std::collections::HashMap;
use vstd::prelude::*;

verus! {

broadcast use vstd::std_specs::hash::group_hash_axioms;

/// A single-shot signal that a batch has been fully handled. It starts
/// pending, is resolved once, and never goes back.
#[derive(Clone, Copy, Debug, PartialEq, Eq, Structural)]
pub enum CompletionSignal {
    Pending,
    Resolved,
}

impl CompletionSignal {
    /// A fresh, pending signal.
    pub fn new() -> (signal: CompletionSignal)
        ensures
            signal == CompletionSignal::Pending,
    {
        CompletionSignal::Pending
    }

    /// Resolves the signal. Resolving a resolved signal changes nothing.
    pub fn resolve(&mut self)
        ensures
            *final(self) == CompletionSignal::Resolved,
    {
        *self = CompletionSignal::Resolved;
    }

    /// Whether the signal has been resolved.
    pub fn is_resolved(&self) -> (resolved: bool)
        ensures
            resolved == (*self == CompletionSignal::Resolved),
    {
        match self {
            CompletionSignal::Pending => false,
            CompletionSignal::Resolved => true,
        }
    }
}

/// Where a batch stands, as far as the completion map can tell.
///
/// A batch only ever moves down this list. The watermark passes a batch and
/// its signal is removed in one step, so a batch that was applied to the
/// watermark is forgotten at once and has no state of its own here.
#[derive(Clone, Copy, Debug, PartialEq, Eq, Structural)]
pub enum BatchState {
    /// No handler was ever requested for the batch.
    Unseen,
    /// A handler was requested and has not finished the batch yet.
    Requested,
    /// The handler has finished the batch; the watermark has not reached it.
    Resolved,
    /// The watermark has passed the batch and its signal is gone.
    Forgotten,
}

/// A request for a batch that already had a handler.
#[derive(Clone, Copy, Debug, PartialEq, Eq, Structural)]
pub struct DuplicateBatch {
    /// The batch that was requested again.
    pub number: L1BatchNumber,
}

/// What a completion map holds: the signals of the batches that are in
/// flight, and the run of batches that the watermark has passed.
///
/// The retired batches are `retired_from, .., retired_to - 1`: the watermark
/// passes batches one by one, so they form one run without gaps.
pub struct Completions {
    pub signals: Map<u32, CompletionSignal>,
    pub retired_from: int,
    pub retired_to: int,
}

impl Completions {
    /// The map that holds nothing.
    pub open spec fn empty() -> Completions {
        Completions { signals: Map::empty(), retired_from: 0, retired_to: 0 }
    }

    /// Batch numbers fit in 32 bits, the retired run is well formed, and no
    /// retired batch has a signal: a batch number is used once.
    pub open spec fn wf(self) -> bool {
        &&& 0 <= self.retired_from <= self.retired_to <= u32::MAX + 1
        &&& self.signals.dom().finite()
        &&& forall|n: u32| #[trigger]
            self.signals.contains_key(n) ==> !(self.retired_from <= n < self.retired_to)
    }

    /// Whether the watermark has passed batch `n`.
    pub open spec fn retired(self, n: int) -> bool {
        self.retired_from <= n < self.retired_to
    }

    /// Whether batch `n` has a signal in the map.
    pub open spec fn contains(self, n: int) -> bool {
        0 <= n <= u32::MAX && self.signals.contains_key(n as u32)
    }

    /// Whether a handler was ever requested for batch `n`.
    pub open spec fn seen(self, n: int) -> bool {
        self.contains(n) || self.retired(n)
    }

    /// Whether batch `n` has a signal and that signal is resolved: the
    /// condition that the watermark waits for.
    pub open spec fn ready(self, n: int) -> bool {
        self.contains(n) && self.signals[n as u32] == CompletionSignal::Resolved
    }

    /// The state of batch `n`.
    pub open spec fn state(self, n: int) -> BatchState {
        if self.retired(n) {
            BatchState::Forgotten
        } else if self.ready(n) {
            BatchState::Resolved
        } else if self.contains(n) {
            BatchState::Requested
        } else {
            BatchState::Unseen
        }
    }

    /// The map after a request for batch `n`: a pending signal is added for a
    /// batch that was never seen, and nothing changes otherwise.
    pub open spec fn insert(self, n: int) -> Completions {
        if self.seen(n) || !(0 <= n <= u32::MAX) {
            self
        } else {
            Completions { signals: self.signals.insert(n as u32, CompletionSignal::Pending), ..self }
        }
    }

    /// The map after the handler of batch `n` has finished: the signal of `n`
    /// is resolved if the map holds one, and nothing changes otherwise.
    pub open spec fn resolve(self, n: int) -> Completions {
        if self.contains(n) {
            Completions {
                signals: self.signals.insert(n as u32, CompletionSignal::Resolved),
                ..self
            }
        } else {
            self
        }
    }

    /// Whether the watermark may pass batch `n` now: `n` is ready, and it
    /// follows the retired run directly (any ready batch may start the run).
    pub open spec fn can_retire(self, n: int) -> bool {
        self.ready(n) && (self.retired_from == self.retired_to || n == self.retired_to)
    }

    /// The map after the watermark has tried to pass the batches
    /// `from, .., to - 1` in this order.
    pub open spec fn retire_span(self, from: int, to: int) -> Completions
        decreases to - from,
    {
        if to <= from {
            self
        } else {
            self.retire_span(from, to - 1).retire(to - 1)
        }
    }

    /// The map after the watermark has passed batch `n`: the signal is removed
    /// and `n` joins the retired run. Nothing changes unless `can_retire(n)`.
    pub open spec fn retire(self, n: int) -> Completions {
        if self.can_retire(n) {
            Completions {
                signals: self.signals.remove(n as u32),
                retired_from: if self.retired_from == self.retired_to {
                    n
                } else {
                    self.retired_from
                },
                retired_to: n + 1,
            }
        } else {
            self
        }
    }
}

/// Passing a span of batches touches no signal outside the span.
pub proof fn lemma_retire_span_keeps(map: Completions, from: int, to: int, n: int)
    requires
        !(from <= n < to),
    ensures
        map.retire_span(from, to).contains(n) == map.contains(n),
        map.retire_span(from, to).ready(n) == map.ready(n),
    decreases to - from,
{
    if from < to {
        lemma_retire_span_keeps(map, from, to - 1, n);
    }
}

/// Mapping from batch number to completion signal, with unique keys.
///
/// A signal is inserted when a handler is requested for its batch, resolved
/// when that handler has finished the batch, and removed when the watermark
/// passes the batch. A batch number is accepted once in the lifetime of the
/// map: neither a batch that has a signal nor one that the watermark has
/// passed can be inserted again.
pub struct CompletionMap {
    signals: HashMap<u32, CompletionSignal>,
    retired_from: u64,
    retired_to: u64,
}

impl View for CompletionMap {
    type V = Completions;

    closed spec fn view(&self) -> Completions {
        Completions {
            signals: self.signals@,
            retired_from: self.retired_from as int,
            retired_to: self.retired_to as int,
        }
    }
}

impl CompletionMap {
    /// An empty map.
    pub fn new() -> (map: CompletionMap)
        ensures
            map@ == Completions::empty(),
            map@.wf(),
    {
        CompletionMap { signals: HashMap::new(), retired_from: 0, retired_to: 0 }
    }

    /// Number of signals in the map: the batches that are requested or
    /// resolved and that the watermark has not passed.
    pub fn len(&self) -> (n: usize)
        ensures
            n == self@.signals.len(),
    {
        self.signals.len()
    }

    /// Whether the map holds a signal for `number`.
    pub fn contains(&self, number: L1BatchNumber) -> (found: bool)
        ensures
            found == self@.contains(number.0 as int),
    {
        self.signals.contains_key(&number.0)
    }

    /// Whether the watermark has passed `number`.
    pub fn is_retired(&self, number: L1BatchNumber) -> (retired: bool)
        ensures
            retired == self@.retired(number.0 as int),
    {
        let n: u64 = number.0 as u64;
        self.retired_from <= n && n < self.retired_to
    }

    /// Whether `number` has a signal and that signal is resolved.
    pub fn is_ready(&self, number: L1BatchNumber) -> (ready: bool)
        ensures
            ready == self@.ready(number.0 as int),
    {
        match self.signals.get(&number.0) {
            Some(signal) => signal.is_resolved(),
            None => false,
        }
    }

    /// The state of `number`.
    pub fn state(&self, number: L1BatchNumber) -> (state: BatchState)
        ensures
            state == self@.state(number.0 as int),
    {
        if self.is_retired(number) {
            BatchState::Forgotten
        } else if self.is_ready(number) {
            BatchState::Resolved
        } else if self.contains(number) {
            BatchState::Requested
        } else {
            BatchState::Unseen
        }
    }

    /// Registers a pending signal for `number`.
    ///
    /// Succeeds exactly when `number` was never seen before. A batch that has
    /// a signal, or that the watermark has passed, is refused and the map
    /// stays as it was. A success is news for whoever waits on the map.
    pub fn insert(&mut self, number: L1BatchNumber) -> (r: Result<(), DuplicateBatch>)
        ensures
            final(self)@ == old(self)@.insert(number.0 as int),
            old(self)@.wf() ==> final(self)@.wf(),
            r is Ok <==> !old(self)@.seen(number.0 as int),
            r matches Err(e) ==> e.number == number,
            final(self)@.seen(number.0 as int),
    {
        if self.is_retired(number) || self.signals.contains_key(&number.0) {
            return Err(DuplicateBatch { number });
        }
        self.signals.insert(number.0, CompletionSignal::new());
        Ok(())
    }

    /// Resolves the signal of `number`, and says whether the map held one.
    /// Without a signal for `number` nothing changes; with one, the call is
    /// news for whoever waits on the map.
    pub fn resolve(&mut self, number: L1BatchNumber) -> (found: bool)
        ensures
            final(self)@ == old(self)@.resolve(number.0 as int),
            old(self)@.wf() ==> final(self)@.wf(),
            found == old(self)@.contains(number.0 as int),
            found ==> final(self)@.ready(number.0 as int),
    {
        let mut signal = match self.signals.get(&number.0) {
            Some(signal) => *signal,
            None => return false,
        };
        signal.resolve();
        self.signals.insert(number.0, signal);
        true
    }

    /// Removes the signal of `number` after the watermark has passed it, and
    /// says whether it did.
    ///
    /// The watermark passes batches in order and only when they are ready:
    /// the call takes effect exactly when `number` is ready and follows the
    /// batch that was removed last (the first removal may be of any ready
    /// batch). Otherwise the map stays as it was.
    pub fn remove(&mut self, number: L1BatchNumber) -> (removed: bool)
        ensures
            final(self)@ == old(self)@.retire(number.0 as int),
            old(self)@.wf() ==> final(self)@.wf(),
            removed == old(self)@.can_retire(number.0 as int),
            old(self)@.wf() && removed ==> final(self)@.state(number.0 as int)
                == BatchState::Forgotten,
    {
        let n: u64 = number.0 as u64;
        if !self.is_ready(number) {
            return false;
        }
        if self.retired_from != self.retired_to && n != self.retired_to {
            return false;
        }
        self.signals.remove(&number.0);
        if self.retired_from == self.retired_to {
            self.retired_from = n;
        }
        self.retired_to = n + 1;
        true
    }
}

} // verus!
