//! The watermark task as a state machine: it passes batches strictly in
//! order, one at a time, and only when their signals are resolved.

use crate::batch::L1BatchNumber;
use crate::completion_map::CompletionMap;
use crate::completion_map::Completions;
use crate::execution::lemma_step_wf;
use crate::execution::Event;
use crate::execution::System;
use vstd::prelude::*;

verus! {

/// What the watermark task is doing.
#[derive(Clone, Copy, Debug, PartialEq, Eq, Structural)]
pub enum TaskPhase {
    /// Waiting for the next batch to become ready, or for the stop signal.
    Waiting,
    /// The sink was asked to record the next batch; its answer is awaited.
    Marking,
    /// The stop signal was seen: the task has returned successfully.
    Stopped,
    /// The task has ended with an error.
    Failed,
}

/// What the driver of the task has to do next.
#[derive(Clone, Copy, Debug, PartialEq, Eq, Structural)]
pub enum TaskAction {
    /// Suspend until the next batch becomes ready or the stop signal fires.
    Wait,
    /// Ask the sink to record this batch as processed, then report the
    /// answer with `confirm`.
    MarkProcessed(L1BatchNumber),
    /// The sink was asked to record this batch before and its answer has not
    /// been reported: ask for nothing new, and report the answer with
    /// `confirm`.
    AwaitAnswer(L1BatchNumber),
    /// Return successfully: the task was stopped.
    Stop,
    /// Return the error that ended the task.
    Fail,
}

/// The state of a watermark task: its phase, the first batch that it waited
/// for, and the batch that it waits for now. The watermark is the batch
/// before `next`.
pub struct TaskModel {
    pub phase: TaskPhase,
    pub first: int,
    pub next: int,
}

impl TaskModel {
    /// The task as it starts, when the sink reports `current` as its watermark.
    pub open spec fn start(current: int) -> TaskModel {
        TaskModel { phase: TaskPhase::Waiting, first: current + 1, next: current + 1 }
    }

    /// The task has only moved forward from a watermark that fits in 32 bits,
    /// and a batch that the sink was asked to record has a valid number.
    pub open spec fn wf(self) -> bool {
        &&& 1 <= self.first <= self.next <= u32::MAX + 1
        &&& self.phase == TaskPhase::Marking ==> self.next <= u32::MAX
    }

    /// The greatest batch such that it and all batches since the start have
    /// been recorded by the sink.
    pub open spec fn watermark(self) -> int {
        self.next - 1
    }

    /// Whether the task has returned, successfully or not.
    pub open spec fn finished(self) -> bool {
        self.phase == TaskPhase::Stopped || self.phase == TaskPhase::Failed
    }

    /// What the task asks of its driver when it is polled.
    ///
    /// While it waits, the stop signal wins over a ready batch; a ready batch
    /// is only ever `next`, the one right above the watermark. The sink is
    /// asked for a batch once: while its answer is outstanding, the task
    /// asks for the answer and for no further call.
    pub open spec fn action(self, map: Completions, stop: bool) -> TaskAction {
        match self.phase {
            TaskPhase::Waiting => if stop {
                TaskAction::Stop
            } else if map.ready(self.next) {
                TaskAction::MarkProcessed(L1BatchNumber(self.next as u32))
            } else {
                TaskAction::Wait
            },
            TaskPhase::Marking => TaskAction::AwaitAnswer(L1BatchNumber(self.next as u32)),
            TaskPhase::Stopped => TaskAction::Stop,
            TaskPhase::Failed => TaskAction::Fail,
        }
    }

    /// The task after it was polled. Polling never moves the watermark.
    pub open spec fn poll(self, map: Completions, stop: bool) -> TaskModel {
        match self.phase {
            TaskPhase::Waiting => if stop {
                TaskModel { phase: TaskPhase::Stopped, ..self }
            } else if map.ready(self.next) {
                TaskModel { phase: TaskPhase::Marking, ..self }
            } else {
                self
            },
            _ => self,
        }
    }

    /// Whether an answer of the sink moves the watermark: the task awaits
    /// one, the sink has recorded the batch, and the map lets the batch go.
    pub open spec fn advances(self, map: Completions, marked: bool) -> bool {
        self.phase == TaskPhase::Marking && marked && map.can_retire(self.next)
    }

    /// The task after the sink has answered. Success moves the watermark up
    /// by one; any other answer ends the task. Outside the marking phase an
    /// answer is ignored.
    pub open spec fn confirm(self, map: Completions, marked: bool) -> TaskModel {
        if self.advances(map, marked) {
            TaskModel { phase: TaskPhase::Waiting, next: self.next + 1, ..self }
        } else if self.phase == TaskPhase::Marking {
            TaskModel { phase: TaskPhase::Failed, ..self }
        } else {
            self
        }
    }

    /// The completion map after the sink has answered: the batch that was
    /// recorded is retired, and nothing changes otherwise.
    pub open spec fn confirm_map(self, map: Completions, marked: bool) -> Completions {
        if self.advances(map, marked) {
            map.retire(self.next)
        } else {
            map
        }
    }
}

/// The watermark task: consumes completion signals in batch order.
///
/// The task makes the decisions and leaves the waiting and the call of the
/// sink to its driver: `poll` says what to do, and `confirm` takes the sink's
/// answer to a `MarkProcessed`.
#[derive(Debug)]
pub struct WatermarkTask {
    phase: TaskPhase,
    first: u64,
    next: u64,
}

impl View for WatermarkTask {
    type V = TaskModel;

    closed spec fn view(&self) -> TaskModel {
        TaskModel { phase: self.phase, first: self.first as int, next: self.next as int }
    }
}

impl WatermarkTask {
    /// A task is always valid.
    #[verifier::type_invariant]
    pub open spec fn valid(&self) -> bool {
        self@.wf()
    }

    /// Starts a task from the watermark that the sink reports: the first
    /// batch that can move the watermark is the one right after it.
    pub fn new(current: L1BatchNumber) -> (task: WatermarkTask)
        ensures
            task@ == TaskModel::start(current.0 as int),
            task@.wf(),
            task@.watermark() == current.0,
    {
        let next: u64 = current.0 as u64 + 1;
        WatermarkTask { phase: TaskPhase::Waiting, first: next, next }
    }

    /// The phase of the task.
    pub fn phase(&self) -> (phase: TaskPhase)
        ensures
            phase == self@.phase,
            self@.wf(),
    {
        proof {
            use_type_invariant(self);
        }
        self.phase
    }

    /// The watermark: the last batch that the sink has recorded, or the one
    /// that it reported at the start if none was recorded since.
    pub fn watermark(&self) -> (number: L1BatchNumber)
        ensures
            self@.wf(),
            number.0 == self@.watermark(),
    {
        proof {
            use_type_invariant(self);
        }
        L1BatchNumber((self.next - 1) as u32)
    }

    /// The watermark that the sink reported when the task started.
    pub fn initial_watermark(&self) -> (number: L1BatchNumber)
        ensures
            self@.wf(),
            number.0 == self@.first - 1,
    {
        proof {
            use_type_invariant(self);
        }
        L1BatchNumber((self.first - 1) as u32)
    }

    /// The batch that the task waits for, or `None` when the watermark is the
    /// last representable batch.
    pub fn next(&self) -> (number: Option<L1BatchNumber>)
        ensures
            self@.wf(),
            self@.next <= u32::MAX ==> number == Some(L1BatchNumber(self@.next as u32)),
            self@.next > u32::MAX ==> number is None,
    {
        self.watermark().next()
    }

    /// One decision of the task.
    ///
    /// While the task waits: with `stop` set it stops; else, if the batch
    /// right above the watermark is ready in `completions`, it asks for that
    /// batch to be recorded; else it goes on waiting. A task that awaits the
    /// sink's answer asks for that answer and for no new call of the sink,
    /// and a task that has returned stays as it is.
    pub fn poll(&mut self, completions: &CompletionMap, stop: bool) -> (action: TaskAction)
        ensures
            final(self)@ == old(self)@.poll(completions@, stop),
            action == old(self)@.action(completions@, stop),
            final(self)@.wf(),
            final(self)@.watermark() == old(self)@.watermark(),
            action matches TaskAction::MarkProcessed(number) ==> {
                &&& number.0 == old(self)@.watermark() + 1
                &&& old(self)@.phase == TaskPhase::Waiting
                &&& final(self)@.phase == TaskPhase::Marking
                &&& !stop
                &&& completions@.ready(number.0 as int)
            },
            action is AwaitAnswer <==> old(self)@.phase == TaskPhase::Marking,
            System::of(completions@, old(self)@).wf() ==> System::of(
                completions@,
                final(self)@,
            ).wf(),
    {
        proof {
            use_type_invariant(&*self);
            if System::of(completions@, self@).wf() {
                lemma_step_wf(System::of(completions@, self@), Event::Poll(stop));
            }
        }
        match self.phase {
            TaskPhase::Waiting => {
                if stop {
                    self.phase = TaskPhase::Stopped;
                    return TaskAction::Stop;
                }
                if self.next <= u32::MAX as u64 {
                    let number = L1BatchNumber(self.next as u32);
                    if completions.is_ready(number) {
                        self.phase = TaskPhase::Marking;
                        return TaskAction::MarkProcessed(number);
                    }
                }
                TaskAction::Wait
            },
            TaskPhase::Marking => TaskAction::AwaitAnswer(L1BatchNumber(self.next as u32)),
            TaskPhase::Stopped => TaskAction::Stop,
            TaskPhase::Failed => TaskAction::Fail,
        }
    }

    /// Takes the sink's answer to a `MarkProcessed`, and says whether the
    /// watermark has moved.
    ///
    /// With `marked` the batch is removed from `completions` and the
    /// watermark moves up by one; the task waits again. Without it the task
    /// has failed, and so it has if `completions` does not let the batch go,
    /// which cannot happen while the task and the map make a valid pipeline:
    /// while the task is the only one to remove signals from the map. A task
    /// that awaits no answer ignores the call.
    pub fn confirm(&mut self, completions: &mut CompletionMap, marked: bool) -> (advanced: bool)
        ensures
            final(self)@ == old(self)@.confirm(old(completions)@, marked),
            final(completions)@ == old(self)@.confirm_map(old(completions)@, marked),
            advanced == old(self)@.advances(old(completions)@, marked),
            final(self)@.wf(),
            old(completions)@.wf() ==> final(completions)@.wf(),
            advanced ==> final(self)@.watermark() == old(self)@.watermark() + 1,
            !advanced ==> final(self)@.watermark() == old(self)@.watermark(),
            System::of(old(completions)@, old(self)@).wf() ==> {
                &&& System::of(final(completions)@, final(self)@).wf()
                &&& advanced == (old(self)@.phase == TaskPhase::Marking && marked)
            },
    {
        proof {
            use_type_invariant(&*self);
            if System::of(completions@, self@).wf() {
                lemma_step_wf(System::of(completions@, self@), Event::Marked(marked));
            }
        }
        match self.phase {
            TaskPhase::Marking => {
                if marked && completions.remove(L1BatchNumber(self.next as u32)) {
                    self.phase = TaskPhase::Waiting;
                    self.next = self.next + 1;
                    true
                } else {
                    self.phase = TaskPhase::Failed;
                    false
                }
            },
            _ => false,
        }
    }
}

} // verus!
