//! The concurrent output handler factory and its watermark task.

use crate::batch::L1BatchNumber;
use crate::completion_map::lemma_retire_span_keeps;
use crate::completion_map::CompletionMap;
use crate::completion_map::Completions;
use crate::execution::advance_events;
use crate::execution::lemma_ready_batches_drain;
use crate::execution::lemma_run_push;
use crate::execution::task_events;
use crate::execution::Event;
use crate::execution::System;
use crate::handler::InnerFactory;
use crate::handler::WrappingHandler;
use crate::sink::IoSink;
use crate::watermark::TaskAction;
use crate::watermark::TaskModel;
use crate::watermark::TaskPhase;
use crate::watermark::WatermarkTask;
use vstd::prelude::*;

verus! {

/// Why no handler was made for a batch.
pub enum CreateHandlerError<E> {
    /// The inner factory failed; the completion map was not touched.
    Inner(E),
    /// A handler for the batch has been requested before.
    Duplicate(L1BatchNumber),
}

/// How a run of the watermark task ended without an error.
#[derive(Clone, Copy, Debug, PartialEq, Eq, Structural)]
pub enum RunStatus {
    /// The stop signal was seen; the task has returned for good.
    Stopped,
    /// The batch right above the watermark is not ready. The task would
    /// sleep here; run it again when a batch was requested or resolved, or
    /// when the stop signal fires.
    Waiting,
}

/// Why the watermark task ended with an error.
pub enum TaskError<E> {
    /// The sink failed to record a batch.
    Sink(E),
    /// The task had failed before, or the completion map did not let a
    /// recorded batch go: the task was run on a map that is not its own.
    Aborted,
}

/// Issues wrapping handlers and registers their completion signals.
pub struct ConcurrentOutputHandlerFactory<F> {
    completions: CompletionMap,
    inner: F,
}

/// The background half of the factory: folds completions into the watermark
/// of the sink, in batch order.
pub struct ConcurrentOutputHandlerFactoryTask<Io> {
    io: Io,
    task: Option<WatermarkTask>,
}

impl<F> View for ConcurrentOutputHandlerFactory<F> {
    type V = Completions;

    closed spec fn view(&self) -> Completions {
        self.completions@
    }
}

impl<F: InnerFactory> ConcurrentOutputHandlerFactory<F> {
    /// Makes both halves: the factory with an empty completion map, and the
    /// task, which has not started yet.
    pub fn new<Io: IoSink>(io: Io, inner: F) -> (halves: (
        ConcurrentOutputHandlerFactory<F>,
        ConcurrentOutputHandlerFactoryTask<Io>,
    ))
        ensures
            halves.0@ == Completions::empty(),
            halves.0@.wf(),
            !halves.1.started(),
            halves.1.wf(),
            halves.1.works_on(halves.0@),
            halves.0.inner_factory() == inner,
            halves.1.sink() == io,
    {
        (
            ConcurrentOutputHandlerFactory { completions: CompletionMap::new(), inner },
            ConcurrentOutputHandlerFactoryTask { io, task: None },
        )
    }

    /// The completion map of the factory.
    pub fn completions(&self) -> (completions: &CompletionMap)
        ensures
            completions@ == self@,
    {
        &self.completions
    }

    /// The completion map of the factory, to lend to a wrapping handler or
    /// to the watermark task.
    pub fn completions_mut(&mut self) -> (completions: &mut CompletionMap)
        ensures
            completions@ == old(self)@,
            final(self)@ == final(completions)@,
    {
        &mut self.completions
    }

    /// The factory that makes the inner handlers.
    pub closed spec fn inner_factory(&self) -> F {
        self.inner
    }

    /// The factory that makes the inner handlers.
    pub fn inner_factory_mut(&mut self) -> (inner: &mut F)
        ensures
            *inner == old(self).inner_factory(),
            final(self).inner_factory() == *final(inner),
            final(self)@ == old(self)@,
    {
        &mut self.inner
    }

    /// Makes the handler for a batch.
    ///
    /// The inner factory is asked first, for this very batch; if it fails,
    /// its error comes back and the completion map is not touched. The
    /// request succeeds exactly when the inner factory has made a handler
    /// and the batch was never requested before. Then a pending signal is
    /// registered for the batch, which fails if the batch was requested
    /// before. What comes back on success resolves that signal when it has
    /// finalized the batch.
    ///
    /// The factory does not look at the task. A request is accepted as well
    /// when the task has returned; its signal then stays in the map, since
    /// nobody is left to remove it.
    pub fn create_handler(&mut self, number: L1BatchNumber) -> (r: Result<
        WrappingHandler<F::Handler>,
        CreateHandlerError<F::Error>,
    >)
        ensures
            old(self)@.wf() ==> final(self)@.wf(),
            match r {
                Ok(handler) => {
                    &&& handler.batch() == number
                    &&& !old(self)@.seen(number.0 as int)
                    &&& final(self)@ == old(self)@.insert(number.0 as int)
                },
                Err(CreateHandlerError::Duplicate(n)) => {
                    &&& n == number
                    &&& old(self)@.seen(number.0 as int)
                    &&& final(self)@ == old(self)@
                },
                Err(CreateHandlerError::Inner(_)) => final(self)@ == old(self)@,
            },
            exists|inner: &mut F, created: Result<F::Handler, F::Error>|
                mut_ref_current(inner) == old(self).inner_factory() && mut_ref_future(inner)
                    == final(self).inner_factory() && #[trigger] call_ensures(
                    F::create_inner,
                    (inner, number),
                    created,
                ) && (r is Ok <==> created is Ok && !old(self)@.seen(number.0 as int)) && (r matches Ok(
                    handler,
                ) ==> created == Ok::<F::Handler, F::Error>(handler.handler())) && (r matches Err(
                    CreateHandlerError::Inner(e),
                ) ==> created == Err::<F::Handler, F::Error>(e)),
    {
        let inner = &mut self.inner;
        let created = inner.create_inner(number);
        register(&mut self.completions, number, created)
    }
}

/// Registers the signal for a batch whose inner handler the inner factory
/// was asked for, and wraps the handler.
///
/// Succeeds exactly when the inner factory has made a handler and the batch
/// was never requested before; the batch then has a pending signal. A
/// failure of the inner factory comes back as it is, before the map is
/// looked at; a batch that was requested before is a duplicate. In both
/// cases the map stays as it was.
pub fn register<H, E>(
    completions: &mut CompletionMap,
    number: L1BatchNumber,
    created: Result<H, E>,
) -> (r: Result<WrappingHandler<H>, CreateHandlerError<E>>)
    ensures
        old(completions)@.wf() ==> final(completions)@.wf(),
        r is Ok <==> created is Ok && !old(completions)@.seen(number.0 as int),
        match r {
            Ok(handler) => {
                &&& handler.batch() == number
                &&& created == Ok::<H, E>(handler.handler())
                &&& final(completions)@ == old(completions)@.insert(number.0 as int)
                &&& final(completions)@.state(number.0 as int)
                    == crate::completion_map::BatchState::Requested
            },
            Err(CreateHandlerError::Duplicate(n)) => {
                &&& n == number
                &&& created is Ok
                &&& final(completions)@ == old(completions)@
            },
            Err(CreateHandlerError::Inner(e)) => {
                &&& created == Err::<H, E>(e)
                &&& final(completions)@ == old(completions)@
            },
        },
{
    match created {
        Err(error) => Err(CreateHandlerError::Inner(error)),
        Ok(inner) => match completions.insert(number) {
            Err(duplicate) => Err(CreateHandlerError::Duplicate(duplicate.number)),
            Ok(()) => Ok(WrappingHandler::new(number, inner)),
        },
    }
}

/// What one run of the watermark task does, from the task `t0` and the map
/// `m0` to the task `t1` and the map `m1`, with result `r`.
///
/// The task passes the batches `t0.next, .., t1.next - 1`, all of which were
/// ready, and removes their signals. It stops at once on the stop signal;
/// otherwise it ends at the first batch that is not ready, or at the first
/// batch that the sink fails to record.
pub open spec fn ran<E>(
    t0: TaskModel,
    m0: Completions,
    t1: TaskModel,
    m1: Completions,
    stop: bool,
    r: Result<RunStatus, TaskError<E>>,
) -> bool {
    &&& t1.first == t0.first
    &&& t0.next <= t1.next
    &&& forall|n: int| t0.next <= n < t1.next ==> #[trigger] m0.ready(n)
    &&& m1 == m0.retire_span(t0.next, t1.next)
    &&& t1.next == t0.next ==> m1 == m0
    &&& t1.next > t0.next ==> t0.phase == TaskPhase::Waiting && !stop && m0.ready(t0.next)
    &&& match r {
        Ok(RunStatus::Stopped) => {
            &&& t1.phase == TaskPhase::Stopped
            &&& t0.phase == TaskPhase::Stopped || (t0.phase == TaskPhase::Waiting && stop)
        },
        Ok(RunStatus::Waiting) => {
            &&& t1.phase == TaskPhase::Waiting
            &&& t0.phase == TaskPhase::Waiting
            &&& !stop
            &&& !m0.ready(t1.next)
            &&& !m1.ready(t1.next)
        },
        Err(TaskError::Sink(_)) => {
            &&& t1.phase == TaskPhase::Failed
            &&& t0.phase == TaskPhase::Waiting
            &&& !stop
            &&& m0.ready(t1.next)
            &&& m1.ready(t1.next)
        },
        Err(TaskError::Aborted) => {
            &&& t1.phase == TaskPhase::Failed
            &&& t0.phase == TaskPhase::Failed || (t0.phase == TaskPhase::Waiting && !stop
                && m1.ready(t1.next) && !m1.can_retire(t1.next))
        },
    }
}

impl<Io: IoSink> ConcurrentOutputHandlerFactoryTask<Io> {
    /// Whether the task has read the sink's watermark.
    pub closed spec fn started(&self) -> bool {
        self.task is Some
    }

    /// The state of a task that has started.
    pub closed spec fn model(&self) -> TaskModel {
        self.task->0@
    }

    /// A task that has started is valid, and between runs it awaits no
    /// answer of the sink.
    pub closed spec fn wf(&self) -> bool {
        self.task matches Some(task) ==> task@.wf() && task@.phase != TaskPhase::Marking
    }

    /// Whether `map` is the map that the task works on: the batches that the
    /// map has retired are those that the task has passed. It is so for the
    /// two halves that `new` makes, every run keeps it so, and nothing that
    /// the factory or a handler does to the map changes it.
    pub closed spec fn works_on(&self, map: Completions) -> bool {
        match self.task {
            Some(task) => System::of(map, task@).wf(),
            None => map.wf() && map.retired_from == map.retired_to,
        }
    }

    /// Whether a map is the task's own depends on the retired batches only.
    pub proof fn lemma_works_on_stable(&self, before: Completions, after: Completions)
        requires
            self.wf(),
            self.works_on(before),
            after.wf(),
            after.retired_from == before.retired_from,
            after.retired_to == before.retired_to,
        ensures
            self.works_on(after),
    {
    }

    /// The pipeline that a task and its map make when the run that leads to
    /// `after` sets out.
    pub proof fn lemma_works_on_entry(&self, after: &Self, map: Completions)
        requires
            self.wf(),
            self.works_on(map),
            after.started(),
            after.wf(),
        ensures
            System::of(map, self.entry(after)).wf(),
            self.entry(after).phase != TaskPhase::Marking,
    {
    }

    /// The state from which a run sets out: that of a task that has started,
    /// and for one that has not, the start at the watermark that the sink
    /// reports, which is where `after` began.
    pub open spec fn entry(&self, after: &Self) -> TaskModel {
        if self.started() {
            self.model()
        } else {
            TaskModel::start(after.model().first - 1)
        }
    }

    /// The sink that the task writes to.
    pub closed spec fn sink(&self) -> Io {
        self.io
    }

    /// The sink that the task writes to.
    pub fn io(&self) -> (io: &Io)
        ensures
            *io == self.sink(),
    {
        &self.io
    }

    /// The watermark as the task has it, or `None` before the task has
    /// started.
    pub fn watermark(&self) -> (number: Option<L1BatchNumber>)
        ensures
            number is Some <==> self.started(),
            number matches Some(n) ==> n.0 == self.model().watermark(),
    {
        match &self.task {
            Some(task) => Some(task.watermark()),
            None => None,
        }
    }

    /// The phase of the task, or `None` before the task has started.
    pub fn phase(&self) -> (phase: Option<TaskPhase>)
        ensures
            phase is Some <==> self.started(),
            phase matches Some(p) ==> p == self.model().phase,
    {
        match &self.task {
            Some(task) => Some(task.phase()),
            None => None,
        }
    }

    /// Runs the task until it would have to wait.
    ///
    /// A task that has not started reads the watermark of the sink first.
    /// Then, as long as `stop` is not set and the batch right above the
    /// watermark is ready in `completions`, the sink is asked to record that
    /// batch, its signal is removed and the watermark moves up by one.
    ///
    /// With `stop` set the task returns `Stopped` and asks the sink for
    /// nothing. When the next batch is not ready it returns `Waiting`. When
    /// the sink fails, the error comes back and the task has failed for
    /// good; the batch keeps its resolved signal.
    ///
    /// Of the sink the contract says this. A task that has not started
    /// starts right after the watermark that `current` gives. After that the
    /// sink is called through `mark_processed` only: once for each batch
    /// that the task passes, in order, each call finding the sink as the
    /// call before left it, and once more for the batch at which the task
    /// failed, if it failed at the sink. `sinks` are the states of the sink
    /// between the calls and `answers` what the calls gave back; the error
    /// that comes back is the last answer.
    pub fn run(&mut self, completions: &mut CompletionMap, stop: bool) -> (r: Result<
        RunStatus,
        TaskError<Io::Error>,
    >)
        requires
            old(self).wf(),
        ensures
            final(self).wf(),
            final(self).started(),
            old(completions)@.wf() ==> final(completions)@.wf(),
            ran(
                old(self).entry(final(self)),
                old(completions)@,
                final(self).model(),
                final(completions)@,
                stop,
                r,
            ),
            final(self).model().wf(),
            old(self).works_on(old(completions)@) ==> {
                &&& final(self).works_on(final(completions)@)
                &&& r matches Err(TaskError::Aborted) ==> old(self).started() && old(
                    self,
                ).model().phase == TaskPhase::Failed
            },
            !old(self).started() ==> exists|current: L1BatchNumber|
                final(self).model().first == current.0 + 1 && #[trigger] call_ensures(
                    Io::current,
                    (&old(self).sink(),),
                    current,
                ),
            exists|sinks: Seq<Io>, answers: Seq<Result<(), Io::Error>>|
                #![trigger sinks.len(), answers.len()]
                {
                    let first = old(self).entry(final(self)).next;
                    let passed = final(self).model().next - first;
                    &&& sinks.len() == answers.len() + 1
                    &&& passed <= answers.len() <= passed + 1
                    &&& sinks[0] == old(self).sink()
                    &&& sinks[answers.len() as int] == final(self).sink()
                    &&& forall|i: int|
                        #![trigger answers[i]]
                        #![trigger sinks[i]]
                        0 <= i < answers.len() ==> {
                            &&& i < passed ==> answers[i] is Ok
                            &&& exists|io: &mut Io|
                                mut_ref_current(io) == sinks[i] && mut_ref_future(io) == sinks[i
                                    + 1] && #[trigger] call_ensures(
                                    Io::mark_processed,
                                    (io, L1BatchNumber((first + i) as u32)),
                                    answers[i],
                                )
                        }
                    &&& match r {
                        Ok(_) => answers.len() == passed,
                        Err(TaskError::Sink(error)) => answers.len() == passed + 1
                            && answers[passed] == Err::<(), Io::Error>(error),
                        Err(TaskError::Aborted) => answers.len() == passed + 1 ==> answers[passed] is Ok,
                    }
                },
    {
        let ghost mut reported = L1BatchNumber(0);
        let mut task = match self.task.take() {
            Some(task) => task,
            None => {
                let current = self.io.current();
                proof {
                    reported = current;
                }
                WatermarkTask::new(current)
            },
        };
        let ghost t0 = task@;
        let ghost m0 = completions@;
        let ghost own = System::of(m0, t0).wf();
        let ghost mut sinks: Seq<Io> = seq![self.io];
        let ghost mut answers: Seq<Result<(), Io::Error>> = Seq::empty();
        let mut result: Result<RunStatus, TaskError<Io::Error>> = Ok(RunStatus::Waiting);
        loop
            invariant_except_break
                task@.phase == t0.phase,
                answers.len() == task@.next - t0.next,
            invariant
                sinks.len() == answers.len() + 1,
                sinks[0] == old(self).io,
                sinks[answers.len() as int] == self.io,
                forall|i: int|
                    #![trigger answers[i]]
                    0 <= i < answers.len() ==> {
                        &&& i < task@.next - t0.next ==> answers[i] is Ok
                        &&& exists|io: &mut Io|
                            mut_ref_current(io) == sinks[i] && mut_ref_future(io) == sinks[i + 1]
                                && #[trigger] call_ensures(
                                Io::mark_processed,
                                (io, L1BatchNumber((t0.next + i) as u32)),
                                answers[i],
                            )
                    },
                t0.wf(),
                t0.phase != TaskPhase::Marking,
                task@.wf(),
                m0.wf() ==> completions@.wf(),
                task@.first == t0.first,
                t0.next <= task@.next,
                forall|n: int| t0.next <= n < task@.next ==> #[trigger] m0.ready(n),
                completions@ == m0.retire_span(t0.next, task@.next),
                task@.next > t0.next ==> t0.phase == TaskPhase::Waiting && !stop,
                own ==> System::of(completions@, task@).wf(),
            ensures
                task@.phase != TaskPhase::Marking,
                ran(t0, m0, task@, completions@, stop, result),
                own && result is Err && result->Err_0 is Aborted ==> t0.phase == TaskPhase::Failed,
                task@.next - t0.next <= answers.len() <= task@.next - t0.next + 1,
                match result {
                    Ok(_) => answers.len() == task@.next - t0.next,
                    Err(TaskError::Sink(error)) => answers.len() == task@.next - t0.next + 1
                        && answers[task@.next - t0.next] == Err::<(), Io::Error>(error),
                    Err(TaskError::Aborted) => answers.len() == task@.next - t0.next + 1
                        ==> answers[task@.next - t0.next] is Ok,
                },
            decreases u32::MAX + 2 - task@.next,
        {
            proof {
                lemma_retire_span_keeps(m0, t0.next, task@.next, task@.next);
            }
            match task.poll(completions, stop) {
                TaskAction::Stop => {
                    result = Ok(RunStatus::Stopped);
                    break ;
                },
                TaskAction::Wait => {
                    result = Ok(RunStatus::Waiting);
                    break ;
                },
                TaskAction::Fail | TaskAction::AwaitAnswer(_) => {
                    result = Err(TaskError::Aborted);
                    break ;
                },
                TaskAction::MarkProcessed(number) => {
                    let ghost sinks_before = sinks;
                    let ghost answers_before = answers;
                    let ghost sink_before = self.io;
                    let io = &mut self.io;
                    let answer = io.mark_processed(number);
                    proof {
                        // The call just made is the next link of the chain.
                        sinks = sinks.push(self.io);
                        answers = answers.push(answer);
                        let last = answers_before.len() as int;
                        assert(sinks[last] == sink_before);
                        assert(sinks[last + 1] == self.io);
                        assert(answers[last] == answer);
                        assert(number == L1BatchNumber((t0.next + last) as u32));
                        assert(exists|io: &mut Io|
                            mut_ref_current(io) == sink_before && mut_ref_future(io) == self.io
                                && #[trigger] call_ensures(
                                Io::mark_processed,
                                (io, number),
                                answer,
                            ));
                        assert(exists|io: &mut Io|
                            mut_ref_current(io) == sinks[last] && mut_ref_future(io) == sinks[last
                                + 1] && #[trigger] call_ensures(
                                Io::mark_processed,
                                (io, L1BatchNumber((t0.next + last) as u32)),
                                answers[last],
                            ));
                        assert forall|i: int|
                            #![trigger answers[i]]
                            0 <= i < answers.len() implies exists|io: &mut Io|
                            mut_ref_current(io) == sinks[i] && mut_ref_future(io) == sinks[i + 1]
                                && #[trigger] call_ensures(
                                Io::mark_processed,
                                (io, L1BatchNumber((t0.next + i) as u32)),
                                answers[i],
                            ) by {
                            if i < last {
                                assert(answers[i] == answers_before[i]);
                                assert(sinks[i] == sinks_before[i]);
                                assert(sinks[i + 1] == sinks_before[i + 1]);
                            }
                        }
                    }
                    match answer {
                        Ok(_) => {
                            if !task.confirm(completions, true) {
                                result = Err(TaskError::Aborted);
                                break ;
                            }
                        },
                        Err(error) => {
                            task.confirm(completions, false);
                            result = Err(TaskError::Sink(error));
                            break ;
                        },
                    }
                },
            }
        }
        self.task = Some(task);
        assert(!old(self).started() ==> call_ensures(
            Io::current,
            (&old(self).sink(),),
            reported,
        ));
        result
    }
}

/// A run of the task on its own map is an execution of the pipeline in
/// which only the task moves, so that what holds of every execution holds
/// of every run.
pub proof fn lemma_run_is_execution<E>(
    t0: TaskModel,
    m0: Completions,
    t1: TaskModel,
    m1: Completions,
    stop: bool,
    r: Result<RunStatus, TaskError<E>>,
) -> (events: Seq<Event>)
    requires
        System::of(m0, t0).wf(),
        t0.phase != TaskPhase::Marking,
        ran(t0, m0, t1, m1, stop, r),
    ensures
        task_events(events),
        System::of(m0, t0).run(events) == System::of(m1, t1),
{
    let s = System::of(m0, t0);
    if t0.phase == TaskPhase::Waiting && !stop {
        let count = (t1.next - t0.next) as nat;
        lemma_ready_batches_drain(s, count);
        let passed = advance_events(count);
        match r {
            Ok(_) => passed,
            Err(_) => {
                lemma_run_push(s, passed, Event::Poll(false));
                lemma_run_push(s, passed.push(Event::Poll(false)), Event::Marked(false));
                passed.push(Event::Poll(false)).push(Event::Marked(false))
            },
        }
    } else if t0.phase == TaskPhase::Waiting {
        lemma_run_push(s, Seq::empty(), Event::Poll(true));
        Seq::<Event>::empty().push(Event::Poll(true))
    } else {
        Seq::empty()
    }
}

} // verus!
