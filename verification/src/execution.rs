//! Executions of the whole pipeline: the completion map and the watermark
//! task together, driven by the events that reach them, and what holds of
//! every such execution.
//!
//! Handlers and the task run side by side, but each of them touches the
//! shared state in single steps, one at a time. An execution is the order in
//! which those steps take effect, whatever the order in which the handlers
//! were started or finish.

use crate::completion_map::Completions;
use crate::watermark::TaskAction;
use crate::watermark::TaskModel;
use crate::watermark::TaskPhase;
use vstd::prelude::*;

verus! {

/// Something that happens to the pipeline.
pub enum Event {
    /// A handler is requested for a batch, its inner handler having been
    /// created: what `CompletionMap::insert` does.
    Request(int),
    /// The wrapping handler of a batch has finished the batch successfully:
    /// what `CompletionMap::resolve` does.
    Resolve(int),
    /// The inner handler of a batch has failed to finish the batch. Nothing
    /// changes.
    Failure(int),
    /// The task is polled; the flag says whether the stop signal has fired:
    /// what `WatermarkTask::poll` does.
    Poll(bool),
    /// The sink answers the task's request to record a batch; the flag says
    /// whether it has recorded the batch: what `WatermarkTask::confirm` does.
    Marked(bool),
}

/// The completion map, the watermark task that works on it, and the
/// watermark that the sink holds.
///
/// Of the sink this takes for granted what its interface says: the watermark
/// that it holds is the batch that it has confirmed last, and it changes at
/// no other time.
pub struct System {
    pub map: Completions,
    pub task: TaskModel,
    pub sink: int,
}

impl System {
    /// The pipeline as it starts: no batch was requested, and the sink
    /// reports `current` as its watermark.
    pub open spec fn initial(current: int) -> System {
        System { map: Completions::empty(), task: TaskModel::start(current), sink: current }
    }

    /// The pipeline that a task and a map make, the sink holding the
    /// watermark that the task has.
    pub open spec fn of(map: Completions, task: TaskModel) -> System {
        System { map, task, sink: task.watermark() }
    }

    /// The map and the task are valid and belong together: the batches that
    /// the map has retired are those that the task has passed, the task's
    /// watermark is the sink's, and a batch that the sink was asked to record
    /// is ready.
    pub open spec fn wf(self) -> bool {
        &&& self.map.wf()
        &&& self.task.wf()
        &&& self.sink == self.task.watermark()
        &&& if self.map.retired_from == self.map.retired_to {
            self.task.next == self.task.first
        } else {
            self.map.retired_from == self.task.first && self.map.retired_to == self.task.next
        }
        &&& self.task.phase == TaskPhase::Marking ==> self.map.ready(self.task.next)
    }

    /// The watermark: the greatest batch that the sink has recorded.
    pub open spec fn watermark(self) -> int {
        self.sink
    }

    /// Whether a request for batch `n` succeeds now.
    pub open spec fn accepts(self, n: int) -> bool {
        0 <= n <= u32::MAX && !self.map.seen(n)
    }

    /// The pipeline after one event.
    pub open spec fn step(self, event: Event) -> System {
        match event {
            Event::Request(n) => System { map: self.map.insert(n), ..self },
            Event::Resolve(n) => System { map: self.map.resolve(n), ..self },
            Event::Failure(n) => self,
            Event::Poll(stop) => System { task: self.task.poll(self.map, stop), ..self },
            Event::Marked(marked) => System {
                map: self.task.confirm_map(self.map, marked),
                task: self.task.confirm(self.map, marked),
                sink: if self.task.phase == TaskPhase::Marking && marked {
                    self.task.next
                } else {
                    self.sink
                },
            },
        }
    }

    /// Whether an event makes the task ask the sink to record a batch: it
    /// is a poll that the task answers with `MarkProcessed`, which a task
    /// does only while it waits, never while an answer is outstanding.
    pub open spec fn writes(self, event: Event) -> bool {
        event matches Event::Poll(stop) && self.task.action(self.map, stop) is MarkProcessed
    }

    /// The pipeline after a sequence of events.
    pub open spec fn run(self, events: Seq<Event>) -> System
        decreases events.len(),
    {
        if events.len() == 0 {
            self
        } else {
            self.run(events.drop_last()).step(events.last())
        }
    }
}

/// An event takes a valid pipeline to a valid pipeline.
pub proof fn lemma_step_wf(s: System, event: Event)
    requires
        s.wf(),
    ensures
        s.step(event).wf(),
{
    if let Event::Marked(marked) = event {
        if s.task.advances(s.map, marked) {
            assert(s.step(event).map.signals.dom() =~= s.map.signals.dom().remove(
                s.task.next as u32,
            ));
        }
    }
}

/// A sequence of events takes a valid pipeline to a valid pipeline.
pub proof fn lemma_run_wf(s: System, events: Seq<Event>)
    requires
        s.wf(),
    ensures
        s.run(events).wf(),
    decreases events.len(),
{
    if events.len() > 0 {
        lemma_run_wf(s, events.drop_last());
        lemma_step_wf(s.run(events.drop_last()), events.last());
    }
}

/// Running a sequence of events is running a prefix and then the rest.
pub proof fn lemma_run_split(s: System, events: Seq<Event>, k: int)
    requires
        0 <= k <= events.len(),
    ensures
        s.run(events) == s.run(events.take(k)).run(events.skip(k)),
    decreases events.len() - k,
{
    let rest = events.skip(k);
    if k == events.len() {
        assert(events.take(k) =~= events);
    } else {
        lemma_run_split(s, events.drop_last(), k);
        assert(events.drop_last().take(k) =~= events.take(k));
        assert(events.drop_last().skip(k) =~= rest.drop_last());
        assert(rest.last() == events.last());
    }
}

/// The watermark never goes down: of two points of an execution, the later
/// one has the greater watermark, or the same.
pub proof fn lemma_watermark_monotonic(s: System, events: Seq<Event>, i: int, j: int)
    requires
        s.wf(),
        0 <= i <= j <= events.len(),
    ensures
        s.run(events.take(i)).watermark() <= s.run(events.take(j)).watermark(),
    decreases j - i,
{
    if i < j {
        lemma_watermark_monotonic(s, events, i, j - 1);
        lemma_run_wf(s, events.take(j - 1));
        assert(events.take(j).drop_last() =~= events.take(j - 1));
    }
}

/// The watermark moves one batch at a time, and only when the sink confirms
/// the batch right above it while that batch is ready. In particular the
/// first batch that moves the watermark of a pipeline started at `current`
/// is `current + 1`.
pub proof fn lemma_watermark_steps_by_one(s: System, event: Event)
    requires
        s.wf(),
    ensures
        s.step(event).watermark() == s.watermark() || s.step(event).watermark() == s.watermark()
            + 1,
        s.step(event).watermark() == s.watermark() + 1 ==> {
            &&& event == Event::Marked(true)
            &&& s.task.phase == TaskPhase::Marking
            &&& s.map.ready(s.watermark() + 1)
            &&& s.step(event).map.state(s.watermark() + 1)
                == crate::completion_map::BatchState::Forgotten
        },
{
}

/// A batch number is accepted once: after batch `n` has been seen, no
/// request for it succeeds, whatever has happened in between.
pub proof fn lemma_seen_forever(s: System, events: Seq<Event>, n: int)
    requires
        s.wf(),
        s.map.seen(n),
    ensures
        s.run(events).map.seen(n),
        !s.run(events).accepts(n),
    decreases events.len(),
{
    if events.len() > 0 {
        lemma_seen_forever(s, events.drop_last(), n);
        lemma_run_wf(s, events.drop_last());
    }
}

/// Of two requests for the same batch in one execution, at most one
/// succeeds.
pub proof fn lemma_request_at_most_once(s: System, events: Seq<Event>, i: int, j: int, n: int)
    requires
        s.wf(),
        0 <= i < j < events.len(),
        events[i] == Event::Request(n),
        events[j] == Event::Request(n),
    ensures
        !(s.run(events.take(i)).accepts(n) && s.run(events.take(j)).accepts(n)),
{
    let at_i = s.run(events.take(i));
    lemma_run_wf(s, events.take(i));
    if at_i.accepts(n) {
        let after_i = at_i.step(events[i]);
        lemma_step_wf(at_i, events[i]);
        assert(after_i.map.seen(n));
        assert(events.take(i + 1).drop_last() =~= events.take(i));
        assert(s.run(events.take(i + 1)) == after_i);
        let middle = events.take(j).skip(i + 1);
        lemma_run_split(s, events.take(j), i + 1);
        assert(events.take(j).take(i + 1) =~= events.take(i + 1));
        lemma_seen_forever(after_i, middle, n);
    }
}

/// Once the task has returned, nothing moves any more: no event makes it ask
/// the sink for anything, and the task, the watermark and the batches that
/// were retired stay as they are.
pub proof fn lemma_finished_is_final(s: System, events: Seq<Event>)
    requires
        s.task.finished(),
    ensures
        s.run(events).task == s.task,
        s.run(events).watermark() == s.watermark(),
        s.run(events).map.retired_from == s.map.retired_from,
        s.run(events).map.retired_to == s.map.retired_to,
        forall|k: int|
            0 <= k < events.len() ==> !(#[trigger] s.run(events.take(k))).writes(events[k]),
    decreases events.len(),
{
    if events.len() > 0 {
        let shorter = events.drop_last();
        lemma_finished_is_final(s, shorter);
        assert forall|k: int| 0 <= k < events.len() implies !(#[trigger] s.run(
            events.take(k),
        )).writes(events[k]) by {
            if k < shorter.len() {
                assert(shorter.take(k) =~= events.take(k));
            } else {
                assert(events.take(k) =~= shorter);
            }
        }
    }
}

/// The stop signal ends a waiting task at its next poll, and the poll asks
/// the sink for nothing.
pub proof fn lemma_stop_wins(s: System)
    requires
        s.task.phase == TaskPhase::Waiting,
    ensures
        s.step(Event::Poll(true)).task.phase == TaskPhase::Stopped,
        s.task.action(s.map, true) == TaskAction::Stop,
        !s.writes(Event::Poll(true)),
        s.step(Event::Poll(true)).watermark() == s.watermark(),
{
}

/// A batch that finishes while the task waits for another one does not move
/// the watermark, and does not end the wait either: the task goes on
/// waiting for the same batch.
pub proof fn lemma_other_batch_does_not_advance(s: System, m: int)
    requires
        s.wf(),
        m != s.task.next,
    ensures
        s.step(Event::Resolve(m)).watermark() == s.watermark(),
        s.step(Event::Resolve(m)).task == s.task,
        s.step(Event::Resolve(m)).map.ready(s.task.next) == s.map.ready(s.task.next),
        s.task.action(s.step(Event::Resolve(m)).map, false) == s.task.action(s.map, false),
{
}

/// A batch whose handler never finishes holds the watermark below it for
/// good: as long as no event resolves batch `n`, the watermark stays under
/// `n`, whatever else happens.
pub proof fn lemma_unresolved_batch_stalls(s: System, events: Seq<Event>, n: int)
    requires
        s.wf(),
        s.watermark() < n,
        !s.map.ready(n),
        forall|k: int| 0 <= k < events.len() ==> events[k] != Event::Resolve(n),
    ensures
        s.run(events).watermark() < n,
        !s.run(events).map.ready(n),
    decreases events.len(),
{
    if events.len() > 0 {
        let shorter = events.drop_last();
        lemma_unresolved_batch_stalls(s, shorter, n);
        lemma_run_wf(s, shorter);
        assert(events.last() == events[events.len() - 1]);
    }
}

/// A stalled batch keeps no other handler from finishing: the signal of any
/// batch in the map is resolved when its handler finishes, whatever the
/// state of the other batches.
pub proof fn lemma_handlers_are_independent(s: System, m: int)
    requires
        s.map.contains(m),
    ensures
        s.step(Event::Resolve(m)).map.ready(m),
        forall|n: int| n != m ==> s.step(Event::Resolve(m)).map.state(n) == s.map.state(n),
{
}

/// Whether event `r` of the execution is the request that brought batch `m`
/// into the map.
pub open spec fn requested_at(s: System, events: Seq<Event>, m: int, r: int) -> bool {
    &&& 0 <= r < events.len()
    &&& events[r] == Event::Request(m)
    &&& s.run(events.take(r)).accepts(m)
}

/// Whether event `i` of the execution is the successful end of the handler
/// of batch `m`, at a time when the batch had a signal and the watermark was
/// still below it.
pub open spec fn resolved_at(s: System, events: Seq<Event>, m: int, i: int) -> bool {
    &&& 0 <= i < events.len()
    &&& events[i] == Event::Resolve(m)
    &&& s.run(events.take(i)).map.contains(m)
    &&& s.run(events.take(i)).watermark() < m
}

/// Whether batch `m` was requested and then resolved in the execution, the
/// watermark being below it at that time.
pub open spec fn handled(s: System, events: Seq<Event>, m: int) -> bool {
    exists|r: int, i: int|
        r < i && #[trigger] requested_at(s, events, m, r) && #[trigger] resolved_at(
            s,
            events,
            m,
            i,
        )
}

/// Whether batch `m` was requested in the execution.
pub open spec fn requested(s: System, events: Seq<Event>, m: int) -> bool {
    exists|r: int| #[trigger] requested_at(s, events, m, r)
}

proof fn lemma_requested_extends(s: System, events: Seq<Event>, m: int)
    requires
        events.len() > 0,
        requested(s, events.drop_last(), m),
    ensures
        requested(s, events, m),
{
    let shorter = events.drop_last();
    let r = choose|r: int| requested_at(s, shorter, m, r);
    assert(events.take(r) =~= shorter.take(r));
    assert(requested_at(s, events, m, r));
}

proof fn lemma_handled_extends(s: System, events: Seq<Event>, m: int)
    requires
        events.len() > 0,
        handled(s, events.drop_last(), m),
    ensures
        handled(s, events, m),
{
    let shorter = events.drop_last();
    let (r, i) = choose|r: int, i: int|
        r < i && #[trigger] requested_at(s, shorter, m, r) && #[trigger] resolved_at(
            s,
            shorter,
            m,
            i,
        );
    assert(events.take(r) =~= shorter.take(r));
    assert(events.take(i) =~= shorter.take(i));
    assert(requested_at(s, events, m, r));
    assert(resolved_at(s, events, m, i));
}

/// What an execution from the start remembers of batch `m`: a signal in the
/// map stems from a request, and a batch that is ready or that the watermark
/// has passed was requested and then resolved.
proof fn lemma_history(current: int, events: Seq<Event>, m: int)
    requires
        0 <= current <= u32::MAX,
        current < m,
    ensures
        ({
            let s = System::initial(current).run(events);
            &&& s.wf()
            &&& s.task.first == current + 1
            &&& s.map.contains(m) ==> requested(System::initial(current), events, m)
            &&& s.map.ready(m) || m <= s.watermark() ==> handled(
                System::initial(current),
                events,
                m,
            )
        }),
    decreases events.len(),
{
    let start = System::initial(current);
    if events.len() > 0 {
        let shorter = events.drop_last();
        let before = start.run(shorter);
        lemma_history(current, shorter, m);
        lemma_step_wf(before, events.last());
        let last = shorter.len() as int;
        assert(events.take(last) =~= shorter);
        if before.map.contains(m) {
            lemma_requested_extends(start, events, m);
        }
        if before.map.ready(m) || m <= before.watermark() {
            lemma_handled_extends(start, events, m);
        }
        match events.last() {
            Event::Request(n) => {
                if n == m && before.accepts(m) {
                    assert(requested_at(start, events, m, last));
                }
            },
            Event::Resolve(n) => {
                if n == m && before.map.contains(m) {
                    let r = choose|r: int| requested_at(start, shorter, m, r);
                    assert(events.take(r) =~= shorter.take(r));
                    assert(requested_at(start, events, m, r));
                    assert(resolved_at(start, events, m, last));
                }
            },
            Event::Failure(n) => {},
            Event::Poll(stop) => {},
            Event::Marked(marked) => {},
        }
    }
}

/// The watermark leaves no gaps: when the watermark of an execution from
/// the start has reached batch `n`, every batch from the first one to `n`
/// was requested, and its handler finished successfully while the watermark
/// was still below that batch.
pub proof fn lemma_no_gaps(current: int, events: Seq<Event>, n: int, m: int)
    requires
        0 <= current <= u32::MAX,
        n <= System::initial(current).run(events).watermark(),
        current < m <= n,
    ensures
        handled(System::initial(current), events, m),
{
    lemma_history(current, events, m);
}

/// The batches that the sink was asked to record in the execution, in the
/// order of the requests.
pub open spec fn written(s: System, events: Seq<Event>) -> Seq<int>
    decreases events.len(),
{
    if events.len() == 0 {
        Seq::empty()
    } else if s.run(events.drop_last()).writes(events.last()) {
        written(s, events.drop_last()).push(s.run(events.drop_last()).task.next)
    } else {
        written(s, events.drop_last())
    }
}

/// The sink is asked for the batches in order and without gaps, starting
/// right after the watermark that it reported: request number `i` of an
/// execution from the start is for batch `current + 1 + i`, so that no batch
/// is asked for twice. The last of them may be unanswered or refused; all
/// before it were confirmed. Every poll that the task answers with
/// `MarkProcessed` is counted.
pub proof fn lemma_written_in_order(current: int, events: Seq<Event>)
    requires
        0 <= current <= u32::MAX,
    ensures
        ({
            let start = System::initial(current);
            let end = start.run(events);
            let asked = written(start, events);
            &&& forall|i: int| 0 <= i < asked.len() ==> #[trigger] asked[i] == current + 1 + i
            &&& asked.len() == if end.task.phase == TaskPhase::Marking || end.task.phase
                == TaskPhase::Failed {
                end.watermark() - current + 1
            } else {
                end.watermark() - current
            }
        }),
    decreases events.len(),
{
    if events.len() > 0 {
        let shorter = events.drop_last();
        lemma_written_in_order(current, shorter);
        lemma_history(current, shorter, current + 1);
    }
}

/// No batch is handed to the sink before its handler was requested and has
/// finished: when event `k` of an execution from the start makes the task
/// ask the sink for a batch, that batch was requested and then resolved
/// among the events before `k`.
pub proof fn lemma_written_after_handled(current: int, events: Seq<Event>, k: int)
    requires
        0 <= current <= u32::MAX,
        0 <= k < events.len(),
        System::initial(current).run(events.take(k)).writes(events[k]),
    ensures
        handled(
            System::initial(current),
            events.take(k),
            System::initial(current).run(events.take(k)).task.next,
        ),
        System::initial(current).run(events.take(k)).task.next == System::initial(current).run(
            events.take(k),
        ).watermark() + 1,
{
    let before = System::initial(current).run(events.take(k));
    lemma_history(current, events.take(k), current + 1);
    lemma_history(current, events.take(k), before.task.next);
}

/// Whether nothing but the task moves in `events`: no batch is requested or
/// resolved.
pub open spec fn task_events(events: Seq<Event>) -> bool {
    forall|k: int| 0 <= k < events.len() ==> (#[trigger] events[k]) is Poll || events[k] is Marked
}

/// The events of a task that passes `count` batches in a row: it is polled
/// and the sink confirms, `count` times.
pub open spec fn advance_events(count: nat) -> Seq<Event>
    decreases count,
{
    if count == 0 {
        Seq::empty()
    } else {
        advance_events((count - 1) as nat).push(Event::Poll(false)).push(Event::Marked(true))
    }
}

/// Running one more event is one more step.
pub proof fn lemma_run_push(s: System, events: Seq<Event>, event: Event)
    ensures
        s.run(events.push(event)) == s.run(events).step(event),
        task_events(events) && (event is Poll || event is Marked) ==> task_events(
            events.push(event),
        ),
{
    assert(events.push(event).drop_last() =~= events);
}

/// Ready batches do get passed: a waiting task in front of `count` ready
/// batches passes them all, in order, when it is polled and the sink
/// confirms each one, and their signals are gone afterwards.
pub proof fn lemma_ready_batches_drain(s: System, count: nat)
    requires
        s.wf(),
        s.task.phase == TaskPhase::Waiting,
        forall|n: int| s.task.next <= n < s.task.next + count ==> #[trigger] s.map.ready(n),
    ensures
        task_events(advance_events(count)),
        s.run(advance_events(count)) == System::of(
            s.map.retire_span(s.task.next, s.task.next + count),
            TaskModel { next: s.task.next + count, ..s.task },
        ),
        s.run(advance_events(count)).watermark() == s.watermark() + count,
        forall|n: int|
            s.task.next <= n < s.task.next + count ==> (#[trigger] s.run(
                advance_events(count),
            ).map.state(n)) == crate::completion_map::BatchState::Forgotten,
    decreases count,
{
    lemma_run_wf(s, advance_events(count));
    if count > 0 {
        let shorter = advance_events((count - 1) as nat);
        let batch = s.task.next + count - 1;
        lemma_ready_batches_drain(s, (count - 1) as nat);
        lemma_run_wf(s, shorter);
        let before = s.run(shorter);
        assert(s.map.ready(batch));
        crate::completion_map::lemma_retire_span_keeps(s.map, s.task.next, batch, batch);
        let polled = before.step(Event::Poll(false));
        lemma_run_push(s, shorter, Event::Poll(false));
        lemma_run_push(s, shorter.push(Event::Poll(false)), Event::Marked(true));
        assert(polled.task.advances(polled.map, true));
    }
}

} // verus!
