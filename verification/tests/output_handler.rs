use std::collections::HashMap;
use std::sync::Arc;

use vm_runner::batch::L1BatchNumber;
use vm_runner::completion_map::BatchState;
use vm_runner::factory::ConcurrentOutputHandlerFactory;
use vm_runner::factory::ConcurrentOutputHandlerFactoryTask;
use vm_runner::factory::CreateHandlerError;
use vm_runner::factory::RunStatus;
use vm_runner::factory::TaskError;
use vm_runner::handler::InnerFactory;
use vm_runner::handler::OutputHandler;
use vm_runner::handler::WrappingHandler;
use vm_runner::sink::IoSink;
use vm_runner::watermark::TaskPhase;

/// Stand-in for the execution trace of a batch.
#[derive(Debug, Default)]
struct UpdatesManager {
    blocks: u32,
}

/// A sink that keeps the watermark in memory and can be told to refuse a batch.
#[derive(Debug)]
struct IoMock {
    current: L1BatchNumber,
    max: u32,
    refuse: Option<u32>,
    calls: Vec<u32>,
}

impl IoMock {
    fn new(current: u32, max: u32) -> Self {
        IoMock { current: current.into(), max, refuse: None, calls: Vec::new() }
    }
}

impl IoSink for IoMock {
    type Error = String;

    fn current(&self) -> L1BatchNumber {
        self.current
    }

    fn last_considered(&self) -> L1BatchNumber {
        L1BatchNumber(self.max)
    }

    fn mark_processed(&mut self, number: L1BatchNumber) -> Result<(), String> {
        self.calls.push(number.0);
        if self.refuse == Some(number.0) {
            return Err(format!("cannot record batch #{}", number.0));
        }
        assert_eq!(number.0, self.current.0 + 1, "the sink was asked to skip a batch");
        self.current = number;
        Ok(())
    }
}

/// A handler that takes `delay` seconds of virtual time to finalize its batch.
#[derive(Debug)]
struct TestOutputHandler {
    delay: Option<u64>,
    blocks_seen: u32,
    fail: bool,
}

impl OutputHandler for TestOutputHandler {
    type Updates = UpdatesManager;
    type Error = String;

    fn handle_l2_block(&mut self, updates: &UpdatesManager) -> Result<(), String> {
        self.blocks_seen += 1 + updates.blocks;
        Ok(())
    }

    fn handle_l1_batch(&mut self, _updates: Arc<UpdatesManager>) -> Result<(), String> {
        if self.fail {
            return Err("the handler gave up".to_string());
        }
        Ok(())
    }
}

#[derive(Debug)]
struct TestOutputFactory {
    delays: HashMap<L1BatchNumber, u64>,
    failing: Vec<u32>,
    broken: Vec<u32>,
}

impl TestOutputFactory {
    fn new(delays: HashMap<L1BatchNumber, u64>) -> Self {
        TestOutputFactory { delays, failing: Vec::new(), broken: Vec::new() }
    }
}

impl InnerFactory for TestOutputFactory {
    type Handler = TestOutputHandler;
    type Error = String;

    fn create_inner(&mut self, number: L1BatchNumber) -> Result<TestOutputHandler, String> {
        if self.broken.contains(&number.0) {
            return Err(format!("no handler for batch #{}", number.0));
        }
        let delay = self.delays.get(&number).copied();
        Ok(TestOutputHandler { delay, blocks_seen: 0, fail: self.failing.contains(&number.0) })
    }
}

/// Runs handlers and the watermark task in virtual time: a handler that was
/// started at second `t` with delay `d` finalizes its batch at second `t + d`,
/// and the task runs after every second.
struct OutputHandlerTester {
    output_factory: ConcurrentOutputHandlerFactory<TestOutputFactory>,
    task: ConcurrentOutputHandlerFactoryTask<IoMock>,
    running: Vec<(u64, WrappingHandler<TestOutputHandler>)>,
    now: u64,
    stop: bool,
    last_run: Option<Result<RunStatus, String>>,
    observed: Vec<u32>,
}

impl OutputHandlerTester {
    fn new(io: IoMock, test_factory: TestOutputFactory) -> Self {
        let (output_factory, task) = ConcurrentOutputHandlerFactory::new(io, test_factory);
        let mut tester = OutputHandlerTester {
            output_factory,
            task,
            running: Vec::new(),
            now: 0,
            stop: false,
            last_run: None,
            observed: Vec::new(),
        };
        tester.run_task();
        tester
    }

    fn current(&self) -> L1BatchNumber {
        self.task.io().current
    }

    fn run_task(&mut self) {
        let before = self.current();
        let result = self.task.run(self.output_factory.completions_mut(), self.stop);
        let after = self.current();
        assert!(before <= after, "latest processed batch regressed to #{} back from #{}", after.0, before.0);
        self.observed.push(after.0);
        self.last_run = Some(match result {
            Ok(status) => Ok(status),
            Err(TaskError::Sink(message)) => Err(message),
            Err(TaskError::Aborted) => Err("aborted".to_string()),
        });
    }

    fn spawn_test_task(&mut self, l1_batch_number: L1BatchNumber) -> Result<(), String> {
        let mut output_handler = match self.output_factory.create_handler(l1_batch_number) {
            Ok(handler) => handler,
            Err(CreateHandlerError::Inner(message)) => return Err(message),
            Err(CreateHandlerError::Duplicate(number)) => {
                return Err(format!(
                    "Output handler for L1 batch #{} has already been requested",
                    number.0
                ))
            }
        };
        let updates_manager = UpdatesManager::default();
        output_handler.handle_l2_block(&updates_manager).unwrap();
        let delay = output_handler.inner().delay;
        match delay {
            Some(delay) => self.running.push((self.now + delay, output_handler)),
            None => self.finalize(output_handler),
        }
        Ok(())
    }

    fn finalize(&mut self, mut output_handler: WrappingHandler<TestOutputHandler>) {
        let updates_manager = Arc::new(UpdatesManager::default());
        let _ = output_handler.handle_l1_batch(updates_manager, self.output_factory.completions_mut());
    }

    /// Lets one second of virtual time pass.
    fn tick(&mut self) {
        self.now += 1;
        let mut still_running = Vec::new();
        let running = std::mem::take(&mut self.running);
        for (due, handler) in running {
            if due <= self.now {
                self.finalize(handler);
            } else {
                still_running.push((due, handler));
            }
        }
        self.running = still_running;
        self.run_task();
    }

    /// Waits until the watermark is exactly `l1_batch_number`, for at most `timeout` seconds.
    fn wait_for_batch(&mut self, l1_batch_number: L1BatchNumber, timeout: u64) -> Result<(), String> {
        let mut waited = 0;
        loop {
            let current = self.current();
            if current == l1_batch_number {
                return Ok(());
            }
            if waited >= timeout {
                return Err(format!(
                    "Batch #{} has not been processed yet (current is #{})",
                    l1_batch_number.0, current.0
                ));
            }
            self.tick();
            waited += 1;
        }
    }

    /// Waits until the watermark has reached `l1_batch_number`, checking on the way
    /// that it never goes back.
    fn wait_for_batch_progressively(
        &mut self,
        l1_batch_number: L1BatchNumber,
        timeout: u64,
    ) -> Result<(), String> {
        let mut current = self.current();
        let mut waited = 0;
        loop {
            self.tick();
            waited += 1;
            if waited >= timeout {
                return Err("Timeout".to_string());
            }
            let new_current = self.current();
            if new_current < current {
                return Err(format!(
                    "Latest processed batch regressed to #{} back from #{}",
                    new_current.0, current.0
                ));
            }
            current = new_current;
            if current >= l1_batch_number {
                return Ok(());
            }
        }
    }

    fn stop_and_wait_for_all_tasks(&mut self) -> Result<(), String> {
        self.stop = true;
        self.run_task();
        match self.last_run.clone() {
            Some(Ok(RunStatus::Stopped)) => Ok(()),
            Some(Ok(RunStatus::Waiting)) => Err("the task did not stop".to_string()),
            Some(Err(message)) => Err(message),
            None => Err("the task never ran".to_string()),
        }
    }
}

#[test]
fn monotonically_progress_processed_batches() {
    let io = IoMock::new(0, 10);
    // Progressively higher delays for higher batches, so that each batch is seen
    // being marked as processed: batch 1 after one second, batch 2 after two, etc.
    let delays = (1..10).map(|i| (L1BatchNumber(i), i as u64)).collect();
    let mut tester = OutputHandlerTester::new(io, TestOutputFactory::new(delays));
    for i in 1..10 {
        tester.spawn_test_task(i.into()).unwrap();
    }
    assert_eq!(tester.current(), L1BatchNumber(0));
    for i in 1..10 {
        tester.wait_for_batch(i.into(), 10).unwrap();
        assert_eq!(tester.now, i as u64);
    }
    tester.stop_and_wait_for_all_tasks().unwrap();
    assert_eq!(tester.current(), L1BatchNumber(9));
    assert_eq!(tester.task.io().calls, vec![1, 2, 3, 4, 5, 6, 7, 8, 9]);
}

#[test]
fn do_not_progress_with_gaps() {
    let io = IoMock::new(0, 10);
    // Progressively lower delays for higher batches, so that the last processed batch
    // does not move until the first batch (with the longest delay) is processed.
    let delays = (1..10).map(|i| (L1BatchNumber(i), 10 - i as u64)).collect();
    let mut tester = OutputHandlerTester::new(io, TestOutputFactory::new(delays));
    for i in 1..10 {
        tester.spawn_test_task(i.into()).unwrap();
    }
    assert_eq!(tester.current(), L1BatchNumber(0));
    tester.wait_for_batch_progressively(L1BatchNumber(9), 60).unwrap();
    // Batch 9 finished after one second and batch 1 after nine: the watermark stayed
    // at 0 until then and went to 9 in one run of the task.
    assert_eq!(tester.now, 9);
    assert!(tester.observed.iter().all(|&seen| seen == 0 || seen == 9));
    assert_eq!(tester.observed.iter().filter(|&&seen| seen == 0).count(), 9);
    tester.stop_and_wait_for_all_tasks().unwrap();
    assert_eq!(tester.current(), L1BatchNumber(9));
    assert_eq!(tester.task.io().calls, vec![1, 2, 3, 4, 5, 6, 7, 8, 9]);
}

#[test]
fn process_one_batch() {
    let io = IoMock::new(0, 1);
    let mut tester = OutputHandlerTester::new(io, TestOutputFactory::new(HashMap::new()));
    tester.spawn_test_task(L1BatchNumber(1)).unwrap();
    tester.wait_for_batch(L1BatchNumber(1), 1).unwrap();
    assert_eq!(tester.current(), L1BatchNumber(1));
    assert_eq!(tester.task.io().last_considered(), L1BatchNumber(1));
}

#[test]
fn stall_on_missing_batch() {
    let io = IoMock::new(0, 10);
    let delays = HashMap::from([(L1BatchNumber(1), 1), (L1BatchNumber(3), 1)]);
    let mut factory = TestOutputFactory::new(delays);
    factory.failing = vec![2];
    let mut tester = OutputHandlerTester::new(io, factory);
    tester.spawn_test_task(L1BatchNumber(1)).unwrap();
    tester.spawn_test_task(L1BatchNumber(2)).unwrap();
    tester.spawn_test_task(L1BatchNumber(3)).unwrap();
    for _ in 0..20 {
        tester.tick();
    }
    assert_eq!(tester.current(), L1BatchNumber(1));
    assert_eq!(tester.last_run, Some(Ok(RunStatus::Waiting)));
    let completions = tester.output_factory.completions();
    assert_eq!(completions.state(L1BatchNumber(1)), BatchState::Forgotten);
    assert_eq!(completions.state(L1BatchNumber(2)), BatchState::Requested);
    assert_eq!(completions.state(L1BatchNumber(3)), BatchState::Resolved);
    assert_eq!(completions.len(), 2);
    assert_eq!(tester.task.io().calls, vec![1]);
}

#[test]
fn stop_mid_flight() {
    let io = IoMock::new(0, 10);
    let delays = (1..=5).map(|i| (L1BatchNumber(i), 1000)).collect();
    let mut tester = OutputHandlerTester::new(io, TestOutputFactory::new(delays));
    for i in 1..=5 {
        tester.spawn_test_task(L1BatchNumber(i)).unwrap();
    }
    tester.tick();
    tester.stop_and_wait_for_all_tasks().unwrap();
    assert_eq!(tester.current(), L1BatchNumber(0));
    assert_eq!(tester.task.phase(), Some(TaskPhase::Stopped));
    // Handlers that finish after the stop change nothing at the sink.
    for _ in 0..1001 {
        tester.tick();
    }
    for i in 1..=5 {
        assert_eq!(tester.output_factory.completions().state(L1BatchNumber(i)), BatchState::Resolved);
    }
    assert_eq!(tester.current(), L1BatchNumber(0));
    assert_eq!(tester.last_run, Some(Ok(RunStatus::Stopped)));
    assert!(tester.task.io().calls.is_empty());
}

#[test]
fn requests_after_the_task_has_returned_are_accepted_and_stay() {
    let io = IoMock::new(0, 10);
    let mut tester = OutputHandlerTester::new(io, TestOutputFactory::new(HashMap::new()));
    tester.stop_and_wait_for_all_tasks().unwrap();
    tester.spawn_test_task(L1BatchNumber(1)).unwrap();
    tester.spawn_test_task(L1BatchNumber(2)).unwrap();
    assert!(tester.spawn_test_task(L1BatchNumber(2)).is_err());
    for _ in 0..3 {
        tester.tick();
    }
    assert_eq!(tester.current(), L1BatchNumber(0));
    assert_eq!(tester.output_factory.completions().len(), 2);
    assert_eq!(tester.output_factory.completions().state(L1BatchNumber(1)), BatchState::Resolved);
    assert_eq!(tester.output_factory.completions().state(L1BatchNumber(2)), BatchState::Resolved);
}

#[test]
fn the_watermark_never_goes_back() {
    let io = IoMock::new(3, 20);
    let delays = HashMap::from([
        (L1BatchNumber(4), 3),
        (L1BatchNumber(5), 1),
        (L1BatchNumber(6), 7),
        (L1BatchNumber(7), 2),
        (L1BatchNumber(9), 1),
    ]);
    let mut tester = OutputHandlerTester::new(io, TestOutputFactory::new(delays));
    for i in [7, 5, 9, 4, 6] {
        tester.spawn_test_task(L1BatchNumber(i)).unwrap();
    }
    for _ in 0..10 {
        tester.tick();
    }
    // One observation at the start and one after each second.
    assert_eq!(tester.observed, vec![3, 3, 3, 5, 5, 5, 5, 7, 7, 7, 7]);
    assert_eq!(tester.task.io().calls, vec![4, 5, 6, 7]);
    assert_eq!(tester.output_factory.completions().state(L1BatchNumber(9)), BatchState::Resolved);
    assert_eq!(tester.output_factory.completions().state(L1BatchNumber(8)), BatchState::Unseen);
}

#[test]
fn stop_wins_over_ready_batches() {
    let io = IoMock::new(0, 10);
    let mut tester = OutputHandlerTester::new(io, TestOutputFactory::new(HashMap::new()));
    tester.stop = true;
    tester.spawn_test_task(L1BatchNumber(1)).unwrap();
    tester.run_task();
    assert_eq!(tester.last_run, Some(Ok(RunStatus::Stopped)));
    assert_eq!(tester.current(), L1BatchNumber(0));
    assert_eq!(tester.output_factory.completions().state(L1BatchNumber(1)), BatchState::Resolved);
}

#[test]
fn fatal_io_sink_failure() {
    let mut io = IoMock::new(0, 10);
    io.refuse = Some(1);
    let delays = HashMap::from([(L1BatchNumber(1), 1), (L1BatchNumber(2), 2)]);
    let mut tester = OutputHandlerTester::new(io, TestOutputFactory::new(delays));
    tester.spawn_test_task(L1BatchNumber(1)).unwrap();
    tester.spawn_test_task(L1BatchNumber(2)).unwrap();
    tester.tick();
    assert_eq!(tester.last_run, Some(Err("cannot record batch #1".to_string())));
    assert_eq!(tester.task.phase(), Some(TaskPhase::Failed));
    tester.tick();
    tester.tick();
    // Batch 2 has resolved, and no further advance was attempted.
    assert_eq!(tester.output_factory.completions().state(L1BatchNumber(2)), BatchState::Resolved);
    assert_eq!(tester.output_factory.completions().state(L1BatchNumber(1)), BatchState::Resolved);
    assert_eq!(tester.last_run, Some(Err("aborted".to_string())));
    assert_eq!(tester.task.io().calls, vec![1]);
    assert_eq!(tester.current(), L1BatchNumber(0));
    assert_eq!(tester.task.watermark(), Some(L1BatchNumber(0)));
}

#[test]
fn duplicate_request() {
    let io = IoMock::new(0, 10);
    let mut tester = OutputHandlerTester::new(io, TestOutputFactory::new(HashMap::new()));
    let first = tester.output_factory.create_handler(L1BatchNumber(4));
    assert!(first.is_ok());
    let second = tester.output_factory.create_handler(L1BatchNumber(4));
    assert!(matches!(second, Err(CreateHandlerError::Duplicate(L1BatchNumber(4)))));
    assert_eq!(tester.output_factory.completions().len(), 1);
    assert_eq!(tester.output_factory.completions().state(L1BatchNumber(4)), BatchState::Requested);
}

#[test]
fn duplicate_request_after_the_watermark_has_passed() {
    let io = IoMock::new(0, 10);
    let mut tester = OutputHandlerTester::new(io, TestOutputFactory::new(HashMap::new()));
    tester.spawn_test_task(L1BatchNumber(1)).unwrap();
    tester.tick();
    assert_eq!(tester.current(), L1BatchNumber(1));
    assert_eq!(tester.output_factory.completions().len(), 0);
    let again = tester.spawn_test_task(L1BatchNumber(1));
    assert_eq!(again, Err("Output handler for L1 batch #1 has already been requested".to_string()));
}

#[test]
fn inner_construction_failure_leaves_the_map_alone() {
    let io = IoMock::new(0, 10);
    let mut factory = TestOutputFactory::new(HashMap::new());
    factory.broken = vec![5];
    let mut tester = OutputHandlerTester::new(io, factory);
    let result = tester.output_factory.create_handler(L1BatchNumber(5));
    match result {
        Err(CreateHandlerError::Inner(message)) => assert_eq!(message, "no handler for batch #5"),
        _ => panic!("the inner factory's error was expected"),
    }
    assert_eq!(tester.output_factory.completions().state(L1BatchNumber(5)), BatchState::Unseen);
    assert_eq!(tester.output_factory.completions().len(), 0);
    // The failed request did not use the number up.
    tester.output_factory.inner_factory_mut().broken.clear();
    assert!(tester.output_factory.create_handler(L1BatchNumber(5)).is_ok());
}

#[test]
fn inner_failure_wins_over_duplicate() {
    let io = IoMock::new(0, 10);
    let mut tester = OutputHandlerTester::new(io, TestOutputFactory::new(HashMap::new()));
    assert!(tester.output_factory.create_handler(L1BatchNumber(5)).is_ok());
    tester.output_factory.inner_factory_mut().broken.push(5);
    let result = tester.output_factory.create_handler(L1BatchNumber(5));
    assert!(matches!(result, Err(CreateHandlerError::Inner(_))));
}

#[test]
fn inner_handler_failure_is_handed_back_and_stalls() {
    let io = IoMock::new(0, 10);
    let mut factory = TestOutputFactory::new(HashMap::new());
    factory.failing = vec![1];
    let mut tester = OutputHandlerTester::new(io, factory);
    let mut handler = tester.output_factory.create_handler(L1BatchNumber(1)).unwrap_or_else(|_| panic!());
    assert_eq!(handler.number(), L1BatchNumber(1));
    let updates = Arc::new(UpdatesManager::default());
    let result = handler.handle_l1_batch(updates, tester.output_factory.completions_mut());
    assert_eq!(result, Err("the handler gave up".to_string()));
    assert_eq!(tester.output_factory.completions().state(L1BatchNumber(1)), BatchState::Requested);
    tester.tick();
    assert_eq!(tester.current(), L1BatchNumber(0));
    assert!(tester.spawn_test_task(L1BatchNumber(1)).is_err());
}

#[test]
fn l2_blocks_go_to_the_inner_handler() {
    let io = IoMock::new(0, 10);
    let mut tester = OutputHandlerTester::new(io, TestOutputFactory::new(HashMap::new()));
    let mut handler = tester.output_factory.create_handler(L1BatchNumber(1)).unwrap_or_else(|_| panic!());
    handler.handle_l2_block(&UpdatesManager { blocks: 0 }).unwrap();
    handler.handle_l2_block(&UpdatesManager { blocks: 2 }).unwrap();
    assert_eq!(handler.inner().blocks_seen, 4);
    assert_eq!(tester.output_factory.completions().state(L1BatchNumber(1)), BatchState::Requested);
}

#[test]
fn first_batch_to_advance_is_right_after_the_initial_watermark() {
    let io = IoMock::new(41, 100);
    let mut tester = OutputHandlerTester::new(io, TestOutputFactory::new(HashMap::new()));
    // Batches at or below the initial watermark, and batches further up, do not move it.
    tester.spawn_test_task(L1BatchNumber(41)).unwrap();
    tester.spawn_test_task(L1BatchNumber(40)).unwrap();
    tester.spawn_test_task(L1BatchNumber(43)).unwrap();
    tester.tick();
    assert_eq!(tester.current(), L1BatchNumber(41));
    assert!(tester.task.io().calls.is_empty());
    tester.spawn_test_task(L1BatchNumber(42)).unwrap();
    tester.tick();
    assert_eq!(tester.current(), L1BatchNumber(43));
    assert_eq!(tester.task.io().calls, vec![42, 43]);
    assert_eq!(tester.output_factory.completions().state(L1BatchNumber(41)), BatchState::Resolved);
    assert_eq!(tester.output_factory.completions().state(L1BatchNumber(42)), BatchState::Forgotten);
}

#[test]
fn watermark_at_the_last_batch_number_waits_for_ever() {
    let io = IoMock::new(u32::MAX, u32::MAX);
    let mut tester = OutputHandlerTester::new(io, TestOutputFactory::new(HashMap::new()));
    tester.spawn_test_task(L1BatchNumber(u32::MAX)).unwrap();
    tester.spawn_test_task(L1BatchNumber(0)).unwrap();
    tester.tick();
    assert_eq!(tester.last_run, Some(Ok(RunStatus::Waiting)));
    assert_eq!(tester.current(), L1BatchNumber(u32::MAX));
    assert_eq!(tester.task.watermark(), Some(L1BatchNumber(u32::MAX)));
}

#[test]
fn task_aborts_when_the_map_was_emptied_behind_its_back() {
    let (mut factory, mut task) =
        ConcurrentOutputHandlerFactory::new(IoMock::new(0, 10), TestOutputFactory::new(HashMap::new()));
    for number in [1, 2] {
        let mut handler = factory.create_handler(L1BatchNumber(number)).unwrap_or_else(|_| panic!());
        let done = handler.handle_l1_batch(Arc::new(UpdatesManager::default()), factory.completions_mut());
        assert!(done.is_ok());
    }
    // Somebody else removes batch 2: batch 1 is ready, but no longer next in line.
    assert!(factory.completions_mut().remove(L1BatchNumber(2)));
    assert!(matches!(task.run(factory.completions_mut(), false), Err(TaskError::Aborted)));
    assert_eq!(task.phase(), Some(TaskPhase::Failed));
    assert_eq!(task.watermark(), Some(L1BatchNumber(0)));
    assert_eq!(factory.completions().state(L1BatchNumber(1)), BatchState::Resolved);
    assert!(matches!(task.run(factory.completions_mut(), true), Err(TaskError::Aborted)));
}
