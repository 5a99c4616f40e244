use vm_runner::batch::L1BatchNumber;
use vm_runner::completion_map::BatchState;
use vm_runner::completion_map::CompletionMap;
use vm_runner::watermark::TaskAction;
use vm_runner::watermark::TaskPhase;
use vm_runner::watermark::WatermarkTask;

fn ready(map: &mut CompletionMap, number: u32) {
    assert_eq!(map.insert(L1BatchNumber(number)), Ok(()));
    assert!(map.resolve(L1BatchNumber(number)));
}

#[test]
fn a_new_task_waits_for_the_batch_after_the_watermark() {
    let task = WatermarkTask::new(L1BatchNumber(10));
    assert_eq!(task.phase(), TaskPhase::Waiting);
    assert_eq!(task.watermark(), L1BatchNumber(10));
    assert_eq!(task.initial_watermark(), L1BatchNumber(10));
    assert_eq!(task.next(), Some(L1BatchNumber(11)));
    let last = WatermarkTask::new(L1BatchNumber(u32::MAX));
    assert_eq!(last.next(), None);
    assert_eq!(last.watermark(), L1BatchNumber(u32::MAX));
}

#[test]
fn the_task_waits_until_the_next_batch_is_ready() {
    let mut map = CompletionMap::new();
    let mut task = WatermarkTask::new(L1BatchNumber(0));
    assert_eq!(task.poll(&map, false), TaskAction::Wait);
    assert_eq!(map.insert(L1BatchNumber(1)), Ok(()));
    assert_eq!(task.poll(&map, false), TaskAction::Wait);
    ready(&mut map, 2);
    ready(&mut map, 3);
    // Batches 2 and 3 are resolved, batch 1 is not: nothing moves.
    assert_eq!(task.poll(&map, false), TaskAction::Wait);
    assert_eq!(task.phase(), TaskPhase::Waiting);
    assert_eq!(task.watermark(), L1BatchNumber(0));
    assert!(map.resolve(L1BatchNumber(1)));
    assert_eq!(task.poll(&map, false), TaskAction::MarkProcessed(L1BatchNumber(1)));
    assert_eq!(task.phase(), TaskPhase::Marking);
    assert_eq!(task.watermark(), L1BatchNumber(0));
}

#[test]
fn each_confirmation_moves_the_watermark_by_one() {
    let mut map = CompletionMap::new();
    let mut task = WatermarkTask::new(L1BatchNumber(0));
    for number in [3, 1, 2] {
        ready(&mut map, number);
    }
    for number in 1..=3 {
        assert_eq!(task.poll(&map, false), TaskAction::MarkProcessed(L1BatchNumber(number)));
        // Until the sink has answered, the task asks for that answer and for no new call,
        // whatever the stop signal says.
        assert_eq!(task.poll(&map, true), TaskAction::AwaitAnswer(L1BatchNumber(number)));
        assert_eq!(task.poll(&map, false), TaskAction::AwaitAnswer(L1BatchNumber(number)));
        assert_eq!(task.phase(), TaskPhase::Marking);
        assert!(task.confirm(&mut map, true));
        assert_eq!(task.watermark(), L1BatchNumber(number));
        assert_eq!(task.phase(), TaskPhase::Waiting);
        assert_eq!(map.state(L1BatchNumber(number)), BatchState::Forgotten);
    }
    assert_eq!(task.poll(&map, false), TaskAction::Wait);
    assert_eq!(task.next(), Some(L1BatchNumber(4)));
    assert_eq!(task.initial_watermark(), L1BatchNumber(0));
    assert_eq!(map.len(), 0);
}

#[test]
fn the_stop_signal_wins_over_a_ready_batch() {
    let mut map = CompletionMap::new();
    let mut task = WatermarkTask::new(L1BatchNumber(0));
    ready(&mut map, 1);
    assert_eq!(task.poll(&map, true), TaskAction::Stop);
    assert_eq!(task.phase(), TaskPhase::Stopped);
    // A stopped task stays stopped and asks for nothing.
    assert_eq!(task.poll(&map, false), TaskAction::Stop);
    assert!(!task.confirm(&mut map, true));
    assert_eq!(task.phase(), TaskPhase::Stopped);
    assert_eq!(task.watermark(), L1BatchNumber(0));
    assert_eq!(map.state(L1BatchNumber(1)), BatchState::Resolved);
}

#[test]
fn a_refusal_of_the_sink_ends_the_task() {
    let mut map = CompletionMap::new();
    let mut task = WatermarkTask::new(L1BatchNumber(0));
    ready(&mut map, 1);
    ready(&mut map, 2);
    assert_eq!(task.poll(&map, false), TaskAction::MarkProcessed(L1BatchNumber(1)));
    assert!(!task.confirm(&mut map, false));
    assert_eq!(task.phase(), TaskPhase::Failed);
    assert_eq!(task.watermark(), L1BatchNumber(0));
    assert_eq!(map.state(L1BatchNumber(1)), BatchState::Resolved);
    assert_eq!(task.poll(&map, false), TaskAction::Fail);
    assert_eq!(task.poll(&map, true), TaskAction::Fail);
    assert!(!task.confirm(&mut map, true));
    assert_eq!(map.len(), 2);
}

#[test]
fn an_answer_that_nobody_asked_for_is_ignored() {
    let mut map = CompletionMap::new();
    let mut task = WatermarkTask::new(L1BatchNumber(0));
    ready(&mut map, 1);
    assert!(!task.confirm(&mut map, true));
    assert_eq!(task.phase(), TaskPhase::Waiting);
    assert_eq!(task.watermark(), L1BatchNumber(0));
    assert_eq!(map.state(L1BatchNumber(1)), BatchState::Resolved);
}

#[test]
fn a_map_that_does_not_let_go_ends_the_task() {
    let mut map = CompletionMap::new();
    let mut task = WatermarkTask::new(L1BatchNumber(0));
    ready(&mut map, 1);
    ready(&mut map, 2);
    assert_eq!(task.poll(&map, false), TaskAction::MarkProcessed(L1BatchNumber(1)));
    assert!(map.remove(L1BatchNumber(2)));
    assert!(!task.confirm(&mut map, true));
    assert_eq!(task.phase(), TaskPhase::Failed);
    assert_eq!(task.watermark(), L1BatchNumber(0));
}
