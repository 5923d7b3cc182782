use workpipe::worker::{call_after_readiness, DriveAction, DriveEvent, DriveState, Worker};
use workpipe::worker::DriveAction::{Finish, JoinNext, KeepPanic, ResumePanic, Spawn};
use workpipe::worker::DriveEvent::{Closed, Drained, Received, TaskFinished, TaskPanicked};

fn drive(events: &[DriveEvent]) -> Vec<DriveAction> {
    let mut st = DriveState::new();
    events.iter().map(|e| st.step(*e)).collect()
}

#[test]
fn graceful_shutdown_after_five_requests() {
    let mut events = vec![Received; 5];
    events.push(Closed);
    events.extend(vec![TaskFinished; 5]);
    events.push(Drained);
    let actions = drive(&events);
    assert_eq!(&actions[..5], &[Spawn; 5]);
    assert_eq!(actions[5], JoinNext);
    assert_eq!(&actions[6..11], &[JoinNext; 5]);
    assert_eq!(actions[11], Finish);
}

#[test]
fn panic_surfaces_after_the_other_tasks() {
    let actions = drive(&[Received, Received, Received, Closed, TaskFinished, TaskPanicked, TaskFinished, Drained]);
    assert_eq!(actions, vec![Spawn, Spawn, Spawn, JoinNext, JoinNext, KeepPanic, JoinNext, ResumePanic]);
}

#[test]
fn only_the_first_panic_is_kept() {
    let actions = drive(&[Received, Received, Closed, TaskPanicked, TaskPanicked, Drained]);
    assert_eq!(actions, vec![Spawn, Spawn, JoinNext, KeepPanic, JoinNext, ResumePanic]);
}

#[test]
fn panic_while_accepting_is_kept_and_receiving_goes_on() {
    let mut st = DriveState::new();
    assert_eq!(st.step(TaskPanicked), DriveAction::KeepPanicThenReceive);
    assert!(st.accepting);
    assert_eq!(st.step(TaskPanicked), DriveAction::Receive);
    assert_eq!(st.step(Closed), JoinNext);
    assert_eq!(st.step(Drained), ResumePanic);
}

#[test]
fn empty_channel_finishes_at_once() {
    assert_eq!(drive(&[Closed, Drained]), vec![JoinNext, Finish]);
}

#[test]
fn drained_before_close_keeps_receiving() {
    let mut st = DriveState::new();
    assert_eq!(st.step(DriveEvent::Drained), DriveAction::Receive);
    assert!(st.accepting);
    assert!(!st.panicked);
}

#[test]
fn readiness_failure_drops_the_call() {
    assert!(call_after_readiness::<String>(&Ok(())));
    assert!(!call_after_readiness(&Err(String::from("closed"))));
}

#[test]
fn inbound_channel_blocks_after_capacity() {
    let (sender, worker) = Worker::<u8, u32, u32>::new(0u8, 3);
    for i in 0..3u32 {
        assert_eq!(sender.try_send(i).unwrap(), true);
    }
    assert_eq!(sender.try_send(99).unwrap(), false);
    let (srv, receiver) = worker.into_parts();
    assert_eq!(srv, 0u8);
    assert_eq!(receiver.try_recv().unwrap(), Some(0));
    assert_eq!(sender.try_send(3).unwrap(), true);
}
