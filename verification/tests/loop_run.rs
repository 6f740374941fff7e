use event_queue::event_loop::EventLoop;
use event_queue::queue::{QueueError, WaitOutcome};
use event_queue::registrar::read_oneshot_record;
use event_queue::session::run_session;

fn fired(tags: &[u64]) -> WaitOutcome {
    let mut events = Vec::new();
    for (i, &tag) in tags.iter().enumerate() {
        events.push(read_oneshot_record(100 + i as u64, tag));
    }
    WaitOutcome::Fired { events }
}

#[test]
fn three_registrations_two_batches() {
    let mut lp = EventLoop::new(3, 3);
    assert_eq!(lp.pending(), 3);
    assert!(!lp.is_drained());

    let first = lp.absorb(&fired(&[3])).expect("one fired record is a valid batch");
    assert_eq!(first, vec![3]);
    assert_eq!(lp.pending(), 2);
    assert!(!lp.is_drained());

    let second = lp.absorb(&fired(&[1, 2])).expect("two fired records are a valid batch");
    assert_eq!(second, vec![1, 2]);
    assert_eq!(lp.pending(), 0);
    assert!(lp.is_drained());
}

#[test]
fn drain_reports_all_completions_in_order() {
    let mut lp = EventLoop::new(3, 3);
    let outcomes = vec![fired(&[3]), fired(&[1, 2])];
    let rep = lp.drain(&outcomes);
    assert_eq!(rep.completions, vec![3, 1, 2]);
    assert_eq!(rep.waits, 2);
    assert_eq!(rep.error, None);
    assert!(lp.is_drained());
}

#[test]
fn zero_pending_terminates_immediately() {
    let mut lp = EventLoop::new(0, 0);
    assert!(lp.is_drained());
    let outcomes = vec![fired(&[1])];
    let rep = lp.drain(&outcomes);
    assert_eq!(rep.waits, 0);
    assert_eq!(rep.completions, Vec::<u64>::new());
    assert_eq!(rep.error, None);
}

#[test]
fn failed_wait_halts_run() {
    let mut lp = EventLoop::new(3, 2);
    let outcomes = vec![WaitOutcome::Failed { status: -9 }, fired(&[1, 2])];
    let rep = lp.drain(&outcomes);
    assert_eq!(rep.error, Some(QueueError::OsResource { status: -9 }));
    assert_eq!(rep.waits, 1);
    assert_eq!(rep.completions, Vec::<u64>::new());
    assert_eq!(lp.pending(), 2);
}

#[test]
fn empty_batch_is_protocol_violation() {
    let mut lp = EventLoop::new(3, 1);
    let out = WaitOutcome::Fired { events: Vec::new() };
    let res = lp.absorb(&out);
    assert_eq!(res, Err(QueueError::ProtocolViolation));
    assert_eq!(lp.pending(), 1);
}

#[test]
fn oversized_batch_is_protocol_violation() {
    let mut lp = EventLoop::new(3, 1);
    let res = lp.absorb(&fired(&[1, 2]));
    assert_eq!(res, Err(QueueError::ProtocolViolation));
    assert_eq!(lp.pending(), 1);
}

#[test]
fn session_reports_all_and_closes() {
    let submits = vec![0, 0, 0];
    let outcomes = vec![fired(&[3]), fired(&[1, 2])];
    let rep = run_session(4, &submits, &outcomes, 0);
    assert_eq!(rep.completions, vec![3, 1, 2]);
    assert_eq!(rep.waits, 2);
    assert!(rep.closed);
    assert_eq!(rep.error, None);
}

#[test]
fn session_with_no_registrations_waits_never() {
    let rep = run_session(4, &Vec::new(), &Vec::new(), 0);
    assert_eq!(rep.completions, Vec::<u64>::new());
    assert_eq!(rep.waits, 0);
    assert!(rep.closed);
    assert_eq!(rep.error, None);
}

#[test]
fn session_failed_open_never_closes() {
    let submits = vec![0];
    let outcomes = vec![fired(&[1])];
    let rep = run_session(-1, &submits, &outcomes, 0);
    assert!(!rep.closed);
    assert_eq!(rep.waits, 0);
    assert_eq!(rep.completions, Vec::<u64>::new());
    assert_eq!(rep.error, Some(QueueError::OsResource { status: -1 }));
}

#[test]
fn session_failed_submit_halts_before_any_wait() {
    let submits = vec![0, -7, 0];
    let outcomes = vec![fired(&[1, 2, 3])];
    let rep = run_session(4, &submits, &outcomes, 0);
    assert_eq!(rep.error, Some(QueueError::OsResource { status: -7 }));
    assert_eq!(rep.waits, 0);
    assert_eq!(rep.completions, Vec::<u64>::new());
    assert!(rep.closed);
}

#[test]
fn session_failed_wait_still_closes() {
    let submits = vec![0, 0];
    let outcomes = vec![WaitOutcome::Failed { status: -2 }];
    let rep = run_session(4, &submits, &outcomes, 0);
    assert_eq!(rep.error, Some(QueueError::OsResource { status: -2 }));
    assert_eq!(rep.waits, 1);
    assert!(rep.closed);
}

#[test]
fn session_failed_close_is_fatal() {
    let submits = vec![0];
    let outcomes = vec![fired(&[1])];
    let rep = run_session(4, &submits, &outcomes, -3);
    assert_eq!(rep.completions, vec![1]);
    assert!(rep.closed);
    assert_eq!(rep.error, Some(QueueError::OsResource { status: -3 }));
}

#[test]
fn completion_tags_echo_registration_tags() {
    let tags = [9u64, 8, 7, 6];
    let mut lp = EventLoop::new(5, 4);
    let outcomes = vec![fired(&tags[..2]), fired(&tags[2..])];
    let rep = lp.drain(&outcomes);
    assert_eq!(rep.completions, tags.to_vec());
    assert_eq!(rep.error, None);
}
