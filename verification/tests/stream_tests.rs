use actix_zmq::message::ZmqMessage;
use actix_zmq::reader::ReadError;
use actix_zmq::reader::ReadPoll;
use actix_zmq::stream::StreamDriver;
use actix_zmq::stream::Verdict;

#[test]
fn first_wake_fires_the_started_hook_once() {
    let mut d = StreamDriver::new();
    let r1 = d.step(ReadPoll::Pending, false);
    assert!(r1.notify_started);
    let r2 = d.step(ReadPoll::Pending, false);
    assert!(!r2.notify_started);
}

#[test]
fn a_message_is_delivered_to_the_handler() {
    let mut d = StreamDriver::new();
    let msg = ZmqMessage::new(vec![7u8]);
    let r = d.step(ReadPoll::Message { message: msg }, false);
    match r.deliver {
        Some(m) => assert_eq!(m.frame(0).as_slice(), &[7u8]),
        None => panic!("expected a delivery"),
    }
    assert!(!r.done);
    assert!(r.rearm);
}

#[test]
fn a_waiting_context_gets_no_extra_wake() {
    let mut d = StreamDriver::new();
    let r = d.step(ReadPoll::Pending, true);
    assert!(!r.rearm);
    let r2 = d.step(ReadPoll::Pending, false);
    assert!(r2.rearm);
}

#[test]
fn stream_end_fires_finished_and_stops() {
    let mut d = StreamDriver::new();
    let r = d.step(ReadPoll::Closed, false);
    assert!(r.notify_finished);
    assert!(r.done);
    assert!(!r.rearm);
}

#[test]
fn stop_verdict_finalizes_the_connection() {
    let mut d = StreamDriver::new();
    let r = d.step(
        ReadPoll::Failed { err: ReadError::Transport { code: 104 } },
        false,
    );
    assert_eq!(r.consult_error, Some(ReadError::Transport { code: 104 }));
    assert!(!r.done);
    let r2 = d.resolve_error(Verdict::Stop, false);
    assert!(r2.notify_stopped);
    assert!(r2.done);
}

#[test]
fn continue_verdict_keeps_reading() {
    let mut d = StreamDriver::new();
    let r = d.step(ReadPoll::Failed { err: ReadError::Interrupted }, false);
    assert_eq!(r.consult_error, Some(ReadError::Interrupted));
    let r2 = d.resolve_error(Verdict::Continue, false);
    assert!(!r2.done);
    assert!(r2.rearm);
    // still running: another message can arrive
    let r3 = d.step(ReadPoll::Pending, false);
    assert!(!r3.notify_started);
    assert!(!r3.done);
}
