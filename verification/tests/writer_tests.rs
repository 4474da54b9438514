use actix_zmq::message::ZmqMessage;
use actix_zmq::writer::SendError;
use actix_zmq::writer::SendOutcome;
use actix_zmq::writer::WritePoll;
use actix_zmq::writer::more_flag;
use actix_zmq::writer::poll_write;

fn three_frame_message() -> ZmqMessage {
    let mut m = ZmqMessage::new(vec![1u8]);
    m.push(vec![2u8]);
    m.push(vec![3u8]);
    m
}

#[test]
fn whole_message_goes_out_when_accepted() {
    let mut m = three_frame_message();
    let outs = vec![SendOutcome::Accepted, SendOutcome::Accepted, SendOutcome::Accepted];
    let (r, cursor) = poll_write(&mut m, true, &outs, 0);
    assert!(matches!(r, WritePoll::Done));
    assert!(m.is_empty());
    assert_eq!(cursor, 3);
}

#[test]
fn partial_send_then_block_escalates_to_an_error() {
    // frame 1 goes out, frame 2 would block: an error, not a suspension
    let mut m = three_frame_message();
    let outs = vec![SendOutcome::Accepted, SendOutcome::WouldBlock, SendOutcome::Accepted];
    let (r, cursor) = poll_write(&mut m, true, &outs, 0);
    assert!(matches!(
        r,
        WritePoll::Failed { err: SendError::Interrupted }
    ));
    // exactly the accepted frame is gone
    assert_eq!(m.len(), 2);
    assert_eq!(m.frame(0).as_slice(), &[2u8]);
    assert_eq!(cursor, 2);
}

#[test]
fn first_block_suspends_with_the_message_intact() {
    let mut m = three_frame_message();
    let outs = vec![
        SendOutcome::WouldBlock,
        SendOutcome::Accepted,
        SendOutcome::Accepted,
        SendOutcome::Accepted,
    ];
    let (r, cursor) = poll_write(&mut m, true, &outs, 0);
    assert!(matches!(r, WritePoll::Pending));
    assert_eq!(m.len(), 3);
    assert_eq!(cursor, 1);
}

#[test]
fn transport_failure_keeps_earlier_frames_removed() {
    let mut m = three_frame_message();
    let outs = vec![SendOutcome::Accepted, SendOutcome::Fail { code: 32 }, SendOutcome::Accepted];
    let (r, _) = poll_write(&mut m, true, &outs, 0);
    assert!(matches!(
        r,
        WritePoll::Failed { err: SendError::Transport { code: 32 } }
    ));
    assert_eq!(m.len(), 2);
}

#[test]
fn empty_message_finishes_at_once() {
    let mut m = ZmqMessage::empty();
    let outs: Vec<SendOutcome> = Vec::new();
    let (r, cursor) = poll_write(&mut m, true, &outs, 0);
    assert!(matches!(r, WritePoll::Done));
    assert_eq!(cursor, 0);
}

#[test]
fn not_ready_sends_nothing() {
    let mut m = three_frame_message();
    let outs = vec![SendOutcome::Accepted, SendOutcome::Accepted, SendOutcome::Accepted];
    let (r, cursor) = poll_write(&mut m, false, &outs, 0);
    assert!(matches!(r, WritePoll::Pending));
    assert_eq!(m.len(), 3);
    assert_eq!(cursor, 0);
}

#[test]
fn every_frame_but_the_last_carries_the_more_mark() {
    let mut m = ZmqMessage::new(vec![1u8]);
    assert!(!more_flag(&m));
    m.push(vec![2u8]);
    assert!(more_flag(&m));
    m.pop_front();
    assert!(!more_flag(&m));
}
