use actix_zmq::message::ZmqMessage;
use actix_zmq::message::clone_frame;

#[test]
fn empty_message_has_no_frames() {
    let m = ZmqMessage::empty();
    assert_eq!(m.len(), 0);
    assert!(m.is_empty());
}

#[test]
fn new_message_holds_one_frame() {
    let m = ZmqMessage::new(vec![1u8, 2, 3]);
    assert_eq!(m.len(), 1);
    assert_eq!(m.frame(0).as_slice(), &[1u8, 2, 3]);
}

#[test]
fn push_appends_in_order() {
    let mut m = ZmqMessage::empty();
    m.push(vec![1u8]);
    m.push(vec![2u8, 2]);
    m.push(vec![]);
    assert_eq!(m.len(), 3);
    assert_eq!(m.frame(0).as_slice(), &[1u8]);
    assert_eq!(m.frame(1).as_slice(), &[2u8, 2]);
    assert_eq!(m.frame(2).len(), 0);
}

#[test]
fn pop_front_removes_first_frame() {
    let mut m = ZmqMessage::new(vec![9u8]);
    m.push(vec![8u8]);
    let f = m.pop_front();
    assert_eq!(f, vec![9u8]);
    assert_eq!(m.len(), 1);
    assert_eq!(m.frame(0).as_slice(), &[8u8]);
}

#[test]
fn duplicate_copies_every_frame() {
    let mut m = ZmqMessage::new(vec![1u8, 2]);
    m.push(vec![3u8]);
    let d = m.duplicate();
    assert_eq!(d.len(), 2);
    assert_eq!(d.frame(0).as_slice(), &[1u8, 2]);
    assert_eq!(d.frame(1).as_slice(), &[3u8]);
}

#[test]
fn clone_frame_copies_bytes() {
    let f = vec![5u8, 6, 7];
    let c = clone_frame(&f);
    assert_eq!(c, f);
}

#[test]
fn default_message_is_empty() {
    let m = ZmqMessage::default();
    assert!(m.is_empty());
}
