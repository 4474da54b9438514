use actix_zmq::group::PollGroup;
use actix_zmq::message::ZmqMessage;
use actix_zmq::sink::SinkWake;
use actix_zmq::writer::SendOutcome;

fn msg(byte: u8) -> ZmqMessage {
    ZmqMessage::new(vec![byte])
}

#[test]
fn send_to_a_registered_token_is_accepted() {
    let mut g = PollGroup::new();
    g.register(1);
    g.register(2);
    let r = g.send(1, msg(b'x'));
    assert!(r.is_none());
}

#[test]
fn send_to_an_unknown_token_returns_the_message() {
    // the message comes back unchanged; the registered set is untouched
    let mut g = PollGroup::new();
    g.register(1);
    g.register(2);
    let mut m = msg(b'p');
    m.push(vec![b'q']);
    let r = g.send(3, m);
    match r {
        Some(back) => {
            assert_eq!(back.len(), 2);
            assert_eq!(back.frame(0).as_slice(), b"p");
            assert_eq!(back.frame(1).as_slice(), b"q");
        },
        None => panic!("an unknown token must hand the message back"),
    }
    assert!(g.contains(1));
    assert!(g.contains(2));
    assert!(!g.contains(3));
}

#[test]
fn empty_group_contains_nothing() {
    let g = PollGroup::new();
    assert!(!g.contains(0));
}

#[test]
fn routed_messages_reach_their_own_sink() {
    let mut g = PollGroup::new();
    g.register(1);
    g.register(2);
    assert!(g.send(1, msg(b'a')).is_none());
    assert!(g.send(2, msg(b'b')).is_none());
    let outs = vec![SendOutcome::Accepted];
    let mut handed: Vec<ZmqMessage> = Vec::new();
    let r = g.wake_token(1, true, &outs, 0, &mut handed);
    assert!(matches!(r, Some((SinkWake::Pending, 1))));
    assert_eq!(handed.len(), 1);
    assert_eq!(handed[0].frame(0).as_slice(), b"a");
    let mut handed2: Vec<ZmqMessage> = Vec::new();
    let r2 = g.wake_token(2, true, &outs, 0, &mut handed2);
    assert!(matches!(r2, Some((SinkWake::Pending, 1))));
    assert_eq!(handed2[0].frame(0).as_slice(), b"b");
}

#[test]
fn reregistering_a_token_overwrites_its_sink() {
    let mut g = PollGroup::new();
    g.register(1);
    assert!(g.send(1, msg(b'o')).is_none());
    // a fresh registration under the same token starts with an empty queue
    g.register(1);
    let outs: Vec<SendOutcome> = Vec::new();
    let mut handed: Vec<ZmqMessage> = Vec::new();
    let r = g.wake_token(1, true, &outs, 0, &mut handed);
    assert!(matches!(r, Some((SinkWake::Pending, 0))));
    assert!(handed.is_empty());
}

#[test]
fn waking_an_unknown_token_does_nothing() {
    let mut g = PollGroup::new();
    let outs: Vec<SendOutcome> = Vec::new();
    let mut handed: Vec<ZmqMessage> = Vec::new();
    let r = g.wake_token(9, true, &outs, 0, &mut handed);
    assert!(r.is_none());
    assert!(handed.is_empty());
}
