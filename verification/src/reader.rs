//! Assembly of one complete multipart message from the transport (the read
//! half).
//!
//! One call of `poll_read` corresponds to one full message, never one frame:
//! it keeps receiving while the transport marks more frames to follow. The
//! transport's answers are plain `RecvEvent` values, so the assembly policy —
//! a would-block before anything arrived suspends the call, any interruption
//! mid-message is a hard error for the whole message, and the stream only
//! ends on an end-of-stream signal — is verified for every answer sequence.

use vstd::prelude::*;

use crate::message::ZmqMessage;
use crate::message::clone_frame;

verus! {

/// The transport's answer to one attempted frame receive.
#[derive(Clone, Debug)]
pub enum RecvEvent {
    /// One frame arrived; `more` tells whether further frames of the same
    /// message follow.
    Frame { data: Vec<u8>, more: bool },
    /// The transport would block.
    WouldBlock,
    /// The peer is gone: end of the stream.
    Closed,
    /// The transport failed with the given error code.
    Fail { code: i32 },
}

/// Why a read poll failed.
#[derive(Clone, Copy, PartialEq, Eq, Structural, Debug)]
pub enum ReadError {
    /// The transport stopped answering (a would-block or an end-of-stream)
    /// in the middle of a message; there is no partial-message recovery.
    Interrupted,
    /// The transport reported the given error code.
    Transport { code: i32 },
}

/// The result of one read poll.
pub enum ReadPoll {
    /// Nothing had arrived yet; the call is suspended.
    Pending,
    /// One complete multipart message.
    Message { message: ZmqMessage },
    /// The stream ended before a new message began.
    Closed,
    /// The read failed.
    Failed { err: ReadError },
}

/// The specification-level mirror of `ReadPoll`, over frame sequences.
pub enum ReadOutcome {
    Pending,
    Message { frames: Seq<Seq<u8>> },
    Closed,
    Failed { err: ReadError },
    /// The answer sequence ran out before the poll came to an end; the
    /// executable driver excludes this by precondition.
    Starved,
}

/// Whether an executable poll result says exactly what the specification
/// outcome says.
pub open spec fn read_poll_matches(r: ReadPoll, o: ReadOutcome) -> bool {
    match (r, o) {
        (ReadPoll::Pending, ReadOutcome::Pending) => true,
        (ReadPoll::Closed, ReadOutcome::Closed) => true,
        (ReadPoll::Message { message }, ReadOutcome::Message { frames }) => message@ == frames,
        (ReadPoll::Failed { err }, ReadOutcome::Failed { err: e }) => err == e,
        _ => false,
    }
}

/// What one read poll does, given the frames `acc` assembled so far in this
/// call and the transport's remaining answers `evs`: the outcome, and how
/// many answers were consumed.
pub open spec fn read_steps(evs: Seq<RecvEvent>, acc: Seq<Seq<u8>>) -> (ReadOutcome, nat)
    decreases evs.len(),
{
    if evs.len() == 0 {
        (ReadOutcome::Starved, 0)
    } else {
        match evs[0] {
            RecvEvent::Frame { data, more } => {
                if more {
                    let r = read_steps(evs.drop_first(), acc.push(data@));
                    (r.0, r.1 + 1)
                } else {
                    (ReadOutcome::Message { frames: acc.push(data@) }, 1)
                }
            },
            RecvEvent::WouldBlock => {
                if acc.len() == 0 {
                    (ReadOutcome::Pending, 1)
                } else {
                    (ReadOutcome::Failed { err: ReadError::Interrupted }, 1)
                }
            },
            RecvEvent::Closed => {
                if acc.len() == 0 {
                    (ReadOutcome::Closed, 1)
                } else {
                    (ReadOutcome::Failed { err: ReadError::Interrupted }, 1)
                }
            },
            RecvEvent::Fail { code } => (
                ReadOutcome::Failed { err: ReadError::Transport { code } },
                1,
            ),
        }
    }
}

/// What one read poll does from its start: it always begins assembling a
/// fresh, empty message.
pub open spec fn read_outcome(evs: Seq<RecvEvent>) -> (ReadOutcome, nat) {
    read_steps(evs, Seq::empty())
}

/// The data of each frame event, in order.
pub open spec fn frame_datas(evs: Seq<RecvEvent>) -> Seq<Seq<u8>> {
    evs.map_values(|e: RecvEvent| e->data@)
}

/// Helper for the frame-order law, generalized over the frames assembled so
/// far.
proof fn lemma_assembles_from(evs: Seq<RecvEvent>, acc: Seq<Seq<u8>>)
    requires
        evs.len() >= 1,
        forall|k: int| 0 <= k < evs.len() ==> evs[k] is Frame,
        forall|k: int| 0 <= k < evs.len() - 1 ==> (#[trigger] evs[k])->more == true,
        evs[evs.len() - 1]->more == false,
    ensures
        read_steps(evs, acc).0 matches ReadOutcome::Message { frames }
            && frames == acc + frame_datas(evs),
        read_steps(evs, acc).1 == evs.len(),
    decreases evs.len(),
{
    if evs.len() == 1 {
        assert(acc.push(evs[0]->data@) =~= acc + frame_datas(evs));
    } else {
        let rest = evs.drop_first();
        assert(forall|k: int| 0 <= k < rest.len() ==> rest[k] == evs[k + 1]);
        lemma_assembles_from(rest, acc.push(evs[0]->data@));
        assert(acc.push(evs[0]->data@) + frame_datas(rest) =~= acc + frame_datas(evs));
    }
}

/// Law (frame order preservation): fed a sequence of frames with the "more"
/// mark on every frame but the last, one read poll yields exactly one
/// message, whose frames equal the input frames in order, consuming the
/// whole sequence.
pub proof fn lemma_frame_order(evs: Seq<RecvEvent>)
    requires
        evs.len() >= 1,
        forall|k: int| 0 <= k < evs.len() ==> evs[k] is Frame,
        forall|k: int| 0 <= k < evs.len() - 1 ==> (#[trigger] evs[k])->more == true,
        evs[evs.len() - 1]->more == false,
    ensures
        read_outcome(evs).0 matches ReadOutcome::Message { frames }
            && frames == frame_datas(evs),
        read_outcome(evs).1 == evs.len(),
{
    lemma_assembles_from(evs, Seq::empty());
    assert(Seq::<Seq<u8>>::empty() + frame_datas(evs) =~= frame_datas(evs));
}

/// A poll's outcome is decided by the answers it consumes: answers that
/// follow the end of the poll change nothing.
proof fn lemma_poll_prefix(evs1: Seq<RecvEvent>, evs2: Seq<RecvEvent>, acc: Seq<Seq<u8>>)
    requires
        !(read_steps(evs1, acc).0 is Starved),
    ensures
        read_steps(evs1 + evs2, acc) == read_steps(evs1, acc),
    decreases evs1.len(),
{
    assert(evs1.len() >= 1);
    assert((evs1 + evs2)[0] == evs1[0]);
    match evs1[0] {
        RecvEvent::Frame { data, more } => {
            if more {
                assert((evs1 + evs2).drop_first() =~= evs1.drop_first() + evs2);
                lemma_poll_prefix(evs1.drop_first(), evs2, acc.push(data@));
            }
        },
        RecvEvent::WouldBlock => {},
        RecvEvent::Closed => {},
        RecvEvent::Fail { code } => {},
    }
}

/// Law (restart discipline): if one poll yields a message and consumes its
/// whole answer sequence, then on the concatenation with any further answers
/// that poll yields the same message and stops exactly at the seam — so the
/// next poll runs on the remaining answers alone and, by definition of
/// `read_outcome`, assembles from a fresh, empty message, whatever came
/// before.
pub proof fn lemma_restart_discipline(evs1: Seq<RecvEvent>, evs2: Seq<RecvEvent>)
    requires
        read_outcome(evs1).0 is Message,
        read_outcome(evs1).1 == evs1.len(),
    ensures
        read_outcome(evs1 + evs2).0 == read_outcome(evs1).0,
        read_outcome(evs1 + evs2).1 == evs1.len(),
        (evs1 + evs2).skip(evs1.len() as int) =~= evs2,
{
    lemma_poll_prefix(evs1, evs2, Seq::empty());
}

/// One poll of the read side. `ready` is the readiness decision for read
/// interest; `events` holds the transport's answers from position `start`
/// on, one per receive attempt. Returns the poll result and the position
/// after the answers this call consumed.
pub fn poll_read(ready: bool, events: &Vec<RecvEvent>, start: usize) -> (r: (ReadPoll, usize))
    requires
        start <= events@.len(),
        ready ==> !(read_outcome(events@.skip(start as int)).0 is Starved),
    ensures
        !ready ==> r.0 is Pending && r.1 == start,
        ready ==> ({
            let o = read_outcome(events@.skip(start as int));
            &&& read_poll_matches(r.0, o.0)
            &&& r.1 == start + o.1
        }),
{
    if !ready {
        return (ReadPoll::Pending, start);
    }
    let ghost target = read_outcome(events@.skip(start as int));
    let mut buf = ZmqMessage::empty();
    let n_events = events.len();
    let mut cursor = start;
    loop
        invariant
            ready,
            n_events == events@.len(),
            start <= cursor <= n_events,
            target == read_outcome(events@.skip(start as int)),
            !(target.0 is Starved),
            ({
                let rr = read_steps(events@.skip(cursor as int), buf@);
                &&& target.0 == rr.0
                &&& target.1 == rr.1 + (cursor - start)
            }),
        decreases events@.len() - cursor,
    {
        proof {
            if cursor == events@.len() {
                assert(events@.skip(cursor as int).len() == 0);
                assert(target.0 is Starved);
            }
            assert(events@.skip(cursor as int)[0] == events@[cursor as int]);
            assert(events@.skip(cursor as int).drop_first() =~= events@.skip(cursor as int + 1));
        }
        match &events[cursor] {
            RecvEvent::Frame { data, more } => {
                let part = clone_frame(data);
                buf.push(part);
                if !*more {
                    return (ReadPoll::Message { message: buf }, cursor + 1);
                }
                cursor = cursor + 1;
            },
            RecvEvent::WouldBlock => {
                if buf.is_empty() {
                    return (ReadPoll::Pending, cursor + 1);
                } else {
                    return (
                        ReadPoll::Failed { err: ReadError::Interrupted },
                        cursor + 1,
                    );
                }
            },
            RecvEvent::Closed => {
                if buf.is_empty() {
                    return (ReadPoll::Closed, cursor + 1);
                } else {
                    return (
                        ReadPoll::Failed { err: ReadError::Interrupted },
                        cursor + 1,
                    );
                }
            },
            RecvEvent::Fail { code } => {
                return (
                    ReadPoll::Failed { err: ReadError::Transport { code: *code } },
                    cursor + 1,
                );
            },
        }
    }
}

} // verus!
