//! The outbound buffer and its driver task (the sink around the write half).
//!
//! Producers enqueue whole messages without blocking. A companion driver,
//! woken by the runtime, feeds the buffer into the frame-by-frame writer:
//! on every wake it first drives the in-flight message, then — if the writer
//! came up ready and idle — pops one queued message and hands it over.
//! The pop takes the most recently enqueued message first (stack
//! discipline), so under backpressure newer messages overtake older ones.
//! When a stop was requested the driver drains: the close completes only
//! once the in-flight write is finished and the queue is empty.

use vstd::prelude::*;

use crate::message::ZmqMessage;
use crate::writer::SendError;
use crate::writer::SendOutcome;
use crate::writer::WritePoll;
use crate::writer::lemma_all_accepted;
use crate::writer::lemma_write_steps_bounds;
use crate::writer::poll_write;
use crate::writer::write_steps;

verus! {

/// What one driver wake reports.
#[derive(Clone, Copy, PartialEq, Eq, Structural, Debug)]
pub enum SinkWake {
    /// Nothing to report; the driver waits for the next wake.
    Pending,
    /// A running (not stopping) write failed; the write-error handler
    /// decides whether the connection terminates.
    FlushFailed { err: SendError },
    /// The close attempt failed during shutdown; the write-error handler
    /// decides whether the connection terminates.
    CloseFailed { err: SendError },
    /// The drain is complete: every queued message was written and the
    /// close has succeeded. The driver task is done.
    Closed,
}

/// One write poll at the specification level, gated by readiness: without
/// readiness nothing is attempted and the call suspends.
pub open spec fn gated_steps(ready: bool, n: nat, outs: Seq<SendOutcome>) -> (WritePoll, nat, nat) {
    if ready {
        write_steps(n, outs)
    } else {
        (WritePoll::Pending, 0, 0)
    }
}

/// Everything one driver wake decides, over plain values: `ok` says the
/// transport-answer sequence was long enough (the executable driver requires
/// it), `handed` lists the message popped from the queue this wake, if any.
pub struct WakeSpec {
    pub ok: bool,
    pub result: SinkWake,
    pub queued: Seq<Seq<Seq<u8>>>,
    pub in_flight: Seq<Seq<u8>>,
    pub handed: Seq<Seq<Seq<u8>>>,
    pub used: nat,
}

/// One wake of the driver task: drive the in-flight message; if it finished
/// and the writer is ready, pop the most recently enqueued message and start
/// it; then, stopping, try to close (done once the queue is empty and
/// nothing is in flight any more), or, running, keep flushing.
pub open spec fn wake_spec(
    queued: Seq<Seq<Seq<u8>>>,
    flight: Seq<Seq<u8>>,
    stopping: bool,
    ready: bool,
    outs: Seq<SendOutcome>,
) -> WakeSpec {
    let o1 = gated_steps(ready, flight.len(), outs);
    let ok1 = !ready || flight.len() <= outs.len();
    let flight1 = flight.skip(o1.1 as int);
    let popped = o1.0 is Done && queued.len() > 0;
    let queued1 = if popped {
        queued.drop_last()
    } else {
        queued
    };
    let flight2 = if popped {
        queued.last()
    } else {
        flight1
    };
    let outs1 = outs.skip(o1.2 as int);
    let ok2 = !ready || flight2.len() <= outs1.len();
    let o2 = gated_steps(ready, flight2.len(), outs1);
    let flight3 = flight2.skip(o2.1 as int);
    let result = if stopping {
        match o2.0 {
            WritePoll::Failed { err } => SinkWake::CloseFailed { err },
            WritePoll::Done => if queued1.len() == 0 {
                SinkWake::Closed
            } else {
                SinkWake::Pending
            },
            WritePoll::Pending => SinkWake::Pending,
        }
    } else {
        match o2.0 {
            WritePoll::Failed { err } => SinkWake::FlushFailed { err },
            WritePoll::Done => SinkWake::Pending,
            WritePoll::Pending => SinkWake::Pending,
        }
    };
    WakeSpec {
        ok: ok1 && ok2,
        result,
        queued: queued1,
        in_flight: flight3,
        handed: if popped {
            seq![queued.last()]
        } else {
            Seq::empty()
        },
        used: o1.2 + o2.2,
    }
}

/// How many frames the queued messages hold in all.
pub open spec fn total_frames(q: Seq<Seq<Seq<u8>>>) -> nat
    decreases q.len(),
{
    if q.len() == 0 {
        0
    } else {
        q.last().len() + total_frames(q.drop_last())
    }
}

/// Law (backpressure stack order): enqueueing `a` and then `b` puts the
/// queue into `prior.push(a).push(b)` (the contract of `write`), and a drain
/// hands the queue over in `reverse()` order (the contract of `drain`) — so
/// with no drain in between, `b` goes out before `a`, whatever was queued
/// before.
pub proof fn lemma_backpressure_stack_order(
    prior: Seq<Seq<Seq<u8>>>,
    a: Seq<Seq<u8>>,
    b: Seq<Seq<u8>>,
)
    ensures
        prior.push(a).push(b).reverse() =~= seq![b, a] + prior.reverse(),
{
}

/// Law (backpressure pop order, one wake): a wake that finds the writer
/// ready and idle pops the most recently enqueued message and, while the
/// transport accepts every frame, sends it whole — the queue shrinks by its
/// newest element, and nothing stays in flight. Iterated, wakes hand the
/// queue over newest-first.
pub proof fn lemma_wake_pops_newest(q: Seq<Seq<Seq<u8>>>, stopping: bool, outs: Seq<SendOutcome>)
    requires
        q.len() > 0,
        q.last().len() <= outs.len(),
        forall|k: int| 0 <= k < outs.len() ==> outs[k] is Accepted,
    ensures
        ({
            let w = wake_spec(q, Seq::empty(), stopping, true, outs);
            &&& w.ok
            &&& w.handed =~= seq![q.last()]
            &&& w.queued =~= q.drop_last()
            &&& w.in_flight =~= Seq::<Seq<u8>>::empty()
            &&& w.used == q.last().len()
        }),
{
    assert(write_steps(0nat, outs) == (WritePoll::Done, 0nat, 0nat));
    assert(outs.skip(0) =~= outs);
    lemma_all_accepted(q.last().len(), outs);
    assert(q.last().skip(q.last().len() as int) =~= Seq::<Seq<u8>>::empty());
}

/// The outbound buffer: queued messages, the message in flight, and whether
/// a stop was requested.
pub struct OutboundBuffer {
    queue: Vec<ZmqMessage>,
    current: ZmqMessage,
    stop_requested: bool,
}

impl OutboundBuffer {
    /// The not-yet-started messages, oldest first; the driver pops from the
    /// back.
    pub closed spec fn queued(self) -> Seq<Seq<Seq<u8>>> {
        self.queue@.map_values(|m: ZmqMessage| m@)
    }

    /// The frames of the message currently being written; empty when
    /// nothing is in flight.
    pub closed spec fn in_flight(self) -> Seq<Seq<u8>> {
        self.current@
    }

    /// Whether a stop has been requested.
    pub closed spec fn stopping(self) -> bool {
        self.stop_requested
    }

    /// A fresh buffer: nothing queued, nothing in flight, not stopping.
    pub fn new() -> (s: Self)
        ensures
            s.queued() =~= Seq::<Seq<Seq<u8>>>::empty(),
            s.in_flight() =~= Seq::<Seq<u8>>::empty(),
            !s.stopping(),
    {
        OutboundBuffer { queue: Vec::new(), current: ZmqMessage::empty(), stop_requested: false }
    }

    /// Enqueues a message and returns immediately; the driver will write it
    /// on a later wake.
    pub fn write(&mut self, message: ZmqMessage)
        ensures
            final(self).queued() =~= old(self).queued().push(message@),
            final(self).in_flight() == old(self).in_flight(),
            final(self).stopping() == old(self).stopping(),
    {
        self.queue.push(message);
    }

    /// Raises the stop signal: from now on every wake tries to close, and
    /// the close completes once the queue and the in-flight message are
    /// drained.
    pub fn request_stop(&mut self)
        ensures
            final(self).queued() == old(self).queued(),
            final(self).in_flight() == old(self).in_flight(),
            final(self).stopping(),
    {
        self.stop_requested = true;
    }

    /// How many messages wait in the queue.
    pub fn queue_len(&self) -> (n: usize)
        ensures
            n == self.queued().len(),
    {
        self.queue.len()
    }

    /// Whether a stop has been requested.
    pub fn is_stopping(&self) -> (b: bool)
        ensures
            b == self.stopping(),
    {
        self.stop_requested
    }

    /// How many frames of the in-flight message remain to be sent.
    pub fn in_flight_len(&self) -> (n: usize)
        ensures
            n == self.in_flight().len(),
    {
        self.current.len()
    }

    /// One remaining frame of the in-flight message.
    pub fn in_flight_frame(&self, i: usize) -> (f: &Vec<u8>)
        requires
            i < self.in_flight().len(),
        ensures
            f@ == self.in_flight()[i as int],
    {
        self.current.frame(i)
    }

    /// The message the next wake would pop, if the writer comes up ready
    /// and idle: the most recently enqueued one.
    pub fn peek_next(&self) -> (r: Option<&ZmqMessage>)
        ensures
            self.queued().len() == 0 ==> r is None,
            self.queued().len() > 0 ==> (r matches Some(m) && m@ == self.queued().last()),
    {
        if self.queue.len() == 0 {
            None
        } else {
            Some(&self.queue[self.queue.len() - 1])
        }
    }

    /// One wake of the driver task, against the transport's answers in
    /// `outs` from position `start` on. Every message popped from the queue
    /// is also appended to `handed`, in pop order. Returns what the wake
    /// reports and the position after the answers it used.
    pub fn wake(
        &mut self,
        ready: bool,
        outs: &Vec<SendOutcome>,
        start: usize,
        handed: &mut Vec<ZmqMessage>,
    ) -> (r: (SinkWake, usize))
        requires
            start <= outs@.len(),
            wake_spec(
                old(self).queued(),
                old(self).in_flight(),
                old(self).stopping(),
                ready,
                outs@.skip(start as int),
            ).ok,
        ensures
            ({
                let w = wake_spec(
                    old(self).queued(),
                    old(self).in_flight(),
                    old(self).stopping(),
                    ready,
                    outs@.skip(start as int),
                );
                &&& r.0 == w.result
                &&& r.1 == start + w.used
                &&& final(self).queued() =~= w.queued
                &&& final(self).in_flight() =~= w.in_flight
                &&& final(self).stopping() == old(self).stopping()
                &&& final(handed)@.map_values(|m: ZmqMessage| m@) =~= old(handed)@.map_values(
                    |m: ZmqMessage| m@,
                ) + w.handed
            }),
    {
        let ghost w = wake_spec(
            old(self).queued(),
            old(self).in_flight(),
            old(self).stopping(),
            ready,
            outs@.skip(start as int),
        );
        let ghost outs_from_start = outs@.skip(start as int);
        proof {
            lemma_write_steps_bounds(old(self).in_flight().len(), outs_from_start);
        }
        let (r1, c1) = poll_write(&mut self.current, ready, outs, start);
        proof {
            assert(outs_from_start.skip(
                gated_steps(ready, old(self).in_flight().len(), outs_from_start).2 as int,
            ) =~= outs@.skip(c1 as int));
        }
        if let WritePoll::Done = r1 {
            match self.queue.pop() {
                Some(next) => {
                    proof {
                        assert(self.queue@.map_values(|m: ZmqMessage| m@) =~= old(
                            self,
                        ).queued().drop_last());
                        assert(next@ == old(self).queued().last());
                    }
                    handed.push(next.duplicate());
                    proof {
                        assert(handed@.map_values(|m: ZmqMessage| m@) =~= old(
                            handed,
                        )@.map_values(|m: ZmqMessage| m@) + w.handed);
                    }
                    self.current = next;
                },
                None => {},
            }
        }
        let (r2, c2) = poll_write(&mut self.current, ready, outs, c1);
        let report = if self.stop_requested {
            match r2 {
                WritePoll::Failed { err } => SinkWake::CloseFailed { err },
                WritePoll::Done => {
                    if self.queue.len() == 0 {
                        SinkWake::Closed
                    } else {
                        SinkWake::Pending
                    }
                },
                WritePoll::Pending => SinkWake::Pending,
            }
        } else {
            match r2 {
                WritePoll::Failed { err } => SinkWake::FlushFailed { err },
                _ => SinkWake::Pending,
            }
        };
        (report, c2)
    }

    /// The shutdown drain (stop already requested, nothing in flight): the
    /// driver keeps waking while the transport stays writable and accepts
    /// every frame. Every queued message is handed over and sent, most
    /// recently enqueued first, and only then does the close complete.
    /// Returns the position after the transport answers used: exactly one
    /// per frame queued.
    pub fn drain(
        &mut self,
        outs: &Vec<SendOutcome>,
        start: usize,
        handed: &mut Vec<ZmqMessage>,
    ) -> (cursor: usize)
        requires
            old(self).stopping(),
            old(self).in_flight().len() == 0,
            start <= outs@.len(),
            forall|k: int| start <= k < outs@.len() ==> outs@[k] is Accepted,
            outs@.len() - start >= total_frames(old(self).queued()),
        ensures
            final(self).queued().len() == 0,
            final(self).in_flight().len() == 0,
            final(self).stopping(),
            final(handed)@.map_values(|m: ZmqMessage| m@) =~= old(handed)@.map_values(
                |m: ZmqMessage| m@,
            ) + old(self).queued().reverse(),
            cursor == start + total_frames(old(self).queued()),
    {
        let ghost orig_q = old(self).queued();
        let ghost orig_handed = old(handed)@.map_values(|m: ZmqMessage| m@);
        let mut cursor = start;
        loop
            invariant
                orig_q == old(self).queued(),
                orig_handed == old(handed)@.map_values(|m: ZmqMessage| m@),
                self.stopping(),
                self.in_flight().len() == 0,
                start <= cursor <= outs@.len(),
                forall|k: int| start <= k < outs@.len() ==> outs@[k] is Accepted,
                self.queued().len() <= orig_q.len(),
                self.queued() =~= orig_q.take(self.queued().len() as int),
                handed@.map_values(|m: ZmqMessage| m@) =~= orig_handed + orig_q.reverse().take(
                    orig_q.len() - self.queued().len(),
                ),
                cursor + total_frames(self.queued()) == start + total_frames(orig_q),
                outs@.len() - cursor >= total_frames(self.queued()),
            decreases self.queued().len(),
        {
            let ghost pre = *self;
            let ghost outs_here = outs@.skip(cursor as int);
            proof {
                if pre.queued().len() > 0 {
                    assert(total_frames(pre.queued()) == pre.queued().last().len()
                        + total_frames(pre.queued().drop_last()));
                    assert(forall|k: int|
                        0 <= k < outs_here.len() ==> #[trigger] outs_here[k] == outs@[
                            cursor + k
                        ]);
                    lemma_all_accepted(pre.queued().last().len(), outs_here);
                }
            }
            let (r, c) = self.wake(true, outs, cursor, handed);
            cursor = c;
            proof {
                let w = wake_spec(pre.queued(), pre.in_flight(), true, true, outs_here);
                assert(write_steps(0nat, outs_here) == (WritePoll::Done, 0nat, 0nat));
                assert(outs_here.skip(0) =~= outs_here);
                if pre.queued().len() > 0 {
                    let last = pre.queued().last();
                    assert(write_steps(last.len(), outs_here) == (
                        WritePoll::Done,
                        last.len(),
                        last.len(),
                    ));
                    assert(last.skip(last.len() as int) =~= Seq::<Seq<u8>>::empty());
                    assert(w.in_flight =~= Seq::<Seq<u8>>::empty());
                    assert(w.used == last.len());
                    assert(w.queued =~= orig_q.take(pre.queued().len() - 1));
                    assert(orig_q.reverse().take(orig_q.len() - pre.queued().len() + 1)
                        =~= orig_q.reverse().take(orig_q.len() - pre.queued().len()).push(last));
                    assert(total_frames(w.queued) + last.len() == total_frames(pre.queued()));
                } else {
                    assert(pre.in_flight().skip(0) =~= Seq::<Seq<u8>>::empty());
                    assert(w.used == 0);
                    assert(w.in_flight =~= Seq::<Seq<u8>>::empty());
                    assert(w.result == SinkWake::Closed);
                }
            }
            match r {
                SinkWake::Closed => {
                    proof {
                        assert(orig_q.reverse().take(orig_q.len() as int) =~= orig_q.reverse());
                        assert(handed@.map_values(|m: ZmqMessage| m@) =~= orig_handed
                            + orig_q.reverse());
                    }
                    return cursor;
                },
                SinkWake::Pending => {},
                SinkWake::FlushFailed { .. } => {
                    proof {
                        assert(false);
                    }
                },
                SinkWake::CloseFailed { .. } => {
                    proof {
                        assert(false);
                    }
                },
            }
        }
    }
}

} // verus!
