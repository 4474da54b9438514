//! Frame-by-frame sending of one multipart message (the write half).
//!
//! One call of `poll_write` corresponds to one poll of the write side: it
//! walks the message's frames in order, handing each to the transport, and
//! removes every frame the transport accepted from the front of the message.
//! The transport's answers are plain `SendOutcome` values, so the whole
//! policy — in particular that a would-block on the very first attempt
//! suspends the call while a would-block after a frame already went out is a
//! hard failure — is verified for every possible answer sequence.

use vstd::prelude::*;

use crate::message::ZmqMessage;

verus! {

/// The transport's answer to one attempted frame send.
#[derive(Clone, Copy, PartialEq, Eq, Structural, Debug)]
pub enum SendOutcome {
    /// The frame was accepted.
    Accepted,
    /// The transport would block.
    WouldBlock,
    /// The transport failed with the given error code.
    Fail { code: i32 },
}

/// Why a write poll failed.
#[derive(Clone, Copy, PartialEq, Eq, Structural, Debug)]
pub enum SendError {
    /// A frame after the first one of this call would have blocked; partial
    /// multi-frame sends are not resumable and escalate immediately.
    Interrupted,
    /// The transport reported the given error code.
    Transport { code: i32 },
}

/// The result of one write poll.
#[derive(Clone, Copy, PartialEq, Eq, Structural, Debug)]
pub enum WritePoll {
    /// Nothing was sent; the whole message is retried on the next wake.
    Pending,
    /// Every frame of the message was sent; the message is now empty.
    Done,
    /// The write failed; frames already accepted stay removed.
    Failed { err: SendError },
}

/// What one write poll does once at least one frame of this call has already
/// been handed over: `n` frames remain, `outs` are the transport's remaining
/// answers. Yields the poll result, the frames removed, and the answers used.
pub open spec fn write_steps_rest(n: nat, outs: Seq<SendOutcome>) -> (WritePoll, nat, nat)
    decreases n,
{
    if n == 0 {
        (WritePoll::Done, 0, 0)
    } else if outs.len() == 0 {
        (WritePoll::Pending, 0, 0)
    } else {
        match outs[0] {
            SendOutcome::Accepted => {
                let r = write_steps_rest((n - 1) as nat, outs.drop_first());
                (r.0, r.1 + 1, r.2 + 1)
            },
            SendOutcome::WouldBlock => (
                WritePoll::Failed { err: SendError::Interrupted },
                0,
                1,
            ),
            SendOutcome::Fail { code } => (
                WritePoll::Failed { err: SendError::Transport { code } },
                0,
                1,
            ),
        }
    }
}

/// What one write poll does to a message of `n` frames, starting before the
/// first send attempt of the call: a would-block here suspends the call
/// instead of failing it.
pub open spec fn write_steps(n: nat, outs: Seq<SendOutcome>) -> (WritePoll, nat, nat) {
    if n == 0 {
        (WritePoll::Done, 0, 0)
    } else if outs.len() == 0 {
        (WritePoll::Pending, 0, 0)
    } else {
        match outs[0] {
            SendOutcome::Accepted => {
                let r = write_steps_rest((n - 1) as nat, outs.drop_first());
                (r.0, r.1 + 1, r.2 + 1)
            },
            SendOutcome::WouldBlock => (WritePoll::Pending, 0, 1),
            SendOutcome::Fail { code } => (
                WritePoll::Failed { err: SendError::Transport { code } },
                0,
                1,
            ),
        }
    }
}

/// Bounds every write poll obeys: it never removes more frames than it has,
/// uses at most one answer beyond the frames it removed, and finishes
/// exactly when every frame went out.
pub proof fn lemma_write_steps_rest_bounds(n: nat, outs: Seq<SendOutcome>)
    ensures
        write_steps_rest(n, outs).1 <= n,
        write_steps_rest(n, outs).1 <= write_steps_rest(n, outs).2,
        write_steps_rest(n, outs).2 <= write_steps_rest(n, outs).1 + 1,
        write_steps_rest(n, outs).2 <= n,
        write_steps_rest(n, outs).0 is Done ==> write_steps_rest(n, outs).1 == n
            && write_steps_rest(n, outs).2 == n,
    decreases n,
{
    if n > 0 && outs.len() > 0 {
        if outs[0] is Accepted {
            lemma_write_steps_rest_bounds((n - 1) as nat, outs.drop_first());
        }
    }
}

/// The same bounds for a poll taken from its first send attempt on.
pub proof fn lemma_write_steps_bounds(n: nat, outs: Seq<SendOutcome>)
    ensures
        write_steps(n, outs).1 <= n,
        write_steps(n, outs).1 <= write_steps(n, outs).2,
        write_steps(n, outs).2 <= write_steps(n, outs).1 + 1,
        write_steps(n, outs).2 <= n,
        write_steps(n, outs).0 is Done ==> write_steps(n, outs).1 == n && write_steps(
            n,
            outs,
        ).2 == n,
{
    if n > 0 && outs.len() > 0 {
        if outs[0] is Accepted {
            lemma_write_steps_rest_bounds((n - 1) as nat, outs.drop_first());
        }
    }
}

/// While the transport accepts every frame, a write poll sends the whole
/// message and finishes, using exactly one answer per frame.
pub proof fn lemma_all_accepted(n: nat, outs: Seq<SendOutcome>)
    requires
        n <= outs.len(),
        forall|k: int| 0 <= k < n ==> outs[k] is Accepted,
    ensures
        write_steps(n, outs) == (WritePoll::Done, n, n),
        write_steps_rest(n, outs) == (WritePoll::Done, n, n),
    decreases n,
{
    if n > 0 {
        assert(outs[0] is Accepted);
        assert(forall|k: int|
            0 <= k < n - 1 ==> #[trigger] outs.drop_first()[k] == outs[k + 1]);
        lemma_all_accepted((n - 1) as nat, outs.drop_first());
    }
}

/// Helper for the escalation law, covering the calls where a frame of this
/// poll already went out.
proof fn lemma_rest_escalation(n: nat, outs: Seq<SendOutcome>, j: int)
    requires
        0 <= j < n,
        j < outs.len(),
        forall|k: int| 0 <= k < j ==> outs[k] is Accepted,
        outs[j] is WouldBlock,
    ensures
        write_steps_rest(n, outs) == (
            WritePoll::Failed { err: SendError::Interrupted },
            j as nat,
            (j + 1) as nat,
        ),
    decreases j,
{
    if j > 0 {
        assert(outs[0] is Accepted);
        lemma_rest_escalation((n - 1) as nat, outs.drop_first(), j - 1);
    }
}

/// Law (partial-send escalation): once at least one frame of a poll call has
/// been handed to the transport, a would-block on a later frame of the same
/// message makes the call fail immediately — it is never suspended. Exactly
/// the frames before the blocked one have been removed.
pub proof fn lemma_partial_send_escalation(n: nat, outs: Seq<SendOutcome>, j: int)
    requires
        1 <= j < n,
        j < outs.len(),
        forall|k: int| 0 <= k < j ==> outs[k] is Accepted,
        outs[j] is WouldBlock,
    ensures
        write_steps(n, outs).0 == (WritePoll::Failed { err: SendError::Interrupted }),
        write_steps(n, outs).1 == j,
{
    assert(outs[0] is Accepted);
    lemma_rest_escalation((n - 1) as nat, outs.drop_first(), j - 1);
}

/// The continuation flag for the frame about to be sent: every frame except
/// the last one of the message carries it.
pub fn more_flag(msg: &ZmqMessage) -> (b: bool)
    requires
        msg@.len() > 0,
    ensures
        b == (msg@.len() > 1),
{
    msg.len() > 1
}

/// One poll of the write side over one message. `ready` is the readiness
/// decision for write interest; `outs` holds the transport's answers from
/// position `start` on, one per send attempt. Returns the poll result and the
/// position after the answers this call used. Frames the transport accepted
/// are removed from the front of the message; on `Pending` the message is
/// untouched and retried whole on the next wake.
pub fn poll_write(
    msg: &mut ZmqMessage,
    ready: bool,
    outs: &Vec<SendOutcome>,
    start: usize,
) -> (r: (WritePoll, usize))
    requires
        start <= outs@.len(),
        ready ==> old(msg)@.len() <= outs@.len() - start,
    ensures
        !ready ==> r.0 is Pending && r.1 == start && final(msg)@ == old(msg)@,
        ready ==> ({
            let o = write_steps(old(msg)@.len(), outs@.skip(start as int));
            &&& r.0 == o.0
            &&& final(msg)@ =~= old(msg)@.skip(o.1 as int)
            &&& r.1 == start + o.2
        }),
{
    if !ready {
        return (WritePoll::Pending, start);
    }
    let ghost orig = msg@;
    let ghost target = write_steps(orig.len(), outs@.skip(start as int));
    let total = msg.len();
    let n_outs = outs.len();
    let mut cursor = start;
    let mut sent: usize = 0;
    while sent < total
        invariant
            ready,
            orig == old(msg)@,
            sent <= total,
            cursor == start + sent,
            n_outs == outs@.len(),
            start + total <= n_outs,
            total == orig.len(),
            msg@ =~= orig.skip(sent as int),
            target == write_steps(orig.len(), outs@.skip(start as int)),
            sent == 0 ==> target == write_steps((total - sent) as nat, outs@.skip(cursor as int)),
            sent >= 1 ==> ({
                let rest = write_steps_rest((total - sent) as nat, outs@.skip(cursor as int));
                &&& target.0 == rest.0
                &&& target.1 == rest.1 + sent
                &&& target.2 == rest.2 + sent
            }),
        decreases total - sent,
    {
        proof {
            assert(outs@.skip(cursor as int)[0] == outs@[cursor as int]);
            assert(outs@.skip(cursor as int).drop_first() =~= outs@.skip(cursor as int + 1));
        }
        match outs[cursor] {
            SendOutcome::Accepted => {
                let _sent_frame = msg.pop_front();
                sent = sent + 1;
                cursor = cursor + 1;
            },
            SendOutcome::WouldBlock => {
                if sent == 0 {
                    return (WritePoll::Pending, cursor + 1);
                } else {
                    return (WritePoll::Failed { err: SendError::Interrupted }, cursor + 1);
                }
            },
            SendOutcome::Fail { code } => {
                return (
                    WritePoll::Failed { err: SendError::Transport { code } },
                    cursor + 1,
                );
            },
        }
    }
    (WritePoll::Done, cursor)
}

} // verus!
