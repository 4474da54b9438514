//! Token-keyed fan-out across many sockets.
//!
//! A group maps application-chosen tokens to outbound buffers, one per
//! registered socket; registering a token again overwrites (shadows) the
//! prior registration, so a lookup always finds the newest one. `send`
//! routes a message by token: to an unknown token it hands the undelivered
//! message back to the caller instead of raising an error, and leaves the
//! group untouched — routing failures are recoverable by construction.
//! (The matching fan-in side — tagging every reader's delivery with its
//! token and merging the streams — carries no ordering guarantee between
//! tokens; the interleaving is the scheduler's.)

use vstd::prelude::*;

use crate::message::ZmqMessage;
use crate::sink::OutboundBuffer;
use crate::sink::SinkWake;
use crate::sink::wake_spec;
use crate::writer::SendOutcome;

verus! {

/// The state of one registered sink, over plain values.
pub struct SinkState {
    pub queued: Seq<Seq<Seq<u8>>>,
    pub in_flight: Seq<Seq<u8>>,
    pub stopping: bool,
}

/// The state of an outbound buffer, over plain values.
pub open spec fn state_of(s: OutboundBuffer) -> SinkState {
    SinkState { queued: s.queued(), in_flight: s.in_flight(), stopping: s.stopping() }
}

/// The registered sinks by token; a later entry for the same token wins.
pub open spec fn sinks_of(entries: Seq<(u64, OutboundBuffer)>) -> Map<u64, SinkState>
    decreases entries.len(),
{
    if entries.len() == 0 {
        Map::empty()
    } else {
        sinks_of(entries.drop_last()).insert(entries.last().0, state_of(entries.last().1))
    }
}

/// A token that occurs nowhere in the entries is not in the map.
proof fn lemma_absent(entries: Seq<(u64, OutboundBuffer)>, t: u64)
    requires
        forall|j: int| 0 <= j < entries.len() ==> (#[trigger] entries[j]).0 != t,
    ensures
        !sinks_of(entries).dom().contains(t),
    decreases entries.len(),
{
    if entries.len() > 0 {
        lemma_absent(entries.drop_last(), t);
    }
}

/// The last entry bearing a token decides what the map holds for it.
proof fn lemma_lookup(entries: Seq<(u64, OutboundBuffer)>, t: u64, i: int)
    requires
        0 <= i < entries.len(),
        entries[i].0 == t,
        forall|j: int| i < j < entries.len() ==> (#[trigger] entries[j]).0 != t,
    ensures
        sinks_of(entries).dom().contains(t),
        sinks_of(entries)[t] == state_of(entries[i].1),
    decreases entries.len(),
{
    if i < entries.len() - 1 {
        lemma_lookup(entries.drop_last(), t, i);
    }
}

/// Replacing the deciding entry for a token replaces just that token's
/// state in the map.
proof fn lemma_update(entries: Seq<(u64, OutboundBuffer)>, i: int, s2: OutboundBuffer)
    requires
        0 <= i < entries.len(),
        forall|j: int| i < j < entries.len() ==> (#[trigger] entries[j]).0 != entries[i].0,
    ensures
        sinks_of(entries.update(i, (entries[i].0, s2))) =~= sinks_of(entries).insert(
            entries[i].0,
            state_of(s2),
        ),
    decreases entries.len(),
{
    let e2 = entries.update(i, (entries[i].0, s2));
    if i == entries.len() - 1 {
        assert(e2.drop_last() =~= entries.drop_last());
        assert(e2.last() == (entries[i].0, s2));
    } else {
        assert(e2.drop_last() =~= entries.drop_last().update(i, (entries[i].0, s2)));
        assert(e2.last() == entries.last());
        lemma_update(entries.drop_last(), i, s2);
    }
}

/// A group of sockets: each registered token owns one outbound buffer.
pub struct PollGroup {
    entries: Vec<(u64, OutboundBuffer)>,
}

impl PollGroup {
    /// The registered sinks, by token.
    pub closed spec fn sinks(self) -> Map<u64, SinkState> {
        sinks_of(self.entries@)
    }

    /// An empty group.
    pub fn new() -> (g: Self)
        ensures
            g.sinks() =~= Map::<u64, SinkState>::empty(),
    {
        PollGroup { entries: Vec::new() }
    }

    /// Registers a socket under `token`, with a fresh, empty outbound
    /// buffer; a token registered before is overwritten.
    pub fn register(&mut self, token: u64)
        ensures
            final(self).sinks() =~= old(self).sinks().insert(
                token,
                SinkState {
                    queued: Seq::empty(),
                    in_flight: Seq::empty(),
                    stopping: false,
                },
            ),
    {
        let sink = OutboundBuffer::new();
        proof {
            assert(state_of(sink) == (SinkState {
                queued: Seq::<Seq<Seq<u8>>>::empty(),
                in_flight: Seq::<Seq<u8>>::empty(),
                stopping: false,
            }));
        }
        self.entries.push((token, sink));
        proof {
            assert(self.entries@.drop_last() =~= old(self).entries@);
        }
    }

    /// Whether `token` is registered.
    pub fn contains(&self, token: u64) -> (b: bool)
        ensures
            b == self.sinks().dom().contains(token),
    {
        let ghost entries = self.entries@;
        let mut i = self.entries.len();
        while i > 0
            invariant
                entries == self.entries@,
                i <= entries.len(),
                forall|j: int| i <= j < entries.len() ==> (#[trigger] entries[j]).0 != token,
            decreases i,
        {
            i = i - 1;
            if self.entries[i].0 == token {
                proof {
                    lemma_lookup(entries, token, i as int);
                }
                return true;
            }
        }
        proof {
            lemma_absent(entries, token);
        }
        false
    }

    /// Routes a message to the sink registered under `token`: enqueued
    /// there, the call returns `None`. An unknown token hands the message
    /// back unchanged and the group's registrations and sinks stay exactly
    /// as they were.
    pub fn send(&mut self, token: u64, message: ZmqMessage) -> (r: Option<ZmqMessage>)
        ensures
            old(self).sinks().dom().contains(token) ==> r is None && final(self).sinks()
                =~= old(self).sinks().insert(
                token,
                SinkState {
                    queued: old(self).sinks()[token].queued.push(message@),
                    in_flight: old(self).sinks()[token].in_flight,
                    stopping: old(self).sinks()[token].stopping,
                },
            ),
            !old(self).sinks().dom().contains(token) ==> (r matches Some(m) && m@ == message@)
                && final(self).sinks() == old(self).sinks(),
    {
        let ghost entries = self.entries@;
        let mut i = self.entries.len();
        while i > 0
            invariant
                entries == self.entries@,
                entries == old(self).entries@,
                i <= entries.len(),
                forall|j: int| i <= j < entries.len() ==> (#[trigger] entries[j]).0 != token,
            decreases i,
        {
            i = i - 1;
            if self.entries[i].0 == token {
                proof {
                    lemma_lookup(entries, token, i as int);
                }
                let pair = self.entries.remove(i);
                let mut sink = pair.1;
                sink.write(message);
                self.entries.insert(i, (token, sink));
                proof {
                    assert(self.entries@ =~= entries.update(i as int, (token, sink)));
                    lemma_update(entries, i as int, sink);
                }
                return None;
            }
        }
        proof {
            lemma_absent(entries, token);
        }
        Some(message)
    }

    /// One driver wake for the sink registered under `token` (see
    /// `OutboundBuffer::wake`); an unknown token does nothing and reports
    /// that. Messages popped there are appended to `handed`.
    pub fn wake_token(
        &mut self,
        token: u64,
        ready: bool,
        outs: &Vec<SendOutcome>,
        start: usize,
        handed: &mut Vec<ZmqMessage>,
    ) -> (r: Option<(SinkWake, usize)>)
        requires
            start <= outs@.len(),
            old(self).sinks().dom().contains(token) ==> ({
                let s = old(self).sinks()[token];
                wake_spec(s.queued, s.in_flight, s.stopping, ready, outs@.skip(start as int)).ok
            }),
        ensures
            !old(self).sinks().dom().contains(token) ==> r is None && final(self).sinks()
                == old(self).sinks() && final(handed)@ == old(handed)@,
            old(self).sinks().dom().contains(token) ==> ({
                let s = old(self).sinks()[token];
                let w = wake_spec(s.queued, s.in_flight, s.stopping, ready, outs@.skip(
                    start as int,
                ));
                &&& (r matches Some(p) && p.0 == w.result && p.1 == start + w.used)
                &&& final(self).sinks() =~= old(self).sinks().insert(
                    token,
                    SinkState { queued: w.queued, in_flight: w.in_flight, stopping: s.stopping },
                )
                &&& final(handed)@.map_values(|m: ZmqMessage| m@) =~= old(handed)@.map_values(
                    |m: ZmqMessage| m@,
                ) + w.handed
            }),
    {
        let ghost entries = self.entries@;
        let mut i = self.entries.len();
        while i > 0
            invariant
                entries == self.entries@,
                entries == old(self).entries@,
                handed@ == old(handed)@,
                start <= outs@.len(),
                i <= entries.len(),
                old(self).sinks().dom().contains(token) ==> ({
                    let s = old(self).sinks()[token];
                    wake_spec(
                        s.queued,
                        s.in_flight,
                        s.stopping,
                        ready,
                        outs@.skip(start as int),
                    ).ok
                }),
                forall|j: int| i <= j < entries.len() ==> (#[trigger] entries[j]).0 != token,
            decreases i,
        {
            i = i - 1;
            if self.entries[i].0 == token {
                proof {
                    lemma_lookup(entries, token, i as int);
                }
                let pair = self.entries.remove(i);
                let mut sink = pair.1;
                let (report, cursor) = sink.wake(ready, outs, start, handed);
                self.entries.insert(i, (token, sink));
                proof {
                    assert(self.entries@ =~= entries.update(i as int, (token, sink)));
                    lemma_update(entries, i as int, sink);
                }
                return Some((report, cursor));
            }
        }
        proof {
            lemma_absent(entries, token);
        }
        None
    }
}

} // verus!
