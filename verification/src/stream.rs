//! The per-connection stream driver: couples the read half to a handler.
//!
//! A driver moves through `NotStarted -> Running -> Stopped`. Its first wake
//! fires the handler's started hook. While running, each wake drains at most
//! one completed read-poll result and dispatches it: a message is delivered,
//! a read error asks the handler for a verdict (continue or stop), the end
//! of the stream fires the finished hook and stops the driver for good.
//! Whenever the wake leaves the driver running and the owning context is not
//! otherwise suspended, one wake is re-scheduled so delivery is not starved.

use vstd::prelude::*;

use crate::message::ZmqMessage;
use crate::reader::ReadError;
use crate::reader::ReadPoll;

verus! {

/// The handler's answer to a read error.
#[derive(Clone, Copy, PartialEq, Eq, Structural, Debug)]
pub enum Verdict {
    /// Keep the connection; go on reading.
    Continue,
    /// Finalize the connection now.
    Stop,
}

/// Where the driver stands.
#[derive(Clone, Copy, PartialEq, Eq, Structural, Debug)]
pub enum StreamState {
    /// No wake has run yet; the started hook has not fired.
    NotStarted,
    /// Started, reading.
    Running,
    /// A read error was dispatched; the next move is the handler's verdict.
    ErrorPending,
    /// Terminal: no further wake is meaningful.
    Stopped,
}

/// What one driver wake tells the surrounding task to do, in order: fire the
/// started hook, then at most one of (deliver a message, consult the error
/// handler, fire the finished hook, fire the stopped hook), then — unless the
/// task is done — re-arm one wake if asked to.
pub struct StreamStep {
    /// Fire the handler's started hook now.
    pub notify_started: bool,
    /// Hand this message to the handler.
    pub deliver: Option<ZmqMessage>,
    /// Ask the handler for a verdict on this error, then call
    /// `resolve_error` with it.
    pub consult_error: Option<ReadError>,
    /// Stream end: fire the handler's finished hook.
    pub notify_finished: bool,
    /// Fire the handler's stopped hook (the connection finalizes on error).
    pub notify_stopped: bool,
    /// The driver task completes now; nothing more will run.
    pub done: bool,
    /// Schedule exactly one wake before suspending.
    pub rearm: bool,
}

/// The per-connection state machine.
pub struct StreamDriver {
    state: StreamState,
}

impl StreamDriver {
    /// Where the driver stands.
    pub closed spec fn state(self) -> StreamState {
        self.state
    }

    /// A fresh driver: not yet started.
    pub fn new() -> (s: Self)
        ensures
            s.state() is NotStarted,
    {
        StreamDriver { state: StreamState::NotStarted }
    }

    /// One wake: dispatch what this wake's read poll produced. `waiting`
    /// says whether the owning context is suspended on other work (then no
    /// extra wake is scheduled). A `Failed` poll result moves the driver to
    /// `ErrorPending`; the caller obtains the handler's verdict and calls
    /// `resolve_error` to finish the wake.
    pub fn step(&mut self, ev: ReadPoll, waiting: bool) -> (r: StreamStep)
        requires
            old(self).state() is NotStarted || old(self).state() is Running,
        ensures
            r.notify_started == (old(self).state() is NotStarted),
            ev is Pending ==> final(self).state() is Running && r.deliver is None
                && r.consult_error is None && !r.notify_finished && !r.notify_stopped
                && !r.done && r.rearm == !waiting,
            (ev matches ReadPoll::Message { message } ==> final(self).state() is Running
                && (r.deliver matches Some(m) && m@ == message@) && r.consult_error is None
                && !r.notify_finished && !r.notify_stopped && !r.done && r.rearm == !waiting),
            ev is Closed ==> final(self).state() is Stopped && r.deliver is None
                && r.consult_error is None && r.notify_finished && !r.notify_stopped
                && r.done && !r.rearm,
            (ev matches ReadPoll::Failed { err } ==> final(self).state() is ErrorPending
                && r.deliver is None && r.consult_error == Some(err) && !r.notify_finished
                && !r.notify_stopped && !r.done && !r.rearm),
    {
        let notify_started = match self.state {
            StreamState::NotStarted => true,
            _ => false,
        };
        match ev {
            ReadPoll::Pending => {
                self.state = StreamState::Running;
                StreamStep {
                    notify_started,
                    deliver: None,
                    consult_error: None,
                    notify_finished: false,
                    notify_stopped: false,
                    done: false,
                    rearm: !waiting,
                }
            },
            ReadPoll::Message { message } => {
                self.state = StreamState::Running;
                StreamStep {
                    notify_started,
                    deliver: Some(message),
                    consult_error: None,
                    notify_finished: false,
                    notify_stopped: false,
                    done: false,
                    rearm: !waiting,
                }
            },
            ReadPoll::Closed => {
                self.state = StreamState::Stopped;
                StreamStep {
                    notify_started,
                    deliver: None,
                    consult_error: None,
                    notify_finished: true,
                    notify_stopped: false,
                    done: true,
                    rearm: false,
                }
            },
            ReadPoll::Failed { err } => {
                self.state = StreamState::ErrorPending;
                StreamStep {
                    notify_started,
                    deliver: None,
                    consult_error: Some(err),
                    notify_finished: false,
                    notify_stopped: false,
                    done: false,
                    rearm: false,
                }
            },
        }
    }

    /// Completes a wake whose read poll failed, once the handler has
    /// decided: `Stop` fires the stopped hook and ends the task; `Continue`
    /// keeps the connection reading.
    pub fn resolve_error(&mut self, verdict: Verdict, waiting: bool) -> (r: StreamStep)
        requires
            old(self).state() is ErrorPending,
        ensures
            !r.notify_started && r.deliver is None && r.consult_error is None
                && !r.notify_finished,
            verdict is Stop ==> final(self).state() is Stopped && r.notify_stopped && r.done
                && !r.rearm,
            verdict is Continue ==> final(self).state() is Running && !r.notify_stopped
                && !r.done && r.rearm == !waiting,
    {
        match verdict {
            Verdict::Stop => {
                self.state = StreamState::Stopped;
                StreamStep {
                    notify_started: false,
                    deliver: None,
                    consult_error: None,
                    notify_finished: false,
                    notify_stopped: true,
                    done: true,
                    rearm: false,
                }
            },
            Verdict::Continue => {
                self.state = StreamState::Running;
                StreamStep {
                    notify_started: false,
                    deliver: None,
                    consult_error: None,
                    notify_finished: false,
                    notify_stopped: false,
                    done: false,
                    rearm: !waiting,
                }
            },
        }
    }
}

} // verus!
