//! Cooperative, readiness-driven scheduling of whole multipart messages over a
//! non-blocking message socket.
//!
//! The socket itself, the reactor and the actor framework live outside this
//! crate; what is verified here is the adapter logic between them: the
//! readiness-poll decision, multipart message assembly, frame-by-frame message
//! sending, outbound buffering with its drain-then-close shutdown, the
//! per-connection stream driver, and token-keyed fan-out across many sockets.
//! Each transport interaction is represented by a plain event value
//! (a received frame, a would-block, a failure), so every decision the adapter
//! makes is a verified function of its state and those events.

pub mod group;
pub mod message;
pub mod reader;
pub mod readiness;
pub mod sink;
pub mod stream;
pub mod writer;
