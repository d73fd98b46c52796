//! Session management for a publish/subscribe messaging client.
//!
//! The crate holds the decisions of a resilient client session: which
//! subscriptions it keeps, how it retries a lost connection, how it moves
//! between its states, and how it issues an ordered run of outbound messages.
//! It performs no input or output itself. A driver performs each command the
//! crate hands out and reports what happened as an event.

pub mod error;
pub mod message;
pub mod options;
pub mod publish;
pub mod qos;
pub mod registry;
pub mod retry;
pub mod session;
pub mod trace;
