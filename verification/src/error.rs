//! The failures a session can meet.

use vstd::prelude::*;

verus! {

/// What went wrong in a session.
#[derive(Clone, Copy, Debug, PartialEq, Eq, Structural)]
pub enum SessionError {
    /// A connection parameter or a subscription list is missing or invalid.
    /// Reported before any connection attempt.
    Config,
    /// The first connection could not be established. It is not retried.
    Connect,
    /// An established connection was lost. The session recovers from it on
    /// its own and never hands this error out.
    TransientLoss,
    /// The connection could not be recovered within the retry budget.
    RecoveryExhausted,
    /// A publish call failed. The calls scheduled after it are not made.
    Publish,
    /// The first subscription request failed.
    Subscribe,
    /// Unsubscribing or disconnecting failed while shutting down. The session
    /// ends as requested all the same.
    Shutdown,
}

} // verus!
