//! Delivery guarantee levels.

use vstd::prelude::*;

verus! {

/// The delivery guarantee requested for a message or a subscription.
#[derive(Clone, Copy, Debug, PartialEq, Eq, Structural)]
pub enum QoS {
    /// Level 0: the message arrives at most once.
    AtMostOnce,
    /// Level 1: the message arrives at least once.
    AtLeastOnce,
    /// Level 2: the message arrives exactly once.
    ExactlyOnce,
}

impl QoS {
    /// The integer level of this guarantee.
    pub open spec fn spec_level(self) -> int {
        match self {
            QoS::AtMostOnce => 0,
            QoS::AtLeastOnce => 1,
            QoS::ExactlyOnce => 2,
        }
    }

    /// The integer level of this guarantee: 0, 1 or 2.
    pub fn level(self) -> (n: i32)
        ensures
            n == self.spec_level(),
    {
        match self {
            QoS::AtMostOnce => 0,
            QoS::AtLeastOnce => 1,
            QoS::ExactlyOnce => 2,
        }
    }

    /// The guarantee with the given integer level, if there is one.
    pub fn from_level(n: i32) -> (q: Option<QoS>)
        ensures
            0 <= n <= 2 <==> q is Some,
            q matches Some(v) ==> v.spec_level() == n,
    {
        if n == 0 {
            Some(QoS::AtMostOnce)
        } else if n == 1 {
            Some(QoS::AtLeastOnce)
        } else if n == 2 {
            Some(QoS::ExactlyOnce)
        } else {
            None
        }
    }
}

} // verus!
