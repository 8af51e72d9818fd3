use vstd::prelude::*;

verus! {

/// Merges an optional setting: `right` replaces `left` where `left` is unset
/// or `right` is set.
pub fn overwrite<T>(left: &mut Option<T>, right: Option<T>)
    ensures
        *final(left) == if old(left).is_none() || right.is_some() {
            right
        } else {
            *old(left)
        },
{
    if left.is_none() || right.is_some() {
        *left = right;
    }
}

/// Heartbeat settings: how many failed heartbeats in a row are tolerated
/// before the leader is replaced, and the seconds between heartbeats.
#[derive(Clone, Copy, Debug, PartialEq, Eq, Structural)]
pub struct KeepAlive {
    pub failure_threshold: u64,
    pub period_seconds: u64,
}

impl KeepAlive {
    /// Three tolerated failures, one heartbeat every three seconds.
    pub fn default() -> (r: KeepAlive)
        ensures
            r.failure_threshold == 3,
            r.period_seconds == 3,
    {
        KeepAlive { failure_threshold: 3, period_seconds: 3 }
    }
}

} // verus!
