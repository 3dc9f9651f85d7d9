//! Connecting to a dependent service: how often a connection is tried, and
//! how long to wait between two tries.

use vstd::prelude::*;

verus! {

/// How often a connection is tried at most.
pub const CONNECT_ATTEMPTS: u32 = 10;

/// The seconds to wait before a connection is tried again.
pub const RETRY_SECONDS: u64 = 3;

/// What to do after a try to connect.
#[derive(Clone, Copy, Debug, PartialEq, Eq, Structural)]
pub enum ConnectStep {
    /// The connection stands.
    Connected,
    /// Wait for `wait_seconds`, then try again; `failures` tries have failed.
    Retry { failures: u32, wait_seconds: u64 },
    /// Every try has failed: the service cannot be reached.
    GiveUp,
}

/// What to do after a try to connect that succeeded or failed, where
/// `failures` tries have failed before it.
pub open spec fn next_step(failures: u32, connected: bool) -> ConnectStep {
    if connected {
        ConnectStep::Connected
    } else if failures + 1 >= CONNECT_ATTEMPTS {
        ConnectStep::GiveUp
    } else {
        ConnectStep::Retry { failures: (failures + 1) as u32, wait_seconds: RETRY_SECONDS }
    }
}

/// What to do after a try to connect that succeeded or failed, where
/// `failures` tries have failed before it: a connection is tried ten times,
/// three seconds apart.
pub fn after_attempt(failures: u32, connected: bool) -> (step: ConnectStep)
    ensures
        step == next_step(failures, connected),
{
    if connected {
        ConnectStep::Connected
    } else if failures >= CONNECT_ATTEMPTS - 1 {
        ConnectStep::GiveUp
    } else {
        ConnectStep::Retry { failures: failures + 1, wait_seconds: RETRY_SECONDS }
    }
}

/// Starting with no failure, the tenth failure in a row gives up, and no
/// earlier one does.
pub proof fn lemma_ten_attempts(failures: u32)
    ensures
        next_step(failures, false) is GiveUp <==> failures >= 9,
        failures < 9 ==> next_step(failures, false) == (ConnectStep::Retry {
            failures: (failures + 1) as u32,
            wait_seconds: 3,
        }),
{
}

} // verus!
