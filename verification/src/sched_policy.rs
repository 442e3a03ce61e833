//! Android scheduling policy constants, as libprocessgroup's `sched_policy.h` numbers them.

use vstd::prelude::*;

verus! {

/// Android scheduling policy constants.
///
/// The numbers that the C side uses for each policy are given by [`SchedPolicy::as_raw`].
#[derive(Clone, Copy, Debug, PartialEq, Eq, Structural)]
pub enum SchedPolicy {
    /// Default scheduling policy for non-system processes
    Default,
    /// Scheduling policy for applications in the background
    Background,
    /// Scheduling policy for applications in the foreground
    Foreground,
    /// Scheduling policy for system services
    System,
    /// Scheduling policy for audio threads belonging to applications
    AudioApp,
    /// Scheduling policy for audio threads belonging to system services
    AudioSys,
    /// Scheduling policy for "Top Apps"
    TopApp,
    /// Scheduling policy for real-time applications
    RTApp,
    /// Scheduling policy for restricted applications
    Restricted,
    /// Scheduling policy for foregrounded application windows
    ForegroundWindow,
}

impl SchedPolicy {
    /// Default scheduling policy for system processes
    #[allow(non_upper_case_globals)]
    pub const SystemDefault: SchedPolicy = SchedPolicy::Foreground;

    /// The number that `sched_policy.h` gives to this policy.
    pub open spec fn raw_value(self) -> int {
        match self {
            SchedPolicy::Default => -1,
            SchedPolicy::Background => 0,
            SchedPolicy::Foreground => 1,
            SchedPolicy::System => 2,
            SchedPolicy::AudioApp => 3,
            SchedPolicy::AudioSys => 4,
            SchedPolicy::TopApp => 5,
            SchedPolicy::RTApp => 6,
            SchedPolicy::Restricted => 7,
            SchedPolicy::ForegroundWindow => 8,
        }
    }

    /// The C representation of this policy, as passed to `set_sched_policy` and
    /// `set_cpuset_policy`.
    pub fn as_raw(&self) -> (r: i32)
        ensures
            r == self.raw_value(),
    {
        match self {
            SchedPolicy::Default => -1,
            SchedPolicy::Background => 0,
            SchedPolicy::Foreground => 1,
            SchedPolicy::System => 2,
            SchedPolicy::AudioApp => 3,
            SchedPolicy::AudioSys => 4,
            SchedPolicy::TopApp => 5,
            SchedPolicy::RTApp => 6,
            SchedPolicy::Restricted => 7,
            SchedPolicy::ForegroundWindow => 8,
        }
    }
}

} // verus!
