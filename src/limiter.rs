//! Plain values of the bandwidth limiter's control interface.
use vstd::prelude::*;

verus! {

/// One step of a bandwidth trajectory.
pub struct Trajectory {
    pub limit: u32,
    pub duration: u32,
    pub latency: u32,
}

/// How a trajectory is to be played.
pub struct TrajectoryQuery {
    pub looping: bool,
    pub mode: String,
}

/// The mode of a trajectory that names none.
pub fn default_trajectory_mode() -> (r: String)
    ensures
        r@ == "cascade"@,
{
    "cascade".to_owned()
}

} // verus!
