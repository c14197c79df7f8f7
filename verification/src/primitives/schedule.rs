//! Scheduled work.

use super::amounts::CanonicalTime;
use super::ids::{LaneId, RequestId};
use vstd::prelude::*;

verus! {

/// A durable unit of scheduled work shared by protocol subsystems.
///
/// The scheduler owns leasing and retry. Each subsystem owns the meaning of its task variant and
/// the command or state transition made from it.
#[derive(Clone, Copy, Debug, PartialEq, Eq, PartialOrd, Ord, Hash, Structural)]
pub enum ScheduleTask {
    SubmissionTimeout(RequestId),
    RequestExpiry(RequestId),
    LaneHorizon(LaneId),
}

#[derive(Clone, Copy, Debug, PartialEq, Eq, Hash, Structural)]
pub enum ScheduleChange {
    Schedule { task: ScheduleTask, at: CanonicalTime },
    Cancel { task: ScheduleTask },
}

} // verus!
