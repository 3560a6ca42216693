use vstd::prelude::*;

use crate::errors::Error;
use crate::sync::Point;
use crate::traj::Trajectory;

verus! {

/// Range Validator: holds the first and last pose samples and the first
/// and last point records, and checks that the pose time span covers the
/// point time span.
pub struct CheckTimestamps {
    /// First pose sample of the series.
    pub initial_trajectory: Trajectory,
    /// Last pose sample of the series.
    pub final_trajectory: Trajectory,
    /// First point record of the stream.
    pub initial_vertex: Point,
    /// Last point record of the stream.
    pub final_vertex: Point,
}

impl CheckTimestamps {
    /// Bundles the four boundary records for validation.
    pub fn new(
        initial_trajectory: Trajectory,
        final_trajectory: Trajectory,
        initial_vertex: Point,
        final_vertex: Point,
    ) -> (c: Self)
        ensures
            c.initial_trajectory == initial_trajectory,
            c.final_trajectory == final_trajectory,
            c.initial_vertex == initial_vertex,
            c.final_vertex == final_vertex,
    {
        Self { initial_trajectory, final_trajectory, initial_vertex, final_vertex }
    }

    /// The pose time span covers the point time span.
    pub open spec fn covered(self) -> bool {
        self.initial_trajectory.time <= self.initial_vertex.time && self.final_trajectory.time
            >= self.final_vertex.time
    }

    /// Checks time-range coverage before any interpolation is attempted.
    ///
    /// Failure is a fatal precondition violation: a point outside the pose
    /// time span has no valid bracketing pair, so synchronization must not
    /// proceed and no output may be produced.
    pub fn validate_timestamp_range(&self) -> (r: Result<(), Error>)
        ensures
            r is Ok <==> self.covered(),
            r is Err ==> r == Err::<(), Error>(Error::CoverageViolation),
    {
        if self.initial_trajectory.time <= self.initial_vertex.time && self.final_trajectory.time
            >= self.final_vertex.time {
            Ok(())
        } else {
            Err(Error::CoverageViolation)
        }
    }
}

} // verus!
