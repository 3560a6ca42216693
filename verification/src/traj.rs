use vstd::prelude::*;

use crate::errors::Error;

verus! {

/// Largest magnitude admitted for a fixed-point timestamp or coordinate.
///
/// Every time and position the engine computes with must lie in
/// `[-COORD_LIMIT, COORD_LIMIT]`; the bound leaves enough headroom that all
/// interpolation arithmetic fits in the machine integers it is done with.
pub const COORD_LIMIT: i64 = 0x1000_0000_0000;

/// One navigation-system sample: platform position and orientation at a
/// timestamp.
///
/// `time`, `x`, `y` and `z` are fixed-point integers in the caller's scale.
/// The orientation quaternion is carried for completeness but never
/// consumed by translation interpolation, so its components stay raw
/// IEEE-754 `f64` bit patterns.
#[derive(Clone, Copy, Debug, PartialEq, Eq, Structural)]
pub struct Trajectory {
    /// Sample timestamp, fixed point.
    pub time: i64,
    /// Platform position, fixed point.
    pub x: i64,
    /// Platform position, fixed point.
    pub y: i64,
    /// Platform position, fixed point.
    pub z: i64,
    /// Orientation component, `f64` bit pattern, carried untouched.
    pub qw: u64,
    /// Orientation component, `f64` bit pattern, carried untouched.
    pub qx: u64,
    /// Orientation component, `f64` bit pattern, carried untouched.
    pub qy: u64,
    /// Orientation component, `f64` bit pattern, carried untouched.
    pub qz: u64,
}

/// The value is within the fixed-point range the engine computes over.
pub open spec fn fits(v: int) -> bool {
    -COORD_LIMIT <= v <= COORD_LIMIT
}

impl Trajectory {
    /// The sample's time and position are within the fixed-point range the
    /// engine computes over.
    pub open spec fn wf(self) -> bool {
        &&& fits(self.time as int)
        &&& fits(self.x as int)
        &&& fits(self.y as int)
        &&& fits(self.z as int)
    }
}

/// Timestamps are non-decreasing in storage order.
pub open spec fn sorted_by_time(s: Seq<Trajectory>) -> bool {
    forall|i: int, j: int| 0 <= i <= j < s.len() ==> s[i].time <= s[j].time
}

/// Every sample of the series is within the fixed-point range.
pub open spec fn all_wf(s: Seq<Trajectory>) -> bool {
    forall|i: int| 0 <= i < s.len() ==> s[i].wf()
}

/// Checks that a loaded pose series is in non-decreasing time order.
///
/// A decrease is a data-integrity error, not a silent skip: the index of
/// the first offending sample is reported as `NonMonotonicInput`.
pub fn validate_trajectory_order(trajs: &Vec<Trajectory>) -> (r: Result<(), Error>)
    ensures
        r is Ok <==> sorted_by_time(trajs@),
        r is Err ==> (exists|i: int|
            0 < i < trajs@.len() && #[trigger] trajs@[i].time < trajs@[i - 1].time
                && sorted_by_time(trajs@.subrange(0, i)) && r == Err::<(), Error>(
                Error::NonMonotonicInput(i as usize),
            )),
{
    if trajs.len() == 0 {
        return Ok(());
    }
    let mut k: usize = 1;
    while k < trajs.len()
        invariant
            1 <= k <= trajs@.len(),
            forall|i: int, j: int| 0 <= i <= j < k ==> trajs@[i].time <= trajs@[j].time,
        decreases trajs.len() - k,
    {
        if trajs[k].time < trajs[k - 1].time {
            return Err(Error::NonMonotonicInput(k));
        }
        k += 1;
    }
    Ok(())
}

} // verus!
