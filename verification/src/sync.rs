use vstd::prelude::*;

use crate::errors::Error;
use crate::interp::{interp_axis, interpolate, lemma_interp_axis_bounds};
use crate::traj::{all_wf, fits, sorted_by_time, Trajectory};

verus! {

/// One point record with its timestamp and position in the fixed-point
/// scale of the engine (converted from the raw record by the caller);
/// fields the engine never reads are carried as raw bit patterns.
#[derive(Clone, Copy, Debug, PartialEq, Eq, Structural)]
pub struct Point {
    /// Platform clock timestamp, fixed point.
    pub time: i64,
    /// Raw sensor-frame coordinate, fixed point.
    pub x: i64,
    /// Raw sensor-frame coordinate, fixed point.
    pub y: i64,
    /// Raw sensor-frame coordinate, fixed point.
    pub z: i64,
    /// Return intensity, `f32` bit pattern, carried untouched.
    pub intensity: u32,
    /// Sensor channel / ring id.
    pub ring: u8,
    /// Multi-return index.
    pub return_num: u8,
    /// Raw range measurement, `f32` bit pattern, carried untouched.
    pub range: u32,
}

impl Point {
    /// The point's time and position are within the fixed-point range the
    /// engine computes over.
    pub open spec fn wf(self) -> bool {
        &&& fits(self.time as int)
        &&& fits(self.x as int)
        &&& fits(self.y as int)
        &&& fits(self.z as int)
    }
}

/// One corrected record: the interpolated reference position, the
/// correction delta (reference minus raw position), and the payload
/// fields of the point, in the fixed-point scale of the engine.
#[derive(Clone, Copy, Debug, PartialEq, Eq, Structural)]
pub struct CorrectedPoint {
    /// Interpolated reference position, fixed point.
    pub x: i64,
    /// Interpolated reference position, fixed point.
    pub y: i64,
    /// Interpolated reference position, fixed point.
    pub z: i64,
    /// The point's own timestamp, fixed point.
    pub time: i64,
    /// Correction delta: reference minus raw position, fixed point.
    pub nx: i64,
    /// Correction delta: reference minus raw position, fixed point.
    pub ny: i64,
    /// Correction delta: reference minus raw position, fixed point.
    pub nz: i64,
    /// Return intensity, `f32` bit pattern, carried untouched.
    pub intensity: u32,
    /// Sensor channel / ring id.
    pub ring: u8,
    /// Multi-return index.
    pub return_num: u8,
    /// Raw range measurement, `f32` bit pattern, carried untouched.
    pub range: u32,
}

/// What the synchronizer did with one point.
#[derive(Clone, Copy, Debug, PartialEq, Eq, Structural)]
pub enum SyncOutcome {
    /// The point was bracketed and corrected.
    Corrected(CorrectedPoint),
    /// The point lies past the last pose bracket; it is reported rather
    /// than extrapolated, and the caller's policy decides whether to skip
    /// or emit it unmodified.
    OutOfCoverage,
}

/// Result of a full synchronization pass: the corrected records in
/// encounter order and the count of points skipped as out of coverage.
pub struct SyncRun {
    /// Corrected records, in encounter order.
    pub corrected: Vec<CorrectedPoint>,
    /// How many points fell past the last pose bracket.
    pub skipped: usize,
}

/// Where the pose cursor stops for a point at time `t`, starting from
/// cursor `i`: the cursor advances while the point lies past the end of
/// the current bracket and a further pose exists. It never moves
/// backward.
pub open spec fn advance_cursor(poses: Seq<Trajectory>, i: int, t: int) -> int
    recommends
        0 <= i,
        i + 1 < poses.len(),
    decreases poses.len() - i,
{
    if i + 2 < poses.len() && t > poses[i + 1].time {
        advance_cursor(poses, i + 1, t)
    } else {
        i
    }
}

/// The advanced cursor stays a valid window start, only moves forward,
/// strictly trails the point when it moved at all, and stops only at the
/// last bracket or at a bracket whose end reaches the point.
pub proof fn lemma_advance_cursor_props(poses: Seq<Trajectory>, i: int, t: int)
    requires
        0 <= i,
        i + 1 < poses.len(),
    ensures
        i <= advance_cursor(poses, i, t),
        advance_cursor(poses, i, t) + 1 < poses.len(),
        advance_cursor(poses, i, t) > i ==> poses[advance_cursor(poses, i, t)].time < t,
        advance_cursor(poses, i, t) + 2 < poses.len() ==> t <= poses[advance_cursor(
            poses,
            i,
            t,
        ) + 1].time,
    decreases poses.len() - i,
{
    if i + 2 < poses.len() && t > poses[i + 1].time {
        lemma_advance_cursor_props(poses, i + 1, t);
    }
}

/// The reference position for one axis: the bracket end position on an
/// exact timestamp match (no division is performed), linear interpolation
/// strictly inside the bracket.
pub open spec fn resolve_axis(t1_time: int, p1: int, t2_time: int, p2: int, t: int) -> int {
    if t == t1_time {
        p1
    } else if t == t2_time {
        p2
    } else {
        interp_axis(t1_time, p1, t2_time, p2, t)
    }
}

/// The corrected record for point `p` under the bracket starting at pose
/// index `c`: the resolved reference position, the correction delta
/// (reference minus raw), the point's own timestamp, and its payload
/// fields unchanged.
pub open spec fn corrected_of(poses: Seq<Trajectory>, c: int, p: Point) -> CorrectedPoint {
    let t1 = poses[c];
    let t2 = poses[c + 1];
    let rx = resolve_axis(t1.time as int, t1.x as int, t2.time as int, t2.x as int, p.time as int);
    let ry = resolve_axis(t1.time as int, t1.y as int, t2.time as int, t2.y as int, p.time as int);
    let rz = resolve_axis(t1.time as int, t1.z as int, t2.time as int, t2.z as int, p.time as int);
    CorrectedPoint {
        x: rx as i64,
        y: ry as i64,
        z: rz as i64,
        time: p.time,
        nx: (rx - p.x) as i64,
        ny: (ry - p.y) as i64,
        nz: (rz - p.z) as i64,
        intensity: p.intensity,
        ring: p.ring,
        return_num: p.return_num,
        range: p.range,
    }
}

/// One synchronization step on point `p` (reported as record `index`),
/// from cursor `cursor` with `prev` the previous point's timestamp:
/// yields the outcome and the new cursor. Mirrors exactly what
/// [`Synchronizer::process`] does.
pub open spec fn spec_step(
    poses: Seq<Trajectory>,
    cursor: int,
    prev: Option<i64>,
    p: Point,
    index: usize,
) -> (Result<SyncOutcome, Error>, int)
    recommends
        0 <= cursor,
        cursor + 1 < poses.len(),
{
    if prev matches Some(pt) && p.time < pt {
        (Err(Error::NonMonotonicInput(index)), cursor)
    } else if p.time < poses[cursor].time {
        (Err(Error::CoverageViolation), cursor)
    } else {
        let c = advance_cursor(poses, cursor, p.time as int);
        if p.time > poses[c + 1].time {
            (Ok(SyncOutcome::OutOfCoverage), c)
        } else {
            (Ok(SyncOutcome::Corrected(corrected_of(poses, c, p))), c)
        }
    }
}

/// A full synchronization pass over `points`, starting at point `k` with
/// the given cursor and previous timestamp: the corrected records of all
/// bracketed points in encounter order (out-of-coverage points are
/// skipped), or the first error.
pub open spec fn spec_run(
    poses: Seq<Trajectory>,
    points: Seq<Point>,
    k: int,
    cursor: int,
    prev: Option<i64>,
) -> Result<Seq<CorrectedPoint>, Error>
    recommends
        0 <= k <= points.len(),
        0 <= cursor,
        cursor + 1 < poses.len(),
    decreases points.len() - k,
{
    if k < 0 || k >= points.len() {
        Ok(Seq::empty())
    } else {
        let p = points[k];
        let step = spec_step(poses, cursor, prev, p, k as usize);
        match step.0 {
            Err(e) => Err(e),
            Ok(SyncOutcome::OutOfCoverage) => spec_run(poses, points, k + 1, step.1, Some(p.time)),
            Ok(SyncOutcome::Corrected(cp)) => match spec_run(
                poses,
                points,
                k + 1,
                step.1,
                Some(p.time),
            ) {
                Ok(rest) => Ok(seq![cp] + rest),
                Err(e) => Err(e),
            },
        }
    }
}

/// The whole pipeline pass: synchronize every point against the pose
/// series, from a fresh window.
pub open spec fn spec_synchronize(poses: Seq<Trajectory>, points: Seq<Point>) -> Result<
    Seq<CorrectedPoint>,
    Error,
> {
    spec_run(poses, points, 0, 0, None)
}

/// The synchronization and interpolation engine: consumes points in time
/// order and maintains a bracketing pose window that only moves forward.
pub struct Synchronizer {
    /// The pose series, loaded once and immutable for the whole run.
    pub trajectories: Vec<Trajectory>,
    /// Index of the bracket start: the window is `(trajectories[cursor],
    /// trajectories[cursor + 1])`.
    pub cursor: usize,
    /// Timestamp of the previous point, for the monotonicity check.
    pub prev_time: Option<i64>,
}

impl Synchronizer {
    /// The engine's invariant: at least one bracket exists, the cursor
    /// points at a valid bracket, the series is time-ordered and within
    /// the fixed-point range, and the window start never passes the last
    /// consumed point.
    pub open spec fn wf(self) -> bool {
        &&& 2 <= self.trajectories@.len()
        &&& self.cursor + 1 < self.trajectories@.len()
        &&& sorted_by_time(self.trajectories@)
        &&& all_wf(self.trajectories@)
        &&& (self.prev_time matches Some(t) ==> fits(t as int)
            && self.trajectories@[self.cursor as int].time <= t)
    }

    /// Builds a synchronizer over a loaded pose series, validating that
    /// the series is in non-decreasing time order (a decrease is reported
    /// as `NonMonotonicInput` with the offending line index).
    pub fn new(trajectories: Vec<Trajectory>) -> (r: Result<Synchronizer, Error>)
        requires
            2 <= trajectories@.len(),
            all_wf(trajectories@),
        ensures
            r is Ok <==> sorted_by_time(trajectories@),
            r matches Ok(s) ==> {
                &&& s.wf()
                &&& s.trajectories == trajectories
                &&& s.cursor == 0
                &&& s.prev_time is None
            },
            r matches Err(e) ==> e is NonMonotonicInput,
    {
        match crate::traj::validate_trajectory_order(&trajectories) {
            Ok(()) => Ok(Synchronizer { trajectories, cursor: 0, prev_time: None }),
            Err(e) => Err(e),
        }
    }

    /// Processes one point (reported as record `index`), in this order:
    /// monotonicity check, window advance, bracket check, position
    /// resolution, correction.
    ///
    /// The cursor never moves backward. The returned outcome and the new
    /// cursor are exactly [`spec_step`]; on an error the state is
    /// unchanged.
    pub fn process(&mut self, p: &Point, index: usize) -> (r: Result<SyncOutcome, Error>)
        requires
            old(self).wf(),
            p.wf(),
        ensures
            final(self).wf(),
            final(self).trajectories == old(self).trajectories,
            old(self).cursor <= final(self).cursor,
            ({
                let step = spec_step(
                    old(self).trajectories@,
                    old(self).cursor as int,
                    old(self).prev_time,
                    *p,
                    index,
                );
                &&& r == step.0
                &&& r is Err ==> *final(self) == *old(self)
                &&& r is Ok ==> final(self).cursor as int == step.1 && final(self).prev_time
                    == Some(p.time)
            }),
    {
        let ghost poses = self.trajectories@;
        let ghost cursor0 = self.cursor as int;
        if let Some(pt) = self.prev_time {
            if p.time < pt {
                return Err(Error::NonMonotonicInput(index));
            }
        }
        if p.time < self.trajectories[self.cursor].time {
            return Err(Error::CoverageViolation);
        }
        let len = self.trajectories.len();
        while self.cursor + 2 < len && p.time > self.trajectories[self.cursor + 1].time
            invariant
                len == self.trajectories@.len(),
                self.trajectories == old(self).trajectories,
                self.trajectories@ == poses,
                self.prev_time == old(self).prev_time,
                cursor0 <= self.cursor as int,
                self.cursor + 1 < len,
                advance_cursor(poses, cursor0, p.time as int) == advance_cursor(
                    poses,
                    self.cursor as int,
                    p.time as int,
                ),
            decreases len - self.cursor,
        {
            self.cursor = self.cursor + 1;
        }
        proof {
            assert(self.cursor as int == advance_cursor(poses, cursor0, p.time as int));
            lemma_advance_cursor_props(poses, cursor0, p.time as int);
        }
        let t1 = self.trajectories[self.cursor];
        let t2 = self.trajectories[self.cursor + 1];
        if p.time > t2.time {
            self.prev_time = Some(p.time);
            return Ok(SyncOutcome::OutOfCoverage);
        }
        let (x_s, y_s, z_s) = if p.time == t1.time {
            (t1.x, t1.y, t1.z)
        } else if p.time == t2.time {
            (t2.x, t2.y, t2.z)
        } else {
            match interpolate(&t1, &t2, p.time) {
                Ok(pos) => pos,
                Err(e) => {
                    // provably unreachable: with exact timestamps a
                    // degenerate bracket forces an exact match above
                    return Err(e);
                },
            }
        };
        proof {
            if t1.time < p.time < t2.time {
                lemma_interp_axis_bounds(
                    t1.time as int,
                    t1.x as int,
                    t2.time as int,
                    t2.x as int,
                    p.time as int,
                );
                lemma_interp_axis_bounds(
                    t1.time as int,
                    t1.y as int,
                    t2.time as int,
                    t2.y as int,
                    p.time as int,
                );
                lemma_interp_axis_bounds(
                    t1.time as int,
                    t1.z as int,
                    t2.time as int,
                    t2.z as int,
                    p.time as int,
                );
            }
        }
        let corrected = CorrectedPoint {
            x: x_s,
            y: y_s,
            z: z_s,
            time: p.time,
            nx: x_s - p.x,
            ny: y_s - p.y,
            nz: z_s - p.z,
            intensity: p.intensity,
            ring: p.ring,
            return_num: p.return_num,
            range: p.range,
        };
        self.prev_time = Some(p.time);
        Ok(SyncOutcome::Corrected(corrected))
    }

    /// Runs a full synchronization pass over `points` from a fresh
    /// window: every bracketed point is corrected in encounter order,
    /// out-of-coverage points are skipped and counted, and the first
    /// error aborts the pass. The result is exactly [`spec_synchronize`].
    pub fn run(&mut self, points: &Vec<Point>) -> (r: Result<SyncRun, Error>)
        requires
            old(self).wf(),
            old(self).cursor == 0,
            old(self).prev_time is None,
            forall|i: int| 0 <= i < points@.len() ==> (#[trigger] points@[i]).wf(),
        ensures
            final(self).wf(),
            final(self).trajectories == old(self).trajectories,
            old(self).cursor <= final(self).cursor,
            ({
                let full = spec_synchronize(old(self).trajectories@, points@);
                match r {
                    Ok(out) => full == Ok::<Seq<CorrectedPoint>, Error>(out.corrected@)
                        && out.corrected@.len() + out.skipped == points@.len(),
                    Err(e) => full == Err::<Seq<CorrectedPoint>, Error>(e),
                }
            }),
    {
        let ghost poses = self.trajectories@;
        let mut corrected: Vec<CorrectedPoint> = Vec::new();
        let mut skipped: usize = 0;
        let mut k: usize = 0;
        while k < points.len()
            invariant
                self.wf(),
                self.trajectories == old(self).trajectories,
                self.trajectories@ == poses,
                poses == old(self).trajectories@,
                old(self).cursor <= self.cursor,
                k <= points@.len(),
                forall|i: int| 0 <= i < points@.len() ==> (#[trigger] points@[i]).wf(),
                corrected@.len() + skipped == k,
                spec_synchronize(poses, points@) == match spec_run(
                    poses,
                    points@,
                    k as int,
                    self.cursor as int,
                    self.prev_time,
                ) {
                    Ok(rest) => Ok::<Seq<CorrectedPoint>, Error>(corrected@ + rest),
                    Err(e) => Err::<Seq<CorrectedPoint>, Error>(e),
                },
            decreases points@.len() - k,
        {
            let p = points[k];
            let ghost corrected_before = corrected@;
            match self.process(&p, k) {
                Ok(SyncOutcome::Corrected(cp)) => {
                    corrected.push(cp);
                    proof {
                        if let Ok(rest) = spec_run(
                            poses,
                            points@,
                            k as int + 1,
                            self.cursor as int,
                            self.prev_time,
                        ) {
                            assert(corrected_before + (seq![cp] + rest) =~= corrected@ + rest);
                        }
                    }
                },
                Ok(SyncOutcome::OutOfCoverage) => {
                    skipped = skipped + 1;
                },
                Err(e) => {
                    return Err(e);
                },
            }
            k = k + 1;
        }
        proof {
            assert(spec_run(poses, points@, k as int, self.cursor as int, self.prev_time)
                == Ok::<Seq<CorrectedPoint>, Error>(Seq::empty()));
            assert(corrected@ + Seq::<CorrectedPoint>::empty() =~= corrected@);
        }
        Ok(SyncRun { corrected, skipped })
    }
}

/// The whole pipeline on loaded data: validates that the pose series is
/// time-ordered and that its time span covers the point time span, and
/// only then synchronizes. A coverage violation aborts before any output
/// record is produced.
pub fn run_pipeline(trajectories: Vec<Trajectory>, points: &Vec<Point>) -> (r: Result<
    SyncRun,
    Error,
>)
    requires
        2 <= trajectories@.len(),
        all_wf(trajectories@),
        forall|i: int| 0 <= i < points@.len() ==> (#[trigger] points@[i]).wf(),
    ensures
        ({
            let poses = trajectories@;
            let covered = points@.len() == 0 || (poses[0].time <= points@[0].time
                && poses[poses.len() - 1].time >= points@[points@.len() - 1].time);
            if !sorted_by_time(poses) {
                r matches Err(e) && e is NonMonotonicInput
            } else if !covered {
                r == Err::<SyncRun, Error>(Error::CoverageViolation)
            } else {
                match r {
                    Ok(out) => spec_synchronize(poses, points@) == Ok::<
                        Seq<CorrectedPoint>,
                        Error,
                    >(out.corrected@) && out.corrected@.len() + out.skipped == points@.len(),
                    Err(e) => spec_synchronize(poses, points@) == Err::<
                        Seq<CorrectedPoint>,
                        Error,
                    >(e),
                }
            }
        }),
{
    let mut sync = match Synchronizer::new(trajectories) {
        Ok(s) => s,
        Err(e) => {
            return Err(e);
        },
    };
    if points.len() > 0 {
        let check = crate::check_timestamps::CheckTimestamps::new(
            sync.trajectories[0],
            sync.trajectories[sync.trajectories.len() - 1],
            points[0],
            points[points.len() - 1],
        );
        match check.validate_timestamp_range() {
            Ok(()) => (),
            Err(e) => {
                return Err(e);
            },
        }
    }
    sync.run(points)
}

/// The synchronization pass is a function of its inputs alone: two passes
/// over equal pose series and equal point streams yield equal corrected
/// records, so (with the writer's fixed layout) running the pipeline
/// twice on the same well-formed inputs produces byte-identical output.
pub proof fn lemma_run_deterministic(
    poses1: Seq<Trajectory>,
    points1: Seq<Point>,
    poses2: Seq<Trajectory>,
    points2: Seq<Point>,
)
    requires
        poses1 == poses2,
        points1 == points2,
    ensures
        spec_synchronize(poses1, points1) == spec_synchronize(poses2, points2),
{
}

} // verus!
