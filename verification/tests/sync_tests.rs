use plysync::check_timestamps::CheckTimestamps;
use plysync::errors::Error;
use plysync::interp::interpolate;
use plysync::sync::{run_pipeline, Point, SyncOutcome, Synchronizer};
use plysync::traj::{validate_trajectory_order, Trajectory};

fn traj(time: i64, x: i64, y: i64, z: i64) -> Trajectory {
    Trajectory { time, x, y, z, qw: 0, qx: 0, qy: 0, qz: 0 }
}

fn point(time: i64, x: i64, y: i64, z: i64) -> Point {
    Point { time, x, y, z, intensity: 0, ring: 0, return_num: 0, range: 0 }
}

#[test]
fn midpoint_interpolation_with_delta() {
    // pose series [(0,0,0,0), (10,100,0,0)], one point at time=5, x=40:
    // reference x is 50, correction delta x is 10
    let trajectories = vec![traj(0, 0, 0, 0), traj(10, 100, 0, 0)];
    let mut sync = Synchronizer::new(trajectories).unwrap();
    let points = vec![point(5, 40, 0, 0)];
    let run = sync.run(&points).unwrap();
    assert_eq!(run.skipped, 0);
    assert_eq!(run.corrected.len(), 1);
    let c = run.corrected[0];
    assert_eq!(c.x, 50);
    assert_eq!(c.y, 0);
    assert_eq!(c.z, 0);
    assert_eq!(c.nx, 10);
    assert_eq!(c.ny, 0);
    assert_eq!(c.nz, 0);
    assert_eq!(c.time, 5);
}

#[test]
fn exact_match_uses_first_pose() {
    // a point at exactly pose[0].time gets pose[0]'s position without
    // any division
    let trajectories = vec![traj(0, 7, 8, 9), traj(10, 100, 200, 300)];
    let mut sync = Synchronizer::new(trajectories).unwrap();
    let points = vec![point(0, 1, 2, 3)];
    let run = sync.run(&points).unwrap();
    assert_eq!(run.corrected.len(), 1);
    let c = run.corrected[0];
    assert_eq!((c.x, c.y, c.z), (7, 8, 9));
    assert_eq!((c.nx, c.ny, c.nz), (6, 6, 6));
}

#[test]
fn exact_match_uses_second_pose() {
    let trajectories = vec![traj(0, 7, 8, 9), traj(10, 100, 200, 300)];
    let mut sync = Synchronizer::new(trajectories).unwrap();
    let points = vec![point(10, 1, 2, 3)];
    let run = sync.run(&points).unwrap();
    assert_eq!(run.corrected.len(), 1);
    let c = run.corrected[0];
    assert_eq!((c.x, c.y, c.z), (100, 200, 300));
}

#[test]
fn degenerate_pose_interval_is_reported() {
    // duplicate pose timestamps make the interpolation fraction
    // undefined: interpolation must refuse, not produce a garbage value
    let t1 = traj(5, 0, 0, 0);
    let t2 = traj(5, 10, 0, 0);
    let r = interpolate(&t1, &t2, 5);
    assert_eq!(r, Err(Error::DegeneratePoseInterval));
}

#[test]
fn degenerate_interval_with_exact_match_takes_shortcut() {
    // through the engine, a point whose timestamp equals both ends of a
    // degenerate bracket matches pose[0] exactly and needs no division
    let trajectories = vec![traj(5, 0, 0, 0), traj(5, 10, 0, 0)];
    let mut sync = Synchronizer::new(trajectories).unwrap();
    let points = vec![point(5, 0, 0, 0)];
    let run = sync.run(&points).unwrap();
    assert_eq!(run.corrected.len(), 1);
    assert_eq!(run.corrected[0].x, 0);
}

#[test]
fn window_advances_across_poses() {
    let trajectories = vec![
        traj(0, 0, 0, 0),
        traj(10, 100, 0, 0),
        traj(20, 200, 0, 0),
        traj(30, 400, 0, 0),
    ];
    let mut sync = Synchronizer::new(trajectories).unwrap();
    let points = vec![point(5, 0, 0, 0), point(15, 0, 0, 0), point(25, 0, 0, 0)];
    let run = sync.run(&points).unwrap();
    assert_eq!(run.corrected.len(), 3);
    assert_eq!(run.corrected[0].x, 50);
    assert_eq!(run.corrected[1].x, 150);
    assert_eq!(run.corrected[2].x, 300);
}

#[test]
fn out_of_coverage_points_are_skipped_and_counted() {
    let trajectories = vec![traj(0, 0, 0, 0), traj(10, 100, 0, 0)];
    let mut sync = Synchronizer::new(trajectories).unwrap();
    let points = vec![point(5, 0, 0, 0), point(11, 0, 0, 0), point(12, 0, 0, 0)];
    let run = sync.run(&points).unwrap();
    assert_eq!(run.corrected.len(), 1);
    assert_eq!(run.skipped, 2);
}

#[test]
fn non_monotonic_points_abort_with_index() {
    let trajectories = vec![traj(0, 0, 0, 0), traj(10, 100, 0, 0)];
    let mut sync = Synchronizer::new(trajectories).unwrap();
    let points = vec![point(5, 0, 0, 0), point(4, 0, 0, 0)];
    let r = sync.run(&points);
    assert_eq!(r.err(), Some(Error::NonMonotonicInput(1)));
}

#[test]
fn point_before_pose_span_is_coverage_violation() {
    let trajectories = vec![traj(10, 0, 0, 0), traj(20, 100, 0, 0)];
    let mut sync = Synchronizer::new(trajectories).unwrap();
    let points = vec![point(5, 0, 0, 0)];
    let r = sync.run(&points);
    assert_eq!(r.err(), Some(Error::CoverageViolation));
}

#[test]
fn non_monotonic_pose_series_is_rejected() {
    let trajectories = vec![traj(0, 0, 0, 0), traj(10, 0, 0, 0), traj(7, 0, 0, 0)];
    assert_eq!(
        validate_trajectory_order(&trajectories),
        Err(Error::NonMonotonicInput(2))
    );
    let r = Synchronizer::new(trajectories);
    assert!(matches!(r, Err(Error::NonMonotonicInput(2))));
}

#[test]
fn process_reports_outcomes_one_by_one() {
    let trajectories = vec![traj(0, 0, 0, 0), traj(10, 100, 0, 0)];
    let mut sync = Synchronizer::new(trajectories).unwrap();
    let a = sync.process(&point(2, 0, 0, 0), 0).unwrap();
    match a {
        SyncOutcome::Corrected(c) => assert_eq!(c.x, 20),
        SyncOutcome::OutOfCoverage => panic!("point 2 is inside the bracket"),
    }
    let b = sync.process(&point(11, 0, 0, 0), 1).unwrap();
    assert!(matches!(b, SyncOutcome::OutOfCoverage));
}

#[test]
fn covered_time_range_passes_validation() {
    let check = CheckTimestamps::new(
        traj(0, 0, 0, 0),
        traj(100, 0, 0, 0),
        point(3, 0, 0, 0),
        point(97, 0, 0, 0),
    );
    assert_eq!(check.validate_timestamp_range(), Ok(()));
}

#[test]
fn uncovered_time_range_aborts_before_any_output() {
    // pose span [5, 90] does not cover point span [3, 97]
    let check = CheckTimestamps::new(
        traj(5, 0, 0, 0),
        traj(90, 0, 0, 0),
        point(3, 0, 0, 0),
        point(97, 0, 0, 0),
    );
    assert_eq!(
        check.validate_timestamp_range(),
        Err(Error::CoverageViolation)
    );
}

#[test]
fn pipeline_aborts_on_uncovered_span_without_output() {
    // last point lies past the last pose: fatal before any record is made
    let trajectories = vec![traj(0, 0, 0, 0), traj(10, 100, 0, 0)];
    let points = vec![point(5, 0, 0, 0), point(11, 0, 0, 0)];
    let r = run_pipeline(trajectories, &points);
    assert_eq!(r.err(), Some(Error::CoverageViolation));
}

#[test]
fn pipeline_corrects_covered_points() {
    let trajectories = vec![traj(0, 0, 0, 0), traj(10, 100, 0, 0)];
    let points = vec![point(5, 40, 0, 0), point(10, 0, 0, 0)];
    let run = run_pipeline(trajectories, &points).unwrap();
    assert_eq!(run.skipped, 0);
    assert_eq!(run.corrected.len(), 2);
    assert_eq!(run.corrected[0].nx, 10);
    assert_eq!(run.corrected[1].x, 100);
}

#[test]
fn interpolation_hits_bracket_ends_exactly() {
    let t1 = traj(3, -40, 12, 0);
    let t2 = traj(11, 40, -20, 64);
    let at_start = interpolate(&t1, &t2, 3).unwrap();
    assert_eq!(at_start, (-40, 12, 0));
    let at_end = interpolate(&t1, &t2, 11).unwrap();
    assert_eq!(at_end, (40, -20, 64));
    let at_mid = interpolate(&t1, &t2, 7).unwrap();
    assert_eq!(at_mid, (0, -4, 32));
}
