//! End-to-end pass over an in-memory point file: header scan, record
//! decode, synchronization, and output encoding, with the float/fixed
//! conversion a caller would do in between.

use plysync::ply::header::read_ply_header;
use plysync::ply::read::{decode_vertices, Vertex};
use plysync::ply::write::{write_vertices, WriteVertex, WRITE_RECORD_SIZE};
use plysync::sync::{run_pipeline, CorrectedPoint, Point};
use plysync::traj::Trajectory;

const SCALE: f64 = 1024.0;

fn fixed(v: f64) -> i64 {
    (v * SCALE).round() as i64
}

fn record(time: f64, x: f64, y: f64, z: f64) -> Vec<u8> {
    let mut b = Vec::new();
    b.extend_from_slice(&time.to_bits().to_le_bytes());
    b.extend_from_slice(&x.to_bits().to_le_bytes());
    b.extend_from_slice(&y.to_bits().to_le_bytes());
    b.extend_from_slice(&z.to_bits().to_le_bytes());
    b.extend_from_slice(&0.25f32.to_bits().to_le_bytes());
    b.push(3);
    b.push(1);
    b.extend_from_slice(&6.5f32.to_bits().to_le_bytes());
    b
}

fn to_point(v: &Vertex) -> Point {
    Point {
        time: fixed(f64::from_bits(v.time)),
        x: fixed(f64::from_bits(v.x)),
        y: fixed(f64::from_bits(v.y)),
        z: fixed(f64::from_bits(v.z)),
        intensity: v.intensity,
        ring: v.ring,
        return_num: v.return_num,
        range: v.range,
    }
}

fn to_write(c: &CorrectedPoint) -> WriteVertex {
    WriteVertex {
        x: (c.x as f64 / SCALE).to_bits(),
        y: (c.y as f64 / SCALE).to_bits(),
        z: (c.z as f64 / SCALE).to_bits(),
        time: (c.time as f64 / SCALE).to_bits(),
        nx: (c.nx as f64 / SCALE).to_bits(),
        ny: (c.ny as f64 / SCALE).to_bits(),
        nz: (c.nz as f64 / SCALE).to_bits(),
        intensity: c.intensity,
        ring: c.ring,
        return_num: c.return_num,
        range: c.range,
    }
}

fn traj(time: f64, x: f64, y: f64, z: f64) -> Trajectory {
    Trajectory {
        time: fixed(time),
        x: fixed(x),
        y: fixed(y),
        z: fixed(z),
        qw: 1.0f64.to_bits(),
        qx: 0,
        qy: 0,
        qz: 0,
    }
}

#[test]
fn full_pass_over_in_memory_file() {
    let header_text = "ply\nformat binary_little_endian 1.0\nelement vertex 2\nproperty float64 time\nend_header\n";
    let mut data = header_text.as_bytes().to_vec();
    data.extend_from_slice(&record(2.0, 1.0, 0.0, 0.0));
    data.extend_from_slice(&record(7.0, 3.0, 0.0, 0.0));

    let (header, offset) = read_ply_header(&data).unwrap();
    assert_eq!(header.vertex_count, 2);
    assert_eq!(offset, header_text.len());

    let vertices = decode_vertices(&data, offset).unwrap();
    assert_eq!(vertices.len(), 2);
    let points: Vec<Point> = vertices.iter().map(to_point).collect();

    let trajectories = vec![traj(0.0, 0.0, 0.0, 0.0), traj(10.0, 100.0, 0.0, 0.0)];
    let run = run_pipeline(trajectories, &points).unwrap();
    assert_eq!(run.skipped, 0);
    assert_eq!(run.corrected.len(), 2);

    // point at t=2 between poses at t=0 and t=10: reference x = 20,
    // correction delta x = 20 - 1 = 19
    assert_eq!(run.corrected[0].x, fixed(20.0));
    assert_eq!(run.corrected[0].nx, fixed(19.0));
    // point at t=7: reference x = 70, delta = 67
    assert_eq!(run.corrected[1].x, fixed(70.0));
    assert_eq!(run.corrected[1].nx, fixed(67.0));
    // payload fields pass through untouched
    assert_eq!(run.corrected[0].ring, 3);
    assert_eq!(run.corrected[0].intensity, 0.25f32.to_bits());

    let records: Vec<WriteVertex> = run.corrected.iter().map(to_write).collect();
    let out = write_vertices(&records);
    assert_eq!(out.len(), 2 * WRITE_RECORD_SIZE);
    let first = WriteVertex::read_from(&out, 0).unwrap();
    assert_eq!(f64::from_bits(first.x), 20.0);
    assert_eq!(f64::from_bits(first.nx), 19.0);
    assert_eq!(f64::from_bits(first.time), 2.0);

    // running the pass again on the same inputs gives identical bytes
    let out_again = write_vertices(&records);
    assert_eq!(out, out_again);
}
