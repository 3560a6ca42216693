use plysync::errors::Error;
use plysync::ply::read::{
    counts_consistent, decode_vertices, decode_vertices_at, head_read_count, tail_seek_position,
    Vertex, VERTEX_RECORD_SIZE,
};
use plysync::ply::write::{write_vertices, WriteVertex, WRITE_RECORD_SIZE};

fn vertex_bytes(time: f64, x: f64, y: f64, z: f64, intensity: f32, ring: u8, return_num: u8, range: f32) -> Vec<u8> {
    let mut b = Vec::new();
    b.extend_from_slice(&time.to_bits().to_le_bytes());
    b.extend_from_slice(&x.to_bits().to_le_bytes());
    b.extend_from_slice(&y.to_bits().to_le_bytes());
    b.extend_from_slice(&z.to_bits().to_le_bytes());
    b.extend_from_slice(&intensity.to_bits().to_le_bytes());
    b.push(ring);
    b.push(return_num);
    b.extend_from_slice(&range.to_bits().to_le_bytes());
    b
}

#[test]
fn vertex_record_is_42_bytes() {
    let b = vertex_bytes(1.0, 2.0, 3.0, 4.0, 0.5, 7, 1, 9.25);
    assert_eq!(b.len(), VERTEX_RECORD_SIZE);
}

#[test]
fn decode_single_vertex() {
    let b = vertex_bytes(1.5, -2.0, 3.25, 4.0, 0.5, 7, 1, 9.25);
    let v = Vertex::read_from(&b, 0).unwrap();
    assert_eq!(v.time, 1.5f64.to_bits());
    assert_eq!(v.x, (-2.0f64).to_bits());
    assert_eq!(v.y, 3.25f64.to_bits());
    assert_eq!(v.z, 4.0f64.to_bits());
    assert_eq!(v.intensity, 0.5f32.to_bits());
    assert_eq!(v.ring, 7);
    assert_eq!(v.return_num, 1);
    assert_eq!(v.range, 9.25f32.to_bits());
}

#[test]
fn decode_short_buffer_is_none() {
    let b = vertex_bytes(1.0, 2.0, 3.0, 4.0, 0.5, 7, 1, 9.25);
    assert!(Vertex::read_from(&b, 1).is_none());
    assert!(Vertex::read_from(&b[..41], 0).is_none());
}

#[test]
fn full_scan_decodes_all_records() {
    let mut data = vec![0u8; 5]; // header region
    data.extend_from_slice(&vertex_bytes(1.0, 10.0, 0.0, 0.0, 0.0, 1, 0, 0.0));
    data.extend_from_slice(&vertex_bytes(2.0, 20.0, 0.0, 0.0, 0.0, 2, 0, 0.0));
    let vs = decode_vertices(&data, 5).unwrap();
    assert_eq!(vs.len(), 2);
    assert_eq!(vs[0].time, 1.0f64.to_bits());
    assert_eq!(vs[1].time, 2.0f64.to_bits());
    assert_eq!(vs[1].ring, 2);
}

#[test]
fn leftover_bytes_are_truncated_record() {
    let mut data = Vec::new();
    data.extend_from_slice(&vertex_bytes(1.0, 10.0, 0.0, 0.0, 0.0, 1, 0, 0.0));
    data.push(0xab);
    let r = decode_vertices(&data, 0);
    assert_eq!(r.err(), Some(Error::TruncatedRecord(1)));
}

#[test]
fn empty_tail_is_clean_end_of_stream() {
    let data = vertex_bytes(1.0, 10.0, 0.0, 0.0, 0.0, 1, 0, 0.0);
    let vs = decode_vertices(&data, data.len()).unwrap();
    assert_eq!(vs.len(), 0);
}

#[test]
fn bounded_read_decodes_exactly_n() {
    let mut data = Vec::new();
    for i in 0..3 {
        data.extend_from_slice(&vertex_bytes(i as f64, 0.0, 0.0, 0.0, 0.0, i, 0, 0.0));
    }
    let vs = decode_vertices_at(&data, 0, 2).unwrap();
    assert_eq!(vs.len(), 2);
    assert_eq!(vs[1].ring, 1);
    let r = decode_vertices_at(&data, 0, 4);
    assert_eq!(r.err(), Some(Error::TruncatedRecord(3)));
}

#[test]
fn head_count_is_clamped() {
    assert_eq!(head_read_count(5, 3), 3);
    assert_eq!(head_read_count(2, 3), 2);
}

#[test]
fn tail_seek_matches_formula() {
    // header of 100 bytes, 10 records, last 2 requested:
    // 100 + (10 - 2) * 42 = 436
    assert_eq!(tail_seek_position(100, 10, 2), Some(436));
    // more requested than exist: read from the data offset
    assert_eq!(tail_seek_position(100, 10, 50), Some(100));
    // position overflows a u64
    assert_eq!(tail_seek_position(u64::MAX, u64::MAX, 0), None);
}

#[test]
fn count_consistency_check() {
    assert!(counts_consistent(100, 2, 100 + 2 * 42));
    assert!(!counts_consistent(100, 2, 100 + 2 * 42 + 1));
}

fn sample_write_vertex() -> WriteVertex {
    WriteVertex {
        x: 1.25f64.to_bits(),
        y: (-2.5f64).to_bits(),
        z: 3.0f64.to_bits(),
        time: 4.75f64.to_bits(),
        nx: 0.5f64.to_bits(),
        ny: (-0.25f64).to_bits(),
        nz: 0.0f64.to_bits(),
        intensity: 0.125f32.to_bits(),
        ring: 9,
        return_num: 2,
        range: 17.5f32.to_bits(),
    }
}

#[test]
fn corrected_record_round_trips_exactly() {
    let v = sample_write_vertex();
    let mut buf: Vec<u8> = Vec::new();
    let n = v.write_vertex(&mut buf);
    assert_eq!(n, WRITE_RECORD_SIZE);
    assert_eq!(buf.len(), WRITE_RECORD_SIZE);
    let back = WriteVertex::read_from(&buf, 0).unwrap();
    assert_eq!(back, v);
}

#[test]
fn writer_keeps_encounter_order() {
    let a = sample_write_vertex();
    let mut b = sample_write_vertex();
    b.ring = 1;
    let out = write_vertices(&vec![a, b]);
    assert_eq!(out.len(), 2 * WRITE_RECORD_SIZE);
    assert_eq!(WriteVertex::read_from(&out, 0).unwrap(), a);
    assert_eq!(WriteVertex::read_from(&out, WRITE_RECORD_SIZE).unwrap(), b);
}

#[test]
fn writer_output_is_reproducible() {
    // the serialized output is a function of the records alone: two
    // passes over the same inputs give byte-identical files
    let records = vec![sample_write_vertex(), sample_write_vertex()];
    let first = write_vertices(&records);
    let second = write_vertices(&records);
    assert_eq!(first, second);
}
