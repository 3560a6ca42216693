use vstd::prelude::*;
use vstd::bytes::{
    lemma_auto_spec_u32_to_from_le_bytes, lemma_auto_spec_u64_to_from_le_bytes,
    spec_u32_from_le_bytes, spec_u32_to_le_bytes, spec_u64_from_le_bytes, spec_u64_to_le_bytes,
    u32_from_le_bytes, u32_to_le_bytes, u64_from_le_bytes, u64_to_le_bytes,
};
use vstd::slice::slice_subrange;

verus! {

/// Size in bytes of one corrected output record: seven `f64` fields, one
/// `f32`, two `u8`, one `f32`, packed little-endian with no padding.
pub const WRITE_RECORD_SIZE: usize = 66;

/// One corrected record as serialized to the output file.
///
/// As with the input records, `f64` and `f32` fields are carried as their
/// raw IEEE-754 bit patterns; the writer lays them out byte for byte.
#[derive(Clone, Copy, Debug, PartialEq, Eq, Structural)]
pub struct WriteVertex {
    /// Corrected position, `f64` bit pattern.
    pub x: u64,
    /// Corrected position, `f64` bit pattern.
    pub y: u64,
    /// Corrected position, `f64` bit pattern.
    pub z: u64,
    /// The point's own timestamp, `f64` bit pattern.
    pub time: u64,
    /// Correction-delta (or normal) slot, `f64` bit pattern.
    pub nx: u64,
    /// Correction-delta (or normal) slot, `f64` bit pattern.
    pub ny: u64,
    /// Correction-delta (or normal) slot, `f64` bit pattern.
    pub nz: u64,
    /// Return intensity, `f32` bit pattern.
    pub intensity: u32,
    /// Sensor channel / ring id.
    pub ring: u8,
    /// Multi-return index.
    pub return_num: u8,
    /// Raw range measurement, `f32` bit pattern.
    pub range: u32,
}

/// The fixed little-endian layout of one corrected record.
pub open spec fn spec_write_vertex_bytes(v: WriteVertex) -> Seq<u8> {
    spec_u64_to_le_bytes(v.x) + spec_u64_to_le_bytes(v.y) + spec_u64_to_le_bytes(v.z)
        + spec_u64_to_le_bytes(v.time) + spec_u64_to_le_bytes(v.nx) + spec_u64_to_le_bytes(v.ny)
        + spec_u64_to_le_bytes(v.nz) + spec_u32_to_le_bytes(v.intensity) + seq![
        v.ring,
        v.return_num,
    ] + spec_u32_to_le_bytes(v.range)
}

/// The corrected record decoded from the 66 bytes of `s` starting at
/// `pos`.
pub open spec fn spec_write_vertex_at(s: Seq<u8>, pos: int) -> WriteVertex
    recommends
        0 <= pos,
        pos + WRITE_RECORD_SIZE <= s.len(),
{
    WriteVertex {
        x: spec_u64_from_le_bytes(s.subrange(pos, pos + 8)),
        y: spec_u64_from_le_bytes(s.subrange(pos + 8, pos + 16)),
        z: spec_u64_from_le_bytes(s.subrange(pos + 16, pos + 24)),
        time: spec_u64_from_le_bytes(s.subrange(pos + 24, pos + 32)),
        nx: spec_u64_from_le_bytes(s.subrange(pos + 32, pos + 40)),
        ny: spec_u64_from_le_bytes(s.subrange(pos + 40, pos + 48)),
        nz: spec_u64_from_le_bytes(s.subrange(pos + 48, pos + 56)),
        intensity: spec_u32_from_le_bytes(s.subrange(pos + 56, pos + 60)),
        ring: s[pos + 60],
        return_num: s[pos + 61],
        range: spec_u32_from_le_bytes(s.subrange(pos + 62, pos + 66)),
    }
}

impl WriteVertex {
    /// Appends this record to `writer` in the fixed little-endian layout.
    pub fn write_vertex(&self, writer: &mut Vec<u8>) -> (n: usize)
        requires
            old(writer)@.len() + WRITE_RECORD_SIZE <= usize::MAX,
        ensures
            final(writer)@ == old(writer)@ + spec_write_vertex_bytes(*self),
            n == WRITE_RECORD_SIZE,
    {
        proof {
            lemma_auto_spec_u64_to_from_le_bytes();
            lemma_auto_spec_u32_to_from_le_bytes();
        }
        let bx = u64_to_le_bytes(self.x);
        writer.extend_from_slice(bx.as_slice());
        let by = u64_to_le_bytes(self.y);
        writer.extend_from_slice(by.as_slice());
        let bz = u64_to_le_bytes(self.z);
        writer.extend_from_slice(bz.as_slice());
        let bt = u64_to_le_bytes(self.time);
        writer.extend_from_slice(bt.as_slice());
        let bnx = u64_to_le_bytes(self.nx);
        writer.extend_from_slice(bnx.as_slice());
        let bny = u64_to_le_bytes(self.ny);
        writer.extend_from_slice(bny.as_slice());
        let bnz = u64_to_le_bytes(self.nz);
        writer.extend_from_slice(bnz.as_slice());
        let bi = u32_to_le_bytes(self.intensity);
        writer.extend_from_slice(bi.as_slice());
        writer.push(self.ring);
        writer.push(self.return_num);
        let br = u32_to_le_bytes(self.range);
        writer.extend_from_slice(br.as_slice());
        proof {
            assert(writer@ =~= old(writer)@ + spec_write_vertex_bytes(*self));
        }
        WRITE_RECORD_SIZE
    }

    /// Decodes a single corrected record from `data` at byte position
    /// `pos`; `None` means fewer than [`WRITE_RECORD_SIZE`] bytes remain.
    pub fn read_from(data: &[u8], pos: usize) -> (r: Option<WriteVertex>)
        ensures
            r is Some <==> pos + WRITE_RECORD_SIZE <= data@.len(),
            r matches Some(v) ==> v == spec_write_vertex_at(data@, pos as int),
    {
        if pos >= data.len() || data.len() - pos < WRITE_RECORD_SIZE {
            return None;
        }
        let x = u64_from_le_bytes(slice_subrange(data, pos, pos + 8));
        let y = u64_from_le_bytes(slice_subrange(data, pos + 8, pos + 16));
        let z = u64_from_le_bytes(slice_subrange(data, pos + 16, pos + 24));
        let time = u64_from_le_bytes(slice_subrange(data, pos + 24, pos + 32));
        let nx = u64_from_le_bytes(slice_subrange(data, pos + 32, pos + 40));
        let ny = u64_from_le_bytes(slice_subrange(data, pos + 40, pos + 48));
        let nz = u64_from_le_bytes(slice_subrange(data, pos + 48, pos + 56));
        let intensity = u32_from_le_bytes(slice_subrange(data, pos + 56, pos + 60));
        let ring = data[pos + 60];
        let return_num = data[pos + 61];
        let range = u32_from_le_bytes(slice_subrange(data, pos + 62, pos + 66));
        Some(WriteVertex { x, y, z, time, nx, ny, nz, intensity, ring, return_num, range })
    }
}

/// The serialized form of a whole sequence of corrected records, in
/// encounter order.
pub open spec fn spec_write_all(rs: Seq<WriteVertex>) -> Seq<u8>
    decreases rs.len(),
{
    if rs.len() == 0 {
        Seq::empty()
    } else {
        spec_write_vertex_bytes(rs[0]) + spec_write_all(rs.drop_first())
    }
}

/// Serializes a sequence of corrected records to a byte sink, in
/// encounter order, in the fixed little-endian layout.
pub fn write_vertices(records: &Vec<WriteVertex>) -> (out: Vec<u8>)
    requires
        records@.len() * WRITE_RECORD_SIZE <= usize::MAX,
    ensures
        out@ == spec_write_all(records@),
{
    let mut out: Vec<u8> = Vec::new();
    let mut i: usize = 0;
    proof {
        assert(records@.skip(0) =~= records@);
    }
    while i < records.len()
        invariant
            i <= records@.len(),
            records@.len() * WRITE_RECORD_SIZE <= usize::MAX,
            out@.len() == i * WRITE_RECORD_SIZE,
            spec_write_all(records@) == out@ + spec_write_all(records@.skip(i as int)),
        decreases records@.len() - i,
    {
        proof {
            lemma_write_record_bound(records@.len() as int, i as int);
            assert(records@.skip(i as int)[0] == records@[i as int]);
            assert(records@.skip(i as int).drop_first() =~= records@.skip(i as int + 1));
        }
        let ghost out_before = out@;
        let v = records[i];
        v.write_vertex(&mut out);
        proof {
            lemma_write_vertex_roundtrip(records@[i as int]);
            assert(out_before + (spec_write_vertex_bytes(records@[i as int]) + spec_write_all(
                records@.skip(i as int + 1),
            )) =~= out@ + spec_write_all(records@.skip(i as int + 1)));
        }
        i += 1;
    }
    proof {
        assert(records@.skip(records@.len() as int) =~= Seq::<WriteVertex>::empty());
        assert(out@ =~= spec_write_all(records@));
    }
    out
}

/// `i < n` and `n * sz` in range keep `(i + 1) * sz` in range.
proof fn lemma_write_record_bound(n: int, i: int)
    requires
        0 <= i < n,
        n * WRITE_RECORD_SIZE <= usize::MAX,
    ensures
        (i + 1) * WRITE_RECORD_SIZE <= usize::MAX,
        i * WRITE_RECORD_SIZE + WRITE_RECORD_SIZE == (i + 1) * WRITE_RECORD_SIZE,
{
    assert((i + 1) * WRITE_RECORD_SIZE <= n * WRITE_RECORD_SIZE) by (nonlinear_arith)
        requires
            0 <= i < n,
    ;
}

/// Encoding a corrected record and decoding it back with the same layout
/// yields the original field values exactly.
pub proof fn lemma_write_vertex_roundtrip(v: WriteVertex)
    ensures
        spec_write_vertex_bytes(v).len() == WRITE_RECORD_SIZE,
        spec_write_vertex_at(spec_write_vertex_bytes(v), 0) == v,
{
    lemma_auto_spec_u64_to_from_le_bytes();
    lemma_auto_spec_u32_to_from_le_bytes();
    let s = spec_write_vertex_bytes(v);
    assert(s.subrange(0, 8) =~= spec_u64_to_le_bytes(v.x));
    assert(s.subrange(8, 16) =~= spec_u64_to_le_bytes(v.y));
    assert(s.subrange(16, 24) =~= spec_u64_to_le_bytes(v.z));
    assert(s.subrange(24, 32) =~= spec_u64_to_le_bytes(v.time));
    assert(s.subrange(32, 40) =~= spec_u64_to_le_bytes(v.nx));
    assert(s.subrange(40, 48) =~= spec_u64_to_le_bytes(v.ny));
    assert(s.subrange(48, 56) =~= spec_u64_to_le_bytes(v.nz));
    assert(s.subrange(56, 60) =~= spec_u32_to_le_bytes(v.intensity));
    assert(s[60] == v.ring);
    assert(s[61] == v.return_num);
    assert(s.subrange(62, 66) =~= spec_u32_to_le_bytes(v.range));
}

/// Decoding any 66 record bytes and re-encoding them yields the same
/// bytes: the layout wastes no bit and the round trip is exact both ways.
pub proof fn lemma_write_vertex_roundtrip_bytes(s: Seq<u8>)
    requires
        s.len() == WRITE_RECORD_SIZE,
    ensures
        spec_write_vertex_bytes(spec_write_vertex_at(s, 0)) == s,
{
    lemma_auto_spec_u64_to_from_le_bytes();
    lemma_auto_spec_u32_to_from_le_bytes();
    assert(spec_write_vertex_bytes(spec_write_vertex_at(s, 0)) =~= s);
}

} // verus!
