use vstd::prelude::*;
use vstd::bytes::{
    spec_u32_from_le_bytes, spec_u64_from_le_bytes, u32_from_le_bytes, u64_from_le_bytes,
};
use vstd::slice::slice_subrange;

use crate::errors::Error;

verus! {

/// Size in bytes of one point record: four `f64` fields, one `f32`, two
/// `u8`, one `f32`, packed little-endian with no padding.
pub const VERTEX_RECORD_SIZE: usize = 42;

/// One point record as stored in the file.
///
/// The engine never does floating-point arithmetic on these fields; the
/// `f64` and `f32` fields of the record are carried as their raw IEEE-754
/// bit patterns, exactly as they sit in the file.
#[derive(Clone, Copy, Debug, PartialEq, Eq, Structural)]
pub struct Vertex {
    /// Platform clock timestamp, `f64` bit pattern.
    pub time: u64,
    /// Raw sensor-frame coordinate, `f64` bit pattern.
    pub x: u64,
    /// Raw sensor-frame coordinate, `f64` bit pattern.
    pub y: u64,
    /// Raw sensor-frame coordinate, `f64` bit pattern.
    pub z: u64,
    /// Return intensity, `f32` bit pattern.
    pub intensity: u32,
    /// Sensor channel / ring id.
    pub ring: u8,
    /// Multi-return index.
    pub return_num: u8,
    /// Raw range measurement, `f32` bit pattern.
    pub range: u32,
}

/// The record decoded from the 42 bytes of `s` starting at `pos`.
pub open spec fn spec_vertex_at(s: Seq<u8>, pos: int) -> Vertex
    recommends
        0 <= pos,
        pos + VERTEX_RECORD_SIZE <= s.len(),
{
    Vertex {
        time: spec_u64_from_le_bytes(s.subrange(pos, pos + 8)),
        x: spec_u64_from_le_bytes(s.subrange(pos + 8, pos + 16)),
        y: spec_u64_from_le_bytes(s.subrange(pos + 16, pos + 24)),
        z: spec_u64_from_le_bytes(s.subrange(pos + 24, pos + 32)),
        intensity: spec_u32_from_le_bytes(s.subrange(pos + 32, pos + 36)),
        ring: s[pos + 36],
        return_num: s[pos + 37],
        range: spec_u32_from_le_bytes(s.subrange(pos + 38, pos + 42)),
    }
}

impl Vertex {
    /// Decodes a single record from `data` at byte position `pos`.
    ///
    /// `None` means fewer than [`VERTEX_RECORD_SIZE`] bytes remain there;
    /// the caller decides whether that is a clean end of stream or a
    /// truncated record.
    pub fn read_from(data: &[u8], pos: usize) -> (r: Option<Vertex>)
        ensures
            r is Some <==> pos + VERTEX_RECORD_SIZE <= data@.len(),
            r matches Some(v) ==> v == spec_vertex_at(data@, pos as int),
    {
        if pos >= data.len() || data.len() - pos < VERTEX_RECORD_SIZE {
            return None;
        }
        let time = u64_from_le_bytes(slice_subrange(data, pos, pos + 8));
        let x = u64_from_le_bytes(slice_subrange(data, pos + 8, pos + 16));
        let y = u64_from_le_bytes(slice_subrange(data, pos + 16, pos + 24));
        let z = u64_from_le_bytes(slice_subrange(data, pos + 24, pos + 32));
        let intensity = u32_from_le_bytes(slice_subrange(data, pos + 32, pos + 36));
        let ring = data[pos + 36];
        let return_num = data[pos + 37];
        let range = u32_from_le_bytes(slice_subrange(data, pos + 38, pos + 42));
        Some(Vertex { time, x, y, z, intensity, ring, return_num, range })
    }
}

/// Decodes consecutive records from `data`, starting at `offset`, until
/// the end of the buffer: the sequential full scan of the point file.
///
/// Running out of input exactly at a record boundary is a clean end of
/// stream; any other leftover is a fatal `TruncatedRecord` carrying the
/// index of the record that could not be completed.
pub fn decode_vertices(data: &[u8], offset: usize) -> (r: Result<Vec<Vertex>, Error>)
    requires
        offset <= data@.len(),
    ensures
        r is Ok <==> (data@.len() - offset) % (VERTEX_RECORD_SIZE as int) == 0,
        r matches Ok(vs) ==> {
            &&& vs@.len() == (data@.len() - offset) / (VERTEX_RECORD_SIZE as int)
            &&& forall|k: int|
                0 <= k < vs@.len() ==> vs@[k] == spec_vertex_at(
                    data@,
                    offset + k * VERTEX_RECORD_SIZE,
                )
        },
        r is Err ==> r == Err::<Vec<Vertex>, Error>(
            Error::TruncatedRecord(((data@.len() - offset) / (VERTEX_RECORD_SIZE as int)) as usize),
        ),
{
    let len: usize = data.len();
    let mut vs: Vec<Vertex> = Vec::new();
    let mut pos: usize = offset;
    loop
        invariant
            len == data@.len(),
            offset <= pos <= len,
            (pos - offset) % (VERTEX_RECORD_SIZE as int) == 0,
            vs@.len() == (pos - offset) / (VERTEX_RECORD_SIZE as int),
            forall|k: int|
                0 <= k < vs@.len() ==> vs@[k] == spec_vertex_at(data@, offset + k * VERTEX_RECORD_SIZE),
        ensures
            len == data@.len(),
            offset <= pos <= len,
            len - pos < VERTEX_RECORD_SIZE,
            (pos - offset) % (VERTEX_RECORD_SIZE as int) == 0,
            vs@.len() == (pos - offset) / (VERTEX_RECORD_SIZE as int),
            forall|k: int|
                0 <= k < vs@.len() ==> vs@[k] == spec_vertex_at(data@, offset + k * VERTEX_RECORD_SIZE),
        decreases len - pos,
    {
        match Vertex::read_from(data, pos) {
            Some(v) => {
                vs.push(v);
                pos = pos + VERTEX_RECORD_SIZE;
            },
            None => {
                break ;
            },
        }
    }
    proof {
        lemma_div_of_remainder(len as int, pos as int, offset as int);
    }
    if pos == len {
        Ok(vs)
    } else {
        Err(Error::TruncatedRecord(vs.len()))
    }
}

/// When `pos - offset` is a whole number of records and less than one
/// record remains up to `len`, the record counts at `pos` and at `len`
/// agree, and divisibility of `len - offset` means `pos` reached `len`.
proof fn lemma_div_of_remainder(len: int, pos: int, offset: int)
    requires
        offset <= pos <= len,
        len - pos < VERTEX_RECORD_SIZE,
        (pos - offset) % (VERTEX_RECORD_SIZE as int) == 0,
    ensures
        (len - offset) / (VERTEX_RECORD_SIZE as int) == (pos - offset) / (
        VERTEX_RECORD_SIZE as int),
        ((len - offset) % (VERTEX_RECORD_SIZE as int) == 0) <==> pos == len,
{
    let sz = VERTEX_RECORD_SIZE as int;
    vstd::arithmetic::div_mod::lemma_fundamental_div_mod(pos - offset, sz);
    vstd::arithmetic::div_mod::lemma_fundamental_div_mod_converse(
        len - offset,
        sz,
        (pos - offset) / sz,
        len - pos,
    );
}

/// Decodes exactly `n` consecutive records from `data` at byte position
/// `pos`: the bounded head or tail read. Fewer bytes than `n` records is a
/// `TruncatedRecord` carrying the index of the first record that could not
/// be completed.
pub fn decode_vertices_at(data: &[u8], pos: usize, n: usize) -> (r: Result<Vec<Vertex>, Error>)
    ensures
        r is Ok <==> n == 0 || pos + n * VERTEX_RECORD_SIZE <= data@.len(),
        r matches Ok(vs) ==> {
            &&& vs@.len() == n
            &&& forall|k: int|
                0 <= k < n ==> vs@[k] == spec_vertex_at(data@, pos + k * VERTEX_RECORD_SIZE)
        },
        r is Err ==> r == Err::<Vec<Vertex>, Error>(
            Error::TruncatedRecord(
                (if data@.len() < pos {
                    0int
                } else {
                    (data@.len() - pos) / (VERTEX_RECORD_SIZE as int)
                }) as usize,
            ),
        ),
{
    let len: usize = data.len();
    let mut vs: Vec<Vertex> = Vec::new();
    let mut k: usize = 0;
    let mut cur: usize = pos;
    while k < n
        invariant
            len == data@.len(),
            k <= n,
            vs@.len() == k,
            cur as int == pos + k * VERTEX_RECORD_SIZE,
            k > 0 ==> cur <= len,
            forall|j: int|
                0 <= j < k ==> vs@[j] == spec_vertex_at(data@, pos + j * VERTEX_RECORD_SIZE),
        decreases n - k,
    {
        match Vertex::read_from(data, cur) {
            Some(v) => {
                vs.push(v);
                cur = cur + VERTEX_RECORD_SIZE;
                k = k + 1;
            },
            None => {
                proof {
                    lemma_truncation_index(len as int, pos as int, k as int);
                }
                return Err(
                    Error::TruncatedRecord(
                        if len < pos {
                            0
                        } else {
                            (len - pos) / VERTEX_RECORD_SIZE
                        },
                    ),
                );
            },
        }
    }
    Ok(vs)
}

/// When `k` whole records fit between `pos` and `len` but the next does
/// not, `k` is exactly the number of complete records in that span.
proof fn lemma_truncation_index(len: int, pos: int, k: int)
    requires
        0 <= k,
        0 <= pos,
        k > 0 ==> pos + k * VERTEX_RECORD_SIZE <= len,
        pos + k * VERTEX_RECORD_SIZE + VERTEX_RECORD_SIZE > len,
    ensures
        pos <= len ==> (len - pos) / (VERTEX_RECORD_SIZE as int) == k,
{
    let sz = VERTEX_RECORD_SIZE as int;
    if pos <= len && k * sz <= len - pos {
        vstd::arithmetic::div_mod::lemma_fundamental_div_mod_converse(
            len - pos,
            sz,
            k,
            len - pos - k * sz,
        );
    } else if pos <= len {
        vstd::arithmetic::div_mod::lemma_fundamental_div_mod_converse(len - pos, sz, 0, len - pos);
        assert(k == 0);
    }
}

/// How many records a bounded head read returns: `count`, clamped to the
/// declared total.
pub fn head_read_count(count: usize, vertex_count: usize) -> (r: usize)
    ensures
        r == vstd::math::min(count as int, vertex_count as int),
{
    if count < vertex_count {
        count
    } else {
        vertex_count
    }
}

/// Byte position where a bounded tail read of `count` records begins:
/// `header_size + (total - min(count, total)) * record size`. `None` means
/// the position does not fit in a `u64`, which also means the declared
/// count cannot match any real file.
pub fn tail_seek_position(header_size: u64, vertex_count: u64, count: u64) -> (r: Option<u64>)
    ensures
        ({
            let k = vstd::math::min(count as int, vertex_count as int);
            let p = header_size + (vertex_count - k) * (VERTEX_RECORD_SIZE as int);
            &&& r is Some <==> p <= u64::MAX
            &&& r matches Some(q) ==> q == p
        }),
{
    let k: u64 = if count < vertex_count {
        count
    } else {
        vertex_count
    };
    let skipped: u128 = ((vertex_count as u128) - (k as u128)) * (VERTEX_RECORD_SIZE as u128);
    let pos: u128 = (header_size as u128) + skipped;
    if pos <= u64::MAX as u128 {
        Some(pos as u64)
    } else {
        None
    }
}

/// Consistency check between the header's declared record count and the
/// real file length: the binary section must hold exactly the declared
/// records. A mismatch does not stop a run but must be surfaced.
pub fn counts_consistent(header_size: u64, vertex_count: u64, file_len: u64) -> (r: bool)
    ensures
        r == (header_size + vertex_count * (VERTEX_RECORD_SIZE as int) == file_len),
{
    proof {
        assert((vertex_count as int) * (VERTEX_RECORD_SIZE as int) <= 0xffff_ffff_ffff_ffff * 42)
            by (nonlinear_arith)
            requires
                0 <= vertex_count as int <= 0xffff_ffff_ffff_ffff,
                VERTEX_RECORD_SIZE == 42,
        ;
    }
    let expected: u128 = (header_size as u128) + (vertex_count as u128) * (
    VERTEX_RECORD_SIZE as u128);
    expected == file_len as u128
}

} // verus!
