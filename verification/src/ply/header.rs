use vstd::prelude::*;
use vstd::slice::{slice_subrange, slice_to_vec};

use crate::errors::Error;

verus! {

/// Header of the point file: line-oriented ASCII declarations terminated
/// by a literal `end_header` line, immediately followed by the binary
/// records.
#[derive(Clone, Debug, PartialEq, Eq)]
pub struct PlyHeader {
    /// The raw bytes of the format declaration line, trimmed.
    pub format: Vec<u8>,
    /// The record count declared by the vertex element line; zero when the
    /// count was absent or unparseable (callers must check for zero).
    pub vertex_count: usize,
    /// The raw bytes of each property declaration line, trimmed, in
    /// declaration order (diagnostic only).
    pub properties: Vec<Vec<u8>>,
}

/// ASCII whitespace, as trimmed from the ends of a header line.
pub open spec fn is_space(b: u8) -> bool {
    b == 32 || (9 <= b && b <= 13)
}

/// Index of the first line feed at or after `pos`, or `s.len()` if none
/// remains.
pub open spec fn find_newline(s: Seq<u8>, pos: int) -> int
    recommends
        0 <= pos,
    decreases s.len() - pos,
{
    if pos < 0 || pos >= s.len() {
        s.len() as int
    } else if s[pos] == 10 {
        pos
    } else {
        find_newline(s, pos + 1)
    }
}

/// Index of the first non-whitespace byte at or after `pos`, or `s.len()`
/// if none remains.
pub open spec fn skip_spaces(s: Seq<u8>, pos: int) -> int
    recommends
        0 <= pos,
    decreases s.len() - pos,
{
    if pos < 0 || pos >= s.len() {
        s.len() as int
    } else if !is_space(s[pos]) {
        pos
    } else {
        skip_spaces(s, pos + 1)
    }
}

/// `s` with leading and trailing whitespace removed.
pub open spec fn spec_trim(s: Seq<u8>) -> Seq<u8>
    decreases s.len(),
{
    if s.len() > 0 && is_space(s[0]) {
        spec_trim(s.drop_first())
    } else if s.len() > 0 && is_space(s.last()) {
        spec_trim(s.drop_last())
    } else {
        s
    }
}

/// The bytes of the literal `end_header` terminator line.
pub open spec fn end_header_kw() -> Seq<u8> {
    seq![101u8, 110, 100, 95, 104, 101, 97, 100, 101, 114]
}

/// The bytes of the `format` keyword.
pub open spec fn format_kw() -> Seq<u8> {
    seq![102u8, 111, 114, 109, 97, 116]
}

/// The bytes of the `property` keyword.
pub open spec fn property_kw() -> Seq<u8> {
    seq![112u8, 114, 111, 112, 101, 114, 116, 121]
}

/// The bytes of the `element vertex` phrase that introduces the record
/// count.
pub open spec fn element_vertex_kw() -> Seq<u8> {
    seq![101u8, 108, 101, 109, 101, 110, 116, 32, 118, 101, 114, 116, 101, 120]
}

/// `p` is a prefix of `s`.
pub open spec fn has_prefix(s: Seq<u8>, p: Seq<u8>) -> bool {
    p.len() <= s.len() && s.subrange(0, p.len() as int) == p
}

/// The trimmed line declares the vertex element: the `element vertex`
/// phrase followed by whitespace and the record count.
pub open spec fn is_element_vertex_line(line: Seq<u8>) -> bool {
    line.len() > element_vertex_kw().len() && has_prefix(line, element_vertex_kw()) && is_space(
        line[element_vertex_kw().len() as int],
    )
}

/// Numeric value of an ASCII digit; non-digits count as zero (they make
/// [`parse_count`] reject the whole token anyway).
pub open spec fn digit_val(b: u8) -> nat {
    if 48 <= b <= 57 {
        (b - 48) as nat
    } else {
        0
    }
}

/// Every byte is an ASCII decimal digit.
pub open spec fn all_digits(s: Seq<u8>) -> bool {
    forall|i: int| 0 <= i < s.len() ==> 48 <= #[trigger] s[i] <= 57
}

/// Value of a string of decimal digits, most significant first.
pub open spec fn digits_value(s: Seq<u8>) -> nat
    decreases s.len(),
{
    if s.len() == 0 {
        0
    } else {
        digits_value(s.drop_last()) * 10 + digit_val(s.last())
    }
}

/// The declared record count read from a token: its decimal value, or
/// zero when the token is empty, holds a non-digit, or does not fit in a
/// `usize` (unparseable counts are zero rather than fatal; callers must
/// check for zero).
pub open spec fn parse_count(s: Seq<u8>) -> nat {
    if s.len() > 0 && all_digits(s) && digits_value(s) <= usize::MAX {
        digits_value(s)
    } else {
        0
    }
}

/// The record count declared by a vertex element line: the token after
/// the `element vertex` phrase, parsed by [`parse_count`].
pub open spec fn element_vertex_count(line: Seq<u8>) -> nat {
    parse_count(line.subrange(skip_spaces(line, element_vertex_kw().len() as int), line.len() as int))
}

/// One step of the header scan, starting at byte `pos` with `count` the
/// vertex count declared so far: `Some((offset, count))` gives the byte
/// offset just past the `end_header` line's terminator (the start of the
/// binary data) and the declared record count; `None` means the input
/// ended before a terminator line.
pub open spec fn scan_header(s: Seq<u8>, pos: int, count: nat) -> Option<(int, nat)>
    recommends
        0 <= pos <= s.len(),
    decreases s.len() - pos,
        when 0 <= pos <= s.len()
        via scan_header_decreases
{
    if pos >= s.len() {
        None
    } else {
        let nl = find_newline(s, pos);
        let line = spec_trim(s.subrange(pos, nl));
        if line == end_header_kw() {
            Some(
                (
                    if nl + 1 <= s.len() {
                        nl + 1
                    } else {
                        s.len() as int
                    },
                    count,
                ),
            )
        } else if nl >= s.len() {
            None
        } else {
            let next = if is_element_vertex_line(line) {
                element_vertex_count(line)
            } else {
                count
            };
            scan_header(s, nl + 1, next)
        }
    }
}

#[via_fn]
proof fn scan_header_decreases(s: Seq<u8>, pos: int, count: nat) {
    lemma_find_newline_props(s, pos);
}

/// Bounds and characterization of [`find_newline`]: the result stays in
/// `[pos, s.len()]`, points at a line feed when inside the input, and no
/// line feed precedes it.
pub proof fn lemma_find_newline_props(s: Seq<u8>, pos: int)
    requires
        0 <= pos <= s.len(),
    ensures
        pos <= find_newline(s, pos) <= s.len(),
        find_newline(s, pos) < s.len() ==> s[find_newline(s, pos)] == 10,
        forall|i: int| pos <= i < find_newline(s, pos) ==> s[i] != 10,
    decreases s.len() - pos,
{
    if pos < s.len() && s[pos] != 10 {
        lemma_find_newline_props(s, pos + 1);
    }
}

/// Index of the first line feed in `data` at or after `pos`, or the
/// length of `data` if none remains.
fn find_nl(data: &[u8], pos: usize) -> (r: usize)
    requires
        pos <= data@.len(),
    ensures
        r as int == find_newline(data@, pos as int),
        pos <= r <= data@.len(),
{
    let len = data.len();
    let mut i = pos;
    while i < len
        invariant
            pos <= i <= len,
            len == data@.len(),
            find_newline(data@, pos as int) == find_newline(data@, i as int),
        decreases len - i,
    {
        if data[i] == 10 {
            return i;
        }
        i += 1;
    }
    len
}

/// Whether `b` is ASCII whitespace.
fn is_space_b(b: u8) -> (r: bool)
    ensures
        r == is_space(b),
{
    b == 32 || (9 <= b && b <= 13)
}

/// Copies `line` with leading and trailing whitespace removed.
fn trim_bytes(line: &[u8]) -> (t: Vec<u8>)
    ensures
        t@ == spec_trim(line@),
{
    let len = line.len();
    let mut lo: usize = 0;
    proof {
        assert(line@.subrange(0, len as int) =~= line@);
    }
    while lo < len && is_space_b(line[lo])
        invariant
            lo <= len,
            len == line@.len(),
            spec_trim(line@) == spec_trim(line@.subrange(lo as int, len as int)),
        decreases len - lo,
    {
        proof {
            assert(line@.subrange(lo as int, len as int).drop_first() =~= line@.subrange(
                lo as int + 1,
                len as int,
            ));
        }
        lo += 1;
    }
    let mut hi: usize = len;
    while hi > lo && is_space_b(line[hi - 1])
        invariant
            lo <= hi <= len,
            len == line@.len(),
            lo < len ==> !is_space(line@[lo as int]),
            spec_trim(line@) == spec_trim(line@.subrange(lo as int, hi as int)),
        decreases hi,
    {
        proof {
            assert(line@.subrange(lo as int, hi as int).drop_last() =~= line@.subrange(
                lo as int,
                hi as int - 1,
            ));
        }
        hi -= 1;
    }
    slice_to_vec(slice_subrange(line, lo, hi))
}

/// Whether two byte strings are equal.
fn bytes_eq(a: &[u8], b: &[u8]) -> (r: bool)
    ensures
        r <==> a@ == b@,
{
    if a.len() != b.len() {
        proof {
            assert(a@.len() != b@.len());
        }
        return false;
    }
    let len = a.len();
    let mut i: usize = 0;
    while i < len
        invariant
            i <= len,
            len == a@.len() == b@.len(),
            forall|j: int| 0 <= j < i ==> a@[j] == b@[j],
        decreases len - i,
    {
        if a[i] != b[i] {
            return false;
        }
        i += 1;
    }
    proof {
        assert(a@ =~= b@);
    }
    true
}

/// Whether `p` is a prefix of `s`.
fn starts_with_bytes(s: &[u8], p: &[u8]) -> (r: bool)
    ensures
        r == has_prefix(s@, p@),
{
    if p.len() > s.len() {
        return false;
    }
    let r = bytes_eq(slice_subrange(s, 0, p.len()), p);
    r
}

/// The literal `end_header` terminator line.
fn end_header_bytes() -> (v: Vec<u8>)
    ensures
        v@ == end_header_kw(),
{
    let v: Vec<u8> = vec![101u8, 110, 100, 95, 104, 101, 97, 100, 101, 114];
    proof {
        assert(v@ =~= end_header_kw());
    }
    v
}

/// The `format` keyword.
fn format_bytes() -> (v: Vec<u8>)
    ensures
        v@ == format_kw(),
{
    let v: Vec<u8> = vec![102u8, 111, 114, 109, 97, 116];
    proof {
        assert(v@ =~= format_kw());
    }
    v
}

/// The `property` keyword.
fn property_bytes() -> (v: Vec<u8>)
    ensures
        v@ == property_kw(),
{
    let v: Vec<u8> = vec![112u8, 114, 111, 112, 101, 114, 116, 121];
    proof {
        assert(v@ =~= property_kw());
    }
    v
}

/// The `element vertex` phrase.
fn element_vertex_bytes() -> (v: Vec<u8>)
    ensures
        v@ == element_vertex_kw(),
{
    let v: Vec<u8> = vec![101u8, 108, 101, 109, 101, 110, 116, 32, 118, 101, 114, 116, 101, 120];
    proof {
        assert(v@ =~= element_vertex_kw());
    }
    v
}

/// A digit prefix never exceeds the value of the whole digit string.
proof fn lemma_digits_value_prefix_le(s: Seq<u8>, i: int)
    requires
        0 <= i <= s.len(),
    ensures
        digits_value(s.subrange(0, i)) <= digits_value(s),
    decreases s.len() - i,
{
    if i == s.len() {
        assert(s.subrange(0, i) =~= s);
    } else {
        assert(s.subrange(0, i + 1).drop_last() =~= s.subrange(0, i));
        lemma_digits_value_prefix_le(s, i + 1);
    }
}

/// Parses a decimal token: its value, or zero when the token is empty,
/// holds a non-digit, or does not fit in a `usize`.
fn parse_count_bytes(s: &[u8]) -> (r: usize)
    ensures
        r as nat == parse_count(s@),
{
    let len = s.len();
    if len == 0 {
        return 0;
    }
    let mut i: usize = 0;
    let mut acc: u128 = 0;
    while i < len
        invariant
            i <= len,
            len == s@.len(),
            len > 0,
            forall|j: int| 0 <= j < i ==> 48 <= #[trigger] s@[j] <= 57,
            acc as nat == digits_value(s@.subrange(0, i as int)),
            acc <= usize::MAX as u128,
        decreases len - i,
    {
        let b = s[i];
        if b < 48 || b > 57 {
            return 0;
        }
        proof {
            assert(s@.subrange(0, i as int + 1).drop_last() =~= s@.subrange(0, i as int));
        }
        let acc2: u128 = acc * 10 + ((b - 48) as u128);
        if acc2 > usize::MAX as u128 {
            proof {
                lemma_digits_value_prefix_le(s@, i as int + 1);
            }
            return 0;
        }
        acc = acc2;
        i += 1;
    }
    proof {
        assert(s@.subrange(0, len as int) =~= s@);
    }
    acc as usize
}

/// First non-whitespace position in `line` at or after `pos`.
fn skip_spaces_from(line: &[u8], pos: usize) -> (r: usize)
    requires
        pos <= line@.len(),
    ensures
        r as int == skip_spaces(line@, pos as int),
        pos <= r <= line@.len(),
    decreases line@.len() - pos,
{
    let len = line.len();
    let mut i = pos;
    while i < len
        invariant
            pos <= i <= len,
            len == line@.len(),
            skip_spaces(line@, pos as int) == skip_spaces(line@, i as int),
        decreases len - i,
    {
        if !is_space_b(line[i]) {
            return i;
        }
        i += 1;
    }
    len
}

/// Scans the line-oriented ASCII header of a point file.
///
/// Returns the parsed header and the byte offset where the binary data
/// begins: the cumulative length of all header lines including their
/// terminators, i.e. the position just past the `end_header` line. Fails
/// with `MalformedHeader` if the input ends before a terminator line is
/// found. An unparseable or absent vertex count is zero, not an error.
pub fn read_ply_header(data: &[u8]) -> (r: Result<(PlyHeader, usize), Error>)
    ensures
        r is Ok <==> scan_header(data@, 0, 0) is Some,
        r matches Ok((h, off)) ==> {
            &&& scan_header(data@, 0, 0) == Some((off as int, h.vertex_count as nat))
            &&& off <= data@.len()
            &&& forall|i: int|
                0 <= i < h.properties@.len() ==> has_prefix(#[trigger] h.properties@[i]@, property_kw())
        },
        r is Err ==> r == Err::<(PlyHeader, usize), Error>(Error::MalformedHeader),
{
    let len = data.len();
    let end_header = end_header_bytes();
    let format_pfx = format_bytes();
    let property_pfx = property_bytes();
    let element_vertex_pfx = element_vertex_bytes();
    let mut pos: usize = 0;
    let mut count: usize = 0;
    let mut format: Vec<u8> = Vec::new();
    let mut properties: Vec<Vec<u8>> = Vec::new();
    loop
        invariant
            len == data@.len(),
            pos <= len,
            end_header@ == end_header_kw(),
            format_pfx@ == format_kw(),
            property_pfx@ == property_kw(),
            element_vertex_pfx@ == element_vertex_kw(),
            scan_header(data@, 0, 0) == scan_header(data@, pos as int, count as nat),
            forall|i: int|
                0 <= i < properties@.len() ==> has_prefix(
                    #[trigger] properties@[i]@,
                    property_kw(),
                ),
        decreases len - pos,
    {
        if pos >= len {
            return Err(Error::MalformedHeader);
        }
        let nl = find_nl(data, pos);
        proof {
            lemma_find_newline_props(data@, pos as int);
        }
        let line = trim_bytes(slice_subrange(data, pos, nl));
        if bytes_eq(line.as_slice(), end_header.as_slice()) {
            let off = if nl < len {
                nl + 1
            } else {
                len
            };
            return Ok((PlyHeader { format, vertex_count: count, properties }, off));
        }
        if nl >= len {
            return Err(Error::MalformedHeader);
        }
        if starts_with_bytes(line.as_slice(), format_pfx.as_slice()) {
            format = line;
        } else if starts_with_bytes(line.as_slice(), element_vertex_pfx.as_slice()) && line.len()
            > element_vertex_pfx.len() && is_space_b(line[element_vertex_pfx.len()]) {
            let d = skip_spaces_from(line.as_slice(), element_vertex_pfx.len());
            count = parse_count_bytes(slice_subrange(line.as_slice(), d, line.len()));
            proof {
                assert(line@.subrange(d as int, line@.len() as int) == line@.subrange(
                    skip_spaces(line@, element_vertex_kw().len() as int),
                    line@.len() as int,
                ));
            }
        } else if starts_with_bytes(line.as_slice(), property_pfx.as_slice()) {
            properties.push(line);
        }
        pos = nl + 1;
    }
}

} // verus!
