use plysync::errors::Error;
use plysync::ply::header::read_ply_header;

#[test]
fn header_gives_count_offset_and_properties() {
    let text = "ply\nformat binary_little_endian 1.0\nelement vertex 1234\nproperty float64 time\nproperty float64 x\nend_header\n";
    let mut data = text.as_bytes().to_vec();
    data.extend_from_slice(&[1, 2, 3]); // start of binary section
    let (h, off) = read_ply_header(&data).unwrap();
    assert_eq!(h.vertex_count, 1234);
    assert_eq!(off, text.len());
    assert_eq!(h.format, "format binary_little_endian 1.0".as_bytes().to_vec());
    assert_eq!(h.properties.len(), 2);
    assert_eq!(h.properties[0], "property float64 time".as_bytes().to_vec());
    assert_eq!(h.properties[1], "property float64 x".as_bytes().to_vec());
}

#[test]
fn missing_terminator_is_malformed() {
    let text = "ply\nformat binary_little_endian 1.0\nelement vertex 3\n";
    let r = read_ply_header(&text.as_bytes().to_vec());
    assert_eq!(r.err(), Some(Error::MalformedHeader));
}

#[test]
fn empty_input_is_malformed() {
    let r = read_ply_header(&Vec::new());
    assert_eq!(r.err(), Some(Error::MalformedHeader));
}

#[test]
fn unparseable_count_is_zero() {
    let text = "ply\nelement vertex twelve\nend_header\n";
    let (h, _) = read_ply_header(&text.as_bytes().to_vec()).unwrap();
    assert_eq!(h.vertex_count, 0);
}

#[test]
fn oversized_count_is_zero() {
    let text = "ply\nelement vertex 99999999999999999999999999\nend_header\n";
    let (h, _) = read_ply_header(&text.as_bytes().to_vec()).unwrap();
    assert_eq!(h.vertex_count, 0);
}

#[test]
fn unterminated_end_header_line_still_terminates() {
    let text = "ply\nelement vertex 7\nend_header";
    let (h, off) = read_ply_header(&text.as_bytes().to_vec()).unwrap();
    assert_eq!(h.vertex_count, 7);
    assert_eq!(off, text.len());
}

#[test]
fn carriage_returns_are_trimmed() {
    let text = "ply\r\nformat ascii 1.0\r\nelement vertex 42\r\nend_header\r\n";
    let (h, off) = read_ply_header(&text.as_bytes().to_vec()).unwrap();
    assert_eq!(h.vertex_count, 42);
    assert_eq!(off, text.len());
    assert_eq!(h.format, "format ascii 1.0".as_bytes().to_vec());
}

#[test]
fn later_vertex_element_wins() {
    let text = "ply\nelement vertex 5\nelement vertex 9\nend_header\n";
    let (h, _) = read_ply_header(&text.as_bytes().to_vec()).unwrap();
    assert_eq!(h.vertex_count, 9);
}
