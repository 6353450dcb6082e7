//! The geometry store's codec: what is written, what reads back, and what
//! is rejected.

use window_chrome::codec::{encode_geometry, parse_geometry};
use window_chrome::geometry::WindowGeometry;

fn geom(x: i32, y: i32, width: Option<u32>, height: Option<u32>) -> WindowGeometry {
    WindowGeometry { x, y, width, height }
}

#[test]
fn encodes_the_canonical_record() {
    let g = geom(100, 100, Some(360), Some(382));
    let bytes = encode_geometry(&g);
    assert_eq!(bytes, b"{\"x\":100,\"y\":100,\"width\":360,\"height\":382}".to_vec());
}

#[test]
fn encodes_absent_dimensions_as_null() {
    let g = geom(-5, 42, None, None);
    let bytes = encode_geometry(&g);
    assert_eq!(bytes, b"{\"x\":-5,\"y\":42,\"width\":null,\"height\":null}".to_vec());
}

#[test]
fn round_trips_a_saved_geometry() {
    let g = geom(100, 100, Some(360), Some(382));
    assert_eq!(parse_geometry(&encode_geometry(&g)), Some(g));
}

#[test]
fn round_trips_negative_positions() {
    let g = geom(-1920, -42, Some(340), Some(382));
    assert_eq!(parse_geometry(&encode_geometry(&g)), Some(g));
}

#[test]
fn round_trips_extreme_values() {
    let g = geom(i32::MIN, i32::MAX, Some(u32::MAX), Some(0));
    assert_eq!(parse_geometry(&encode_geometry(&g)), Some(g));
    let g = geom(0, 0, None, Some(1));
    assert_eq!(parse_geometry(&encode_geometry(&g)), Some(g));
}

#[test]
fn rejects_an_empty_file() {
    assert_eq!(parse_geometry(&Vec::new()), None);
}

#[test]
fn rejects_garbage() {
    assert_eq!(parse_geometry(&b"not json at all".to_vec()), None);
    assert_eq!(parse_geometry(&b"[1,2,3]".to_vec()), None);
    assert_eq!(parse_geometry(&b"\"x\"".to_vec()), None);
}

#[test]
fn rejects_every_truncation() {
    let bytes = encode_geometry(&geom(100, 100, Some(360), Some(382)));
    for cut in 0..bytes.len() {
        let prefix: Vec<u8> = bytes[..cut].to_vec();
        assert_eq!(parse_geometry(&prefix), None);
    }
}

#[test]
fn rejects_records_without_position() {
    assert_eq!(parse_geometry(&b"{}".to_vec()), None);
    assert_eq!(parse_geometry(&b"{\"x\":1}".to_vec()), None);
    assert_eq!(parse_geometry(&b"{\"width\":3,\"height\":4}".to_vec()), None);
}

#[test]
fn accepts_members_in_any_order() {
    let bytes = b"{\"y\":2,\"x\":1,\"height\":null,\"width\":360}".to_vec();
    assert_eq!(parse_geometry(&bytes), Some(geom(1, 2, Some(360), None)));
}

#[test]
fn accepts_whitespace_between_tokens() {
    let bytes = b" { \"x\" : 1 , \"y\" : -2 , \"width\" : 3 , \"height\" : null } ".to_vec();
    assert_eq!(parse_geometry(&bytes), Some(geom(1, -2, Some(3), None)));
}

#[test]
fn reads_missing_dimensions_as_absent() {
    let bytes = b"{\"x\":1,\"y\":2}".to_vec();
    assert_eq!(parse_geometry(&bytes), Some(geom(1, 2, None, None)));
}

#[test]
fn rejects_duplicate_members() {
    let bytes = b"{\"x\":1,\"x\":2,\"y\":3}".to_vec();
    assert_eq!(parse_geometry(&bytes), None);
}

#[test]
fn rejects_unknown_members() {
    let bytes = b"{\"x\":1,\"y\":2,\"depth\":3}".to_vec();
    assert_eq!(parse_geometry(&bytes), None);
}

#[test]
fn rejects_leading_zeros() {
    assert_eq!(parse_geometry(&b"{\"x\":01,\"y\":2}".to_vec()), None);
    assert_eq!(parse_geometry(&b"{\"x\":1,\"y\":2,\"width\":00}".to_vec()), None);
}

#[test]
fn rejects_trailing_text() {
    assert_eq!(parse_geometry(&b"{\"x\":1,\"y\":2}x".to_vec()), None);
}

#[test]
fn rejects_values_out_of_range() {
    assert_eq!(parse_geometry(&b"{\"x\":2147483648,\"y\":0}".to_vec()), None);
    assert_eq!(parse_geometry(&b"{\"x\":-2147483649,\"y\":0}".to_vec()), None);
    assert_eq!(parse_geometry(&b"{\"x\":0,\"y\":0,\"width\":4294967296}".to_vec()), None);
    let ok = parse_geometry(&b"{\"x\":-2147483648,\"y\":2147483647}".to_vec());
    assert_eq!(ok, Some(geom(i32::MIN, i32::MAX, None, None)));
}

#[test]
fn rejects_negative_dimensions() {
    assert_eq!(parse_geometry(&b"{\"x\":1,\"y\":2,\"width\":-3}".to_vec()), None);
}
