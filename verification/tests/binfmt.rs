use embedded2020::binfmt::{self, Level, Tag};
use embedded2020::binfmt_parser;

#[test]
fn zigzag() {
    assert_eq!(binfmt::zigzag(0), 0);
    assert_eq!(binfmt::zigzag(-1), 0b001);
    assert_eq!(binfmt::zigzag(1), 0b010);
    assert_eq!(binfmt::zigzag(-2), 0b011);
    assert_eq!(binfmt::zigzag(2), 0b100);
    assert_eq!(binfmt::zigzag(i32::min_value()), 0xffffffff);
    assert_eq!(binfmt::zigzag(i32::max_value()), 0xfffffffe);
}

#[test]
fn zigzag_then_unzigzag_is_identity() {
    for x in [0, 1, -1, 63, -64, 1000, -1000, i32::max_value(), i32::min_value()] {
        assert_eq!(binfmt_parser::unzigzag(binfmt::zigzag(x)), x);
    }
}

#[test]
fn tag_bytes_roundtrip() {
    for b in 0u8..13 {
        let t = Tag::from(b).unwrap();
        assert_eq!(t.byte(), b);
    }
    assert_eq!(Tag::from(13), None);
    assert_eq!(Tag::from(255), None);
}

#[test]
fn level_bytes_match_tags() {
    assert_eq!(Level::Error.byte(), Tag::Error.byte());
    assert_eq!(Level::Trace.byte(), Tag::Trace.byte());
}
