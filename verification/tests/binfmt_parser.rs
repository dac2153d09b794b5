use std::collections::BTreeMap;

use embedded2020::binfmt::{binWrite, Tag, CONTINUE};
use embedded2020::binfmt_parser::{self,
    count_footprint_arguments, decode_leb, dynfmt, dynfmt_register, get_register_width,
    leb128_decode_u32, parse_message, parse_node, Decoded, EoS,
};

#[test]
fn leb128() {
    assert_eq!(leb128_decode_u32(&[1]), Ok((1, 1)));
    assert_eq!(leb128_decode_u32(&[127]), Ok((127, 1)));

    assert_eq!(leb128_decode_u32(&[CONTINUE, 1]), Ok((128, 2)));
    assert_eq!(leb128_decode_u32(&[0x7f | CONTINUE, 1]), Ok((255, 2)));
    assert_eq!(leb128_decode_u32(&[0x7f | CONTINUE, 0x7f]), Ok((16383, 2)));

    assert_eq!(leb128_decode_u32(&[CONTINUE, CONTINUE, 1]), Ok((16384, 3)));

    assert_eq!(
        leb128_decode_u32(&[
            0x7f | CONTINUE,
            0x7f | CONTINUE,
            0x7f | CONTINUE,
            0x7f | CONTINUE,
            0b1111
        ]),
        Ok((u32::max_value(), 5))
    );
}

#[test]
fn leb128_truncated_input() {
    assert_eq!(leb128_decode_u32(&[]), Err(EoS));
    assert_eq!(leb128_decode_u32(&[CONTINUE]), Err(EoS));
    assert_eq!(leb128_decode_u32(&[CONTINUE, CONTINUE, 0x81]), Err(EoS));
}

#[test]
fn decode_leb_reports_overlong_input() {
    assert!(matches!(decode_leb(&[0x80, 0x80, 0x80, 0x80, 0x80, 0x01]), Decoded::Malformed));
    assert!(matches!(decode_leb(&[0x80, 0x80]), Decoded::EoS));
    assert!(matches!(decode_leb(&[0x85, 0x01, 0xff]), Decoded::Done(133, 2)));
}

#[test]
fn parse_and_format() {
    let mut footprints = BTreeMap::new();
    footprints.insert(0, String::from("The answer is {}"));

    assert_eq!(
        parse_node(&[Tag::Unsigned.byte(), 1], &footprints)
            .unwrap()
            .0
            .render(&vec![])
            .unwrap(),
        "1"
    );

    assert_eq!(
        parse_node(
            &[Tag::Footprint.byte(), 0, Tag::Unsigned.byte(), 42],
            &footprints
        )
        .unwrap()
        .0
        .render(&vec![])
        .unwrap(),
        "The answer is 42"
    );
}

#[test]
fn unzigzag() {
    assert_eq!(binfmt_parser::unzigzag(0), 0);
    assert_eq!(binfmt_parser::unzigzag(0b001), -1);
    assert_eq!(binfmt_parser::unzigzag(0b010), 1);
    assert_eq!(binfmt_parser::unzigzag(0b011), -2);
    assert_eq!(binfmt_parser::unzigzag(0b100), 2);
    assert_eq!(binfmt_parser::unzigzag(0xffffffff), i32::min_value());
    assert_eq!(binfmt_parser::unzigzag(0xfffffffe), i32::max_value());
}

#[test]
fn signed_node_renders_negative_numbers() {
    let footprints = BTreeMap::new();
    let (node, n) = parse_node(&[Tag::Signed.byte(), 3], &footprints).unwrap();
    assert_eq!(n, 2);
    assert_eq!(node.render(&vec![]).unwrap(), "-2");
}

#[test]
fn pointer_node_renders_hex() {
    let footprints = BTreeMap::new();
    let (node, n) = parse_node(&[Tag::Pointer.byte(), 0xef, 0xbe, 0xad, 0xde], &footprints).unwrap();
    assert_eq!(n, 5);
    assert_eq!(node.render(&vec![]).unwrap(), "0xdeadbeef");
}

#[test]
fn truncated_node_is_end_of_stream() {
    let footprints = BTreeMap::new();
    assert!(parse_node(&[Tag::Pointer.byte(), 0xef, 0xbe], &footprints).is_err());
    assert!(parse_node(&[], &footprints).is_err());
}

#[test]
fn message_with_timestamp_and_body() {
    let mut footprints = BTreeMap::new();
    footprints.insert(1, String::from("x = {}, y = {}"));
    let bytes = [Tag::Info.byte(), 0x80, 0x89, 0x7a, 1, Tag::Unsigned.byte(), 7, Tag::Signed.byte(), 1];
    let (msg, n) = parse_message(&bytes, &footprints).unwrap();
    assert_eq!(n, bytes.len());
    assert_eq!(msg.body(&vec![]).unwrap(), "x = 7, y = -1");
    assert_eq!(msg.timestamp_text(), "  2.000000");
}

#[test]
fn footprint_argument_count() {
    assert_eq!(count_footprint_arguments("no arguments"), 0);
    assert_eq!(count_footprint_arguments("{} and {}"), 2);
    assert_eq!(count_footprint_arguments("{{}} escaped {}"), 1);
}

#[test]
fn dynfmt_fills_placeholders() {
    assert_eq!(
        dynfmt("{} + {} = {}", &[String::from("1"), String::from("2"), String::from("3")]),
        "1 + 2 = 3"
    );
}

#[test]
fn register_width() {
    assert_eq!(get_register_width("{0:8}"), 1);
    assert_eq!(get_register_width("{{}} {8:16}"), 2);
    assert_eq!(get_register_width("{31}"), 4);
}

#[test]
fn register_fields() {
    assert_eq!(dynfmt_register("A={0:4} B={4:8} C={0}", 0xa5), "A=0b101 B=0b1010 C=1");
    assert_eq!(dynfmt_register("{{{8:16}}}", 0xab00), "{0xab}");
}

#[test]
fn leb128_write_uses_one_byte_per_seven_bits() {
    for (v, n) in [(0u32, 1usize), (127, 1), (128, 2), (16383, 2), (16384, 3), (u32::MAX, 5)] {
        let mut out: Vec<u8> = Vec::new();
        out.leb128_write(v);
        assert_eq!(out.len(), n);
        let bits = 32 - v.leading_zeros() as usize;
        assert_eq!(out.len(), if bits == 0 { 1 } else { (bits + 6) / 7 });
        let mut input = out.clone();
        input.push(0xff);
        assert_eq!(leb128_decode_u32(&input), Ok((v, n)));
    }
}
