use std::collections::BTreeMap;

use embedded2020::binfmt::{Level, Tag};
use embedded2020::binfmt_parser::{decode_messages, Message};
use embedded2020::semidap::order_messages;

fn footprints() -> BTreeMap<u64, String> {
    let mut footprints = BTreeMap::new();
    footprints.insert(0, String::from("The answer is {}"));
    footprints.insert(1, String::from("ready"));
    footprints
}

#[test]
fn messages_up_to_an_incomplete_one() {
    let stream = [
        Tag::Info.byte(),
        5,
        0,
        Tag::Unsigned.byte(),
        42,
        Tag::Warn.byte(),
        3,
        1,
        Tag::Info.byte(),
        9,
    ];
    let (messages, consumed) = decode_messages(&stream, &footprints()).unwrap();
    assert_eq!(consumed, 8);
    assert_eq!(messages.len(), 2);
    assert_eq!(messages[0].timestamp, 5);
    assert_eq!(messages[0].body(&vec![]).unwrap(), "The answer is 42");
    assert_eq!(messages[1].timestamp, 3);
    assert_eq!(messages[1].body(&vec![]).unwrap(), "ready");

    let (messages, consumed) = decode_messages(&[], &footprints()).unwrap();
    assert!(messages.is_empty());
    assert_eq!(consumed, 0);
}

#[test]
fn malformed_stream() {
    // a footprint key that the image does not have
    let stream = [Tag::Info.byte(), 5, 7];
    assert!(decode_messages(&stream, &footprints()).is_none());
}

fn message(timestamp: u32, footprint: &str) -> Message {
    Message {
        level: Level::Info,
        timestamp,
        footprint: footprint.to_string(),
        args: vec![],
    }
}

#[test]
fn messages_in_timestamp_order() {
    let ordered = order_messages(vec![
        (0, message(5, "a")),
        (1, message(3, "b")),
        (0, message(5, "c")),
        (1, message(1, "d")),
    ]);
    let shown: Vec<(usize, u32, String)> = ordered
        .into_iter()
        .map(|(src, m)| (src, m.timestamp, m.footprint))
        .collect();
    assert_eq!(
        shown,
        vec![
            (1, 1, "d".to_string()),
            (1, 3, "b".to_string()),
            (0, 5, "a".to_string()),
            (0, 5, "c".to_string()),
        ]
    );
}
