//! The wire codec: exact frames, round trips, rejection of malformed
//! frames, and interoperability with a general-purpose JSON library.

use vee::codec::{interpret_frame, Reception};
use vee::message::Message;

fn hail(name: &str, address: &str) -> Message {
    Message::Hail { name: name.to_string(), address: address.to_string() }
}

#[test]
fn encodes_hail_exactly() {
    let m = hail("p1", "addr-1");
    assert_eq!(m.serialise(), "{\"Hail\":{\"name\":\"p1\",\"address\":\"addr-1\"}}");
}

#[test]
fn encodes_pair_exactly() {
    let m = Message::Pair { originator: "p1".to_string(), destination: "p2".to_string() };
    assert_eq!(m.serialise(), "{\"Pair\":{\"originator\":\"p1\",\"destination\":\"p2\"}}");
}

#[test]
fn encodes_link_exactly() {
    let m = Message::Link {
        origin_name: "p1".to_string(),
        destination_name: "p2".to_string(),
        address: "addr-1".to_string(),
    };
    assert_eq!(
        m.serialise(),
        "{\"Link\":{\"origin_name\":\"p1\",\"destination_name\":\"p2\",\"address\":\"addr-1\"}}"
    );
}

#[test]
fn encodes_fail_exactly() {
    let m = Message::Fail { offender: "ghost".to_string(), explanation: "why".to_string() };
    assert_eq!(m.serialise(), "{\"Fail\":{\"offender\":\"ghost\",\"explanation\":\"why\"}}");
}

#[test]
fn encodes_data_exactly() {
    let m = Message::Data { payload: "hello".to_string() };
    assert_eq!(m.serialise(), "{\"Data\":{\"payload\":\"hello\"}}");
}

#[test]
fn round_trips_every_variant() {
    let samples = vec![
        hail("p1", "addr-1"),
        Message::Pair { originator: "p1".to_string(), destination: "p2".to_string() },
        Message::Link {
            origin_name: "p1".to_string(),
            destination_name: "p2".to_string(),
            address: "addr-1".to_string(),
        },
        Message::Fail { offender: "ghost".to_string(), explanation: "no such peer".to_string() },
        Message::Data { payload: "Hello world from origin".to_string() },
    ];
    for m in samples {
        let encoded = m.serialise();
        assert_eq!(Message::deserialise(encoded), m);
    }
}

#[test]
fn round_trips_awkward_characters() {
    let m = hail("a\"b\\c", "d\\\"e\u{00e9}{}:,");
    let encoded = m.serialise();
    assert_eq!(
        encoded,
        "{\"Hail\":{\"name\":\"a\\\"b\\\\c\",\"address\":\"d\\\\\\\"e\u{00e9}{}:,\"}}"
    );
    assert_eq!(Message::try_deserialise(&encoded), Some(m));
}

#[test]
fn round_trips_empty_fields() {
    let m = hail("", "");
    let encoded = m.serialise();
    assert_eq!(encoded, "{\"Hail\":{\"name\":\"\",\"address\":\"\"}}");
    assert_eq!(Message::try_deserialise(&encoded), Some(m));
}

#[test]
fn rejects_malformed_frames() {
    let bad = vec![
        "",
        "{",
        "{\"Hall\":{\"name\":\"p1\",\"address\":\"a\"}}",
        "{\"Hail\":{\"name\":\"p1\"}}",
        "{\"Hail\":{\"name\":\"p1\",\"address\":\"a\"}} ",
        "{\"Hail\":{\"name\":\"p1\",\"address\":\"a\"}",
        "{\"Hail\":{\"name\":\"p1\",\"address\":\"a}}",
        "{\"Hail\":{\"name\":\"p\\q\",\"address\":\"a\"}}",
        "{\"Hail\":{\"address\":\"a\",\"name\":\"p1\"}}",
        "nonsense",
    ];
    for frame in bad {
        assert_eq!(Message::try_deserialise(frame), None, "accepted: {}", frame);
    }
}

#[test]
fn interprets_empty_read_as_no_message() {
    assert!(matches!(interpret_frame(""), Reception::NoMessage));
}

#[test]
fn interprets_garbage_as_corruption() {
    assert!(matches!(interpret_frame("{\"Hail\":"), Reception::Corrupted));
}

#[test]
fn interprets_good_frame_as_arrival() {
    match interpret_frame("{\"Data\":{\"payload\":\"x\"}}") {
        Reception::Arrived(m) => assert_eq!(m, Message::Data { payload: "x".to_string() }),
        other => panic!("expected an arrival, got {:?}", other),
    }
}

#[test]
fn frames_parse_as_json() {
    let m = hail("p\"1", "addr\\1");
    let parsed: serde_json::Value = serde_json::from_str(&m.serialise()).unwrap();
    assert_eq!(parsed["Hail"]["name"], serde_json::Value::String("p\"1".to_string()));
    assert_eq!(parsed["Hail"]["address"], serde_json::Value::String("addr\\1".to_string()));
}

#[test]
fn decodes_json_library_output() {
    let mut fields = serde_json::Map::new();
    fields.insert(
        "payload".to_string(),
        serde_json::Value::String("Hello world from destination".to_string()),
    );
    let mut outer = serde_json::Map::new();
    outer.insert("Data".to_string(), serde_json::Value::Object(fields));
    let text = serde_json::Value::Object(outer).to_string();
    assert_eq!(
        Message::try_deserialise(&text),
        Some(Message::Data { payload: "Hello world from destination".to_string() })
    );
}
