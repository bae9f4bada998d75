//! Messages of the control connection and their framing.

use rperf3::number::Binary64;
use rperf3::protocol::{
    deserialize_message, serialize_message, stream_id_for_index, Frame, Message,
    DEFAULT_STREAM_ID, PROTOCOL_VERSION,
};
use rperf3::time::Duration;
use serde_json::Value;

/// The JSON text of the messages that these tests use.
fn to_json(msg: &Message) -> Vec<u8> {
    let mut map = serde_json::Map::new();
    let mut put = |key: &str, value: Value| {
        map.insert(key.to_string(), value);
    };
    match msg {
        Message::Setup {
            version,
            protocol,
            duration,
            bandwidth,
            buffer_size,
            parallel,
            reverse,
            one_way,
            expected_pps,
        } => {
            put("type", Value::from("Setup"));
            put("version", Value::from(*version));
            put("protocol", Value::from(protocol.as_str()));
            put("duration", Value::from(*duration));
            put("bandwidth", Value::from(*bandwidth));
            put("buffer_size", Value::from(*buffer_size));
            put("parallel", Value::from(*parallel));
            put("reverse", Value::from(*reverse));
            put("one_way", Value::from(one_way.clone()));
            put("expected_pps", Value::from(*expected_pps));
        }
        Message::Error { message } => {
            put("type", Value::from("Error"));
            put("message", Value::from(message.as_str()));
        }
        _ => put("type", Value::from("Done")),
    }
    serde_json::to_vec(&Value::Object(map)).unwrap()
}

fn from_json(bytes: &[u8]) -> Option<Message> {
    let v: Value = serde_json::from_slice(bytes).ok()?;
    match v["type"].as_str()? {
        "Setup" => Some(Message::Setup {
            version: v["version"].as_u64()? as u32,
            protocol: v["protocol"].as_str()?.to_string(),
            duration: v["duration"].as_u64()?,
            bandwidth: v["bandwidth"].as_u64(),
            buffer_size: v["buffer_size"].as_u64()? as usize,
            parallel: v["parallel"].as_u64()? as usize,
            reverse: v["reverse"].as_bool()?,
            one_way: v["one_way"].as_str().map(|s| s.to_string()),
            expected_pps: v["expected_pps"].as_u64(),
        }),
        "Error" => Some(Message::error(v["message"].as_str()?.to_string())),
        "Done" => Some(Message::done()),
        _ => None,
    }
}

#[test]
fn test_protocol_version() {
    assert_eq!(PROTOCOL_VERSION, 1);
}

#[test]
fn test_default_stream_id() {
    assert_eq!(DEFAULT_STREAM_ID, 5);
}

#[test]
fn test_stream_id_for_index() {
    assert_eq!(stream_id_for_index(0), 5);
    assert_eq!(stream_id_for_index(1), 7);
    assert_eq!(stream_id_for_index(2), 9);
    assert_eq!(stream_id_for_index(10), 25);
}

#[test]
fn test_message_setup() {
    let msg = Message::setup(
        "TCP".to_string(),
        Duration::from_secs(10),
        Some(100_000_000),
        128 * 1024,
        2,
        false,
    );

    match msg {
        Message::Setup {
            version,
            protocol,
            duration,
            bandwidth,
            buffer_size,
            parallel,
            reverse,
            one_way,
            expected_pps,
        } => {
            assert_eq!(version, PROTOCOL_VERSION);
            assert_eq!(protocol, "TCP");
            assert_eq!(duration, 10);
            assert_eq!(bandwidth, Some(100_000_000));
            assert_eq!(buffer_size, 128 * 1024);
            assert_eq!(parallel, 2);
            assert!(!reverse);
            assert_eq!(one_way, None);
            assert_eq!(expected_pps, None);
        }
        _ => panic!("Expected Setup message"),
    }
}

#[test]
fn test_message_setup_ack() {
    let msg = Message::setup_ack(5201, "cookie123".to_string());

    match msg {
        Message::SetupAck { port, cookie } => {
            assert_eq!(port, 5201);
            assert_eq!(cookie, "cookie123");
        }
        _ => panic!("Expected SetupAck message"),
    }
}

#[test]
fn test_message_start() {
    let msg = Message::start(1234567890);

    match msg {
        Message::Start { timestamp } => {
            assert_eq!(timestamp, 1234567890);
        }
        _ => panic!("Expected Start message"),
    }
}

#[test]
fn test_message_done() {
    let msg = Message::Done;
    assert!(matches!(msg, Message::Done));
}

#[test]
fn test_message_error() {
    let msg = Message::Error { message: "Test failed".to_string() };

    match msg {
        Message::Error { message } => {
            assert_eq!(message, "Test failed");
        }
        _ => panic!("Expected Error message"),
    }
}

#[test]
fn test_serialize_deserialize_setup() {
    let msg = Message::setup(
        "UDP".to_string(),
        Duration::from_secs(30),
        Some(50_000_000),
        65536,
        1,
        true,
    );

    let serialized = serialize_message(&to_json(&msg));

    // Verify serialized format: length prefix (4 bytes) + JSON
    assert!(serialized.len() > 4);
    let len = u32::from_be_bytes([serialized[0], serialized[1], serialized[2], serialized[3]]);
    assert_eq!(len as usize, serialized.len() - 4);

    // Deserialize JSON directly (without length prefix)
    let json_bytes = &serialized[4..];
    let deserialized = from_json(json_bytes).unwrap();

    match deserialized {
        Message::Setup {
            version,
            protocol,
            duration,
            bandwidth,
            buffer_size,
            parallel,
            reverse,
            ..
        } => {
            assert_eq!(version, PROTOCOL_VERSION);
            assert_eq!(protocol, "UDP");
            assert_eq!(duration, 30);
            assert_eq!(bandwidth, Some(50_000_000));
            assert_eq!(buffer_size, 65536);
            assert_eq!(parallel, 1);
            assert!(reverse);
        }
        _ => panic!("Expected Setup message"),
    }
}

#[test]
fn test_serialize_deserialize_done() {
    let msg = Message::Done;
    let serialized = serialize_message(&to_json(&msg));

    // Deserialize JSON directly
    let json_bytes = &serialized[4..];
    let deserialized = from_json(json_bytes).unwrap();
    assert!(matches!(deserialized, Message::Done));
}

#[test]
fn test_serialize_format() {
    let msg = Message::Done;
    let serialized = serialize_message(&to_json(&msg));

    // Check length prefix
    assert!(serialized.len() >= 4);
    let len = u32::from_be_bytes([serialized[0], serialized[1], serialized[2], serialized[3]]);
    assert_eq!(len as usize + 4, serialized.len());
}

#[test]
fn test_deserialize_invalid_json() {
    let invalid_json = b"{invalid json}";
    let framed = serialize_message(invalid_json);
    match deserialize_message(&framed) {
        Frame::Complete { json, .. } => {
            assert_eq!(json, invalid_json);
            assert!(serde_json::from_slice::<Value>(json).is_err());
            assert!(from_json(json).is_none());
        }
        Frame::Incomplete { .. } => panic!("Expected a whole frame"),
    }
}

#[test]
fn test_message_json_roundtrip() {
    let msg = Message::Error { message: "Test error".to_string() };

    let json = to_json(&msg);
    let deserialized = from_json(&json).unwrap();

    match deserialized {
        Message::Error { message } => {
            assert_eq!(message, "Test error");
        }
        _ => panic!("Expected Error message"),
    }
}

#[test]
fn frames_are_taken_off_one_by_one() {
    let mut stream = serialize_message(b"first");
    stream.extend_from_slice(&serialize_message(b""));
    stream.extend_from_slice(&serialize_message(b"third!"));
    let mut rest: &[u8] = &stream;
    let mut seen: Vec<Vec<u8>> = Vec::new();
    while let Frame::Complete { json, rest: more } = deserialize_message(rest) {
        seen.push(json.to_vec());
        rest = more;
    }
    assert_eq!(seen, vec![b"first".to_vec(), b"".to_vec(), b"third!".to_vec()]);
    assert_eq!(deserialize_message(rest), Frame::Incomplete { missing: 4 });
}

#[test]
fn a_reader_asks_for_just_what_is_missing() {
    let frame = serialize_message(b"abcdefg");
    assert_eq!(frame, [0, 0, 0, 7, 97, 98, 99, 100, 101, 102, 103]);
    let mut have = 0;
    let mut asked: Vec<usize> = Vec::new();
    while let Frame::Incomplete { missing } = deserialize_message(&frame[..have]) {
        asked.push(missing);
        have += missing;
    }
    assert_eq!(asked, vec![4, 7]);
    assert_eq!(have, frame.len());
    assert_eq!(deserialize_message(&frame[..2]), Frame::Incomplete { missing: 2 });
    assert_eq!(deserialize_message(&frame[..9]), Frame::Incomplete { missing: 2 });
    let huge = [0xff, 0xff, 0xff, 0xff];
    assert_eq!(deserialize_message(&huge), Frame::Incomplete { missing: 0xffff_ffff });
}

#[test]
fn stream_ids_are_odd_and_distinct() {
    for index in 0..1000 {
        let id = stream_id_for_index(index);
        assert_eq!(id, DEFAULT_STREAM_ID + index * 2);
        assert_eq!(id % 2, 1);
    }
}

#[test]
fn statistics_messages() {
    let x = |v: f64| Binary64::from_bits(v.to_bits());
    match Message::interval(5, x(0.0), x(1.0), 1000, x(8000.0)) {
        Message::Interval { stream_id, start, end, bytes, bits_per_second } => {
            assert_eq!((stream_id, bytes), (5, 1000));
            assert_eq!((start, end, bits_per_second), (x(0.0), x(1.0), x(8000.0)));
        }
        _ => panic!("Expected Interval message"),
    }
    match Message::result(7, 10, 20, x(3.0), x(80.0), Some(4)) {
        Message::Result {
            stream_id,
            bytes_sent,
            bytes_received,
            retransmits,
            packets_sent,
            packet_loss,
            ..
        } => {
            assert_eq!((stream_id, bytes_sent, bytes_received), (7, 10, 20));
            assert_eq!(retransmits, Some(4));
            assert_eq!(packets_sent, None);
            assert_eq!(packet_loss, None);
        }
        _ => panic!("Expected Result message"),
    }
    match Message::result_one_way(1, 2, 3, x(1.0), x(2.0), None, 4, 5, x(6.0), x(7.0), 8) {
        Message::Result {
            packets_sent,
            packets_received,
            packet_loss,
            jitter_ms,
            out_of_order,
            ..
        } => {
            assert_eq!((packets_sent, packets_received), (Some(4), Some(5)));
            assert_eq!((packet_loss, jitter_ms), (Some(x(6.0)), Some(x(7.0))));
            assert_eq!(out_of_order, Some(8));
        }
        _ => panic!("Expected Result message"),
    }
    match Message::setup_with_one_way(
        "Udp".to_string(),
        Duration::from_millis(2500),
        None,
        1500,
        1,
        false,
        Some("send".to_string()),
        Some(100),
    ) {
        Message::Setup { duration, one_way, expected_pps, .. } => {
            assert_eq!(duration, 2);
            assert_eq!(one_way, Some("send".to_string()));
            assert_eq!(expected_pps, Some(100));
        }
        _ => panic!("Expected Setup message"),
    }
}
