use zark_messenger::codec::{BinarySerializer, Serializable, Serializer};
use zark_messenger::error::MessengerError;
use zark_messenger::message::{generate_zark_uid, Message};

fn msg(topic: &str, id: &str, payload: Vec<u8>) -> Message {
    Message { topic: topic.to_string(), id: id.to_string(), payload }
}

#[test]
fn canonical_encoding_exact_bytes() {
    let m = msg("t", "AB", vec![1, 2, 3]);
    let bytes = m.serialize().unwrap();
    assert_eq!(bytes, vec![1, 0, 0, 0, b't', 2, 0, 0, 0, b'A', b'B', 3, 0, 0, 0, 1, 2, 3]);
}

#[test]
fn decode_of_encode_is_identity() {
    let m = msg("topic/é", "ABCD-EFGH-IJKL-MNOP", (0u8..=255).collect());
    let bytes = m.serialize().unwrap();
    let back = Message::deserialize(&bytes).unwrap();
    assert_eq!(back, m);
    let codec = BinarySerializer;
    let via_codec = codec.deserialize(&codec.serialize(&m).unwrap()).unwrap();
    assert_eq!(via_codec, m);
}

#[test]
fn decode_empty_fields() {
    let m = msg("", "", vec![]);
    let bytes = m.serialize().unwrap();
    assert_eq!(bytes, vec![0; 12]);
    assert_eq!(Message::deserialize(&bytes).unwrap(), m);
}

#[test]
fn decode_rejects_overrunning_length() {
    let mut bytes = msg("t", "A", vec![9, 9]).serialize().unwrap();
    bytes.pop();
    assert!(matches!(Message::deserialize(&bytes), Err(MessengerError::Deserialization(_))));
    assert!(matches!(Message::deserialize(&[5, 0, 0]), Err(MessengerError::Deserialization(_))));
    assert!(matches!(Message::deserialize(&[200, 0, 0, 0, 1]), Err(MessengerError::Deserialization(_))));
}

#[test]
fn decode_rejects_invalid_utf8_topic() {
    let bytes = vec![1, 0, 0, 0, 0xff, 0, 0, 0, 0, 0, 0, 0, 0];
    assert!(matches!(Message::deserialize(&bytes), Err(MessengerError::Deserialization(_))));
}

#[test]
fn decode_reads_multibyte_topic() {
    let bytes = vec![2, 0, 0, 0, 0xc3, 0xa9, 0, 0, 0, 0, 0, 0, 0, 0];
    let m = Message::deserialize(&bytes).unwrap();
    assert_eq!(m.topic, "é");
}

#[test]
fn raw_bytes_are_their_own_encoding() {
    let v: Vec<u8> = vec![7, 8, 9];
    assert_eq!(v.serialize().unwrap(), vec![7, 8, 9]);
    assert_eq!(<Vec<u8> as Serializable>::deserialize(&[4, 5]).unwrap(), vec![4, 5]);
}

#[test]
fn messages_differ_when_a_field_differs() {
    assert_ne!(msg("a", "1", vec![1]), msg("a", "1", vec![2]));
    assert_ne!(msg("a", "1", vec![1]), msg("b", "1", vec![1]));
    assert_ne!(msg("a", "1", vec![1]), msg("a", "2", vec![1]));
    assert_eq!(msg("a", "1", vec![1]), msg("a", "1", vec![1]));
}

fn is_uid(s: &str) -> bool {
    let b = s.as_bytes();
    b.len() == 19
        && b.iter().enumerate().all(|(i, c)| if i % 5 == 4 { *c == b'-' } else { c.is_ascii_uppercase() || c.is_ascii_digit() })
}

#[test]
fn uid_has_four_groups_of_four() {
    for _ in 0..50 {
        let id = generate_zark_uid();
        assert!(is_uid(&id), "{}", id);
    }
}

#[test]
fn uids_vary() {
    let a = generate_zark_uid();
    let b = generate_zark_uid();
    let c = generate_zark_uid();
    assert!(a != b || b != c);
}

#[test]
fn new_message_keeps_topic_and_payload() {
    let m = Message::new("news".to_string(), vec![1, 2]);
    assert_eq!(m.topic, "news");
    assert_eq!(m.payload, vec![1, 2]);
    assert!(is_uid(&m.id));
}
