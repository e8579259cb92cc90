use zark_messenger::codec::{BinarySerializer, Serializable};
use zark_messenger::config::TcpConfig;
use zark_messenger::error::MessengerError;
use zark_messenger::message::Message;
use zark_messenger::stream::{encode_frame, parse_frame_header, FrameDecoder, StreamSession, StreamState};

fn tcp(max: usize) -> TcpConfig {
    TcpConfig { host: "127.0.0.1".to_string(), port: 9000, max_message_size: max }
}

fn msg(topic: &str, id: &str, payload: Vec<u8>) -> Message {
    Message { topic: topic.to_string(), id: id.to_string(), payload }
}

fn connected_pair(max: usize) -> (StreamSession<BinarySerializer>, StreamSession<BinarySerializer>) {
    let client = StreamSession::new_client(tcp(max), BinarySerializer);
    let mut server = StreamSession::new_server(tcp(max), BinarySerializer);
    assert!(server.check_accept().is_ok());
    server.on_connected();
    (client, server)
}

#[test]
fn frame_is_big_endian_length_then_body() {
    assert_eq!(encode_frame(&[9, 8, 7], 10).unwrap(), vec![0, 0, 0, 3, 9, 8, 7]);
    assert_eq!(encode_frame(&[0; 300], 300).unwrap()[..4], [0, 0, 1, 44]);
    assert!(matches!(encode_frame(&[0; 11], 10), Err(MessengerError::MessageTooLarge(11, 10))));
    assert_eq!(parse_frame_header(&[0, 0, 1, 0], 256).unwrap(), 256);
    assert!(matches!(parse_frame_header(&[0, 0, 1, 1], 256), Err(MessengerError::MessageTooLarge(257, 256))));
}

#[test]
fn decoder_reassembles_split_reads() {
    let mut d = FrameDecoder::new(100);
    let mut wire = encode_frame(&[1, 2, 3], 100).unwrap();
    wire.extend(encode_frame(&[4], 100).unwrap());
    for b in &wire[..5] {
        assert_eq!(d.next_frame().unwrap(), None);
        d.push(&[*b]);
    }
    assert_eq!(d.next_frame().unwrap(), None);
    d.push(&wire[5..]);
    assert_eq!(d.next_frame().unwrap(), Some(vec![1, 2, 3]));
    assert_eq!(d.next_frame().unwrap(), Some(vec![4]));
    assert_eq!(d.next_frame().unwrap(), None);
    assert!(!d.mid_frame());
}

#[test]
fn stream_round_trip_thousand_messages() {
    let max = 2048;
    let (client, mut server) = connected_pair(max);
    let mut sent = Vec::new();
    let mut wire = Vec::new();
    for i in 0..1000usize {
        // codec output is 4 + 5 + 4 + id + 4 + payload bytes
        let id = format!("{}", i);
        let room = max - 17 - id.len();
        let m = msg("topic", &id, vec![(i % 251) as u8; (i * 37) % (room + 1)]);
        if i == 999 {
            let m = msg("topic", &id, vec![1; room]);
            assert_eq!(m.serialize().unwrap().len(), max);
        }
        wire.extend(client.prepare_send(&m).unwrap());
        sent.push(m);
    }
    let mut received = Vec::new();
    let mut at = 0;
    let mut step = 1;
    while at < wire.len() {
        let end = usize::min(at + step, wire.len());
        server.on_bytes(&wire[at..end]);
        at = end;
        step = step % 997 + 13;
        while let Some(m) = server.poll_message().unwrap() {
            received.push(m);
        }
    }
    assert_eq!(received.len(), 1000);
    assert_eq!(received, sent);
}

#[test]
fn stream_oversize_send_is_refused() {
    let (client, _server) = connected_pair(64);
    let m = msg("t", "A", vec![0; 100]);
    assert!(matches!(client.prepare_send(&m), Err(MessengerError::MessageTooLarge(114, 64))));
}

#[test]
fn oversize_header_disconnects_receiver() {
    let (_client, mut server) = connected_pair(16);
    server.on_bytes(&[0, 0, 0, 17]);
    assert!(matches!(server.poll_message(), Err(MessengerError::MessageTooLarge(17, 16))));
    assert!(!server.is_ready());
    assert_eq!(server.current_state(), StreamState::Disconnected);
}

#[test]
fn mid_frame_disconnect_then_reconnect() {
    let (mut client, mut server) = connected_pair(256);
    let m = msg("t", "A", vec![1, 2, 3]);
    let frame = client.prepare_send(&m).unwrap();
    server.on_bytes(&frame[..4]);
    assert_eq!(server.poll_message().unwrap(), None);
    let err = server.on_disconnect();
    assert!(matches!(err, MessengerError::TransportError(_)));
    assert!(!server.is_ready());
    assert!(matches!(server.poll_message(), Err(MessengerError::TransportError(_))));
    let _ = client.on_disconnect();
    assert!(matches!(client.prepare_send(&m), Err(MessengerError::TransportError(_))));
    assert!(client.check_reconnect().is_ok());
    client.on_connected();
    assert!(server.check_reconnect().is_ok());
    server.on_connected();
    assert!(server.is_ready());
    server.on_bytes(&client.prepare_send(&m).unwrap());
    assert_eq!(server.poll_message().unwrap(), Some(m));
}

#[test]
fn accept_only_once_and_only_on_a_server() {
    let (client, mut server) = connected_pair(64);
    assert!(matches!(server.check_accept(), Err(MessengerError::TransportError(_))));
    assert!(matches!(client.check_accept(), Err(MessengerError::TransportError(_))));
    let listener = StreamSession::new_server(tcp(64), BinarySerializer);
    assert!(!listener.is_ready());
    assert!(matches!(listener.prepare_send(&msg("t", "A", vec![])), Err(MessengerError::TransportError(_))));
    server.close();
    assert!(matches!(server.check_accept(), Err(MessengerError::ChannelClosed)));
    assert!(matches!(server.check_reconnect(), Err(MessengerError::ChannelClosed)));
    server.on_connected();
    assert_eq!(server.current_state(), StreamState::Closed);
}

#[test]
fn corrupt_body_is_a_decoding_error() {
    let (_client, mut server) = connected_pair(64);
    server.on_bytes(&[0, 0, 0, 2, 9, 9]);
    assert!(matches!(server.poll_message(), Err(MessengerError::Deserialization(_))));
    assert!(server.is_ready());
}
