use zark_messenger::codec::{BinarySerializer, Serializable};
use zark_messenger::config::IpcConfig;
use zark_messenger::error::MessengerError;
use zark_messenger::ipc::{IpcTransport, MailboxState, SendStep};
use zark_messenger::message::Message;
use zark_messenger::pool::PoolAllocator;

fn config(max_message_size: usize, max_queue_size: usize) -> IpcConfig {
    IpcConfig {
        shared_memory_name: "test_region".to_string(),
        max_message_size,
        max_queue_size,
        max_buffer_size: 256,
    }
}

fn mailbox(max_message_size: usize, max_queue_size: usize) -> IpcTransport<BinarySerializer> {
    IpcTransport::new(config(max_message_size, max_queue_size), BinarySerializer, PoolAllocator::new(256)).unwrap()
}

fn msg(topic: &str, id: &str, payload: Vec<u8>) -> Message {
    Message { topic: topic.to_string(), id: id.to_string(), payload }
}

#[test]
fn single_round_trip() {
    let mut t = mailbox(1024, 16);
    let m = msg("t", "A", vec![1, 2, 3, 4, 5]);
    assert_eq!(t.try_send(&m).unwrap(), SendStep::Delivered);
    assert_eq!(t.try_receive().unwrap(), m);
}

#[test]
fn oversize_is_rejected_and_mailbox_stays_usable() {
    let mut t = mailbox(64, 4);
    let big = msg("t", "A", vec![0; 100]);
    let encoded = big.serialize().unwrap().len();
    assert_eq!(encoded, 114);
    match t.try_send(&big) {
        Err(MessengerError::MessageTooLarge(actual, max)) => {
            assert_eq!(actual, encoded);
            assert_eq!(max, 64);
        },
        other => panic!("unexpected {:?}", other),
    }
    assert_eq!(t.pending_count(), 0);
    let small = msg("t", "A", vec![7; 10]);
    assert_eq!(t.try_send(&small).unwrap(), SendStep::Delivered);
    assert_eq!(t.try_receive().unwrap(), small);
}

#[test]
fn frame_that_fills_a_slot_exactly_fits() {
    let mut t = mailbox(64, 1);
    // 4 + 1 + 4 + 1 + 4 + 46 = 60 bytes of codec output, 64 with the prefix
    let m = msg("t", "A", vec![3; 46]);
    assert_eq!(t.try_send(&m).unwrap(), SendStep::Delivered);
    assert_eq!(t.try_receive().unwrap(), m);
    let one_more = msg("t", "A", vec![3; 47]);
    assert!(matches!(t.try_send(&one_more), Err(MessengerError::MessageTooLarge(61, 64))));
}

#[test]
fn full_mailbox_waits_then_completes() {
    let mut t = mailbox(128, 2);
    let m1 = msg("t", "1", vec![1]);
    let m2 = msg("t", "2", vec![2]);
    let m3 = msg("t", "3", vec![3]);
    assert_eq!(t.try_send(&m1).unwrap(), SendStep::Delivered);
    assert_eq!(t.try_send(&m2).unwrap(), SendStep::Delivered);
    assert_eq!(t.try_send(&m3).unwrap(), SendStep::WaitForSlot);
    assert_eq!(t.pending_count(), 2);
    assert_eq!(t.try_receive().unwrap(), m1);
    assert_eq!(t.try_send(&m3).unwrap(), SendStep::Delivered);
    assert_eq!(t.try_receive().unwrap(), m2);
    assert_eq!(t.try_receive().unwrap(), m3);
    assert!(matches!(t.try_receive(), Err(MessengerError::NoMessagesAvailable)));
}

#[test]
fn received_in_send_order() {
    let mut t = mailbox(256, 8);
    let sent: Vec<Message> = (0..8u8).map(|i| msg("order", &format!("{}", i), vec![i; i as usize])).collect();
    for m in &sent {
        assert_eq!(t.try_send(m).unwrap(), SendStep::Delivered);
    }
    for m in &sent {
        assert_eq!(&t.try_receive().unwrap(), m);
    }
}

#[test]
fn cleanup_during_idle_drops_first_batch() {
    let mut t = mailbox(256, 8);
    for i in 0..3u8 {
        assert_eq!(t.try_send(&msg("old", "x", vec![i])).unwrap(), SendStep::Delivered);
    }
    let epoch = t.current_epoch();
    assert!(t.cleanup().is_ok());
    assert_ne!(t.current_epoch(), epoch);
    assert_eq!(t.pending_count(), 0);
    let second: Vec<Message> = (0..3u8).map(|i| msg("new", "y", vec![i, i])).collect();
    for m in &second {
        assert_eq!(t.try_send(m).unwrap(), SendStep::Delivered);
    }
    for m in &second {
        assert_eq!(&t.try_receive().unwrap(), m);
    }
    assert!(matches!(t.try_receive(), Err(MessengerError::NoMessagesAvailable)));
}

#[test]
fn cleanup_twice_then_fill_every_slot() {
    let mut t = mailbox(128, 3);
    assert!(t.cleanup().is_ok());
    assert!(t.cleanup().is_ok());
    for i in 0..3u8 {
        assert_eq!(t.try_send(&msg("t", "i", vec![i])).unwrap(), SendStep::Delivered);
    }
    assert_eq!(t.try_send(&msg("t", "i", vec![9])).unwrap(), SendStep::WaitForSlot);
}

#[test]
fn draining_refuses_sends_and_delivers_committed() {
    let mut t = mailbox(128, 4);
    let m = msg("t", "d", vec![1, 2]);
    t.try_send(&m).unwrap();
    t.drain();
    assert_eq!(t.current_state(), MailboxState::Draining);
    assert!(matches!(t.try_send(&m), Err(MessengerError::NoFreeSlots)));
    assert_eq!(t.try_receive().unwrap(), m);
    assert!(matches!(t.try_receive(), Err(MessengerError::NoMessagesAvailable)));
}

#[test]
fn closed_mailbox_refuses_everything() {
    let mut t = mailbox(128, 4);
    t.try_send(&msg("t", "c", vec![])).unwrap();
    assert!(t.close().is_ok());
    assert!(t.close().is_ok());
    assert!(!t.is_ready());
    assert!(matches!(t.try_send(&msg("t", "c", vec![])), Err(MessengerError::ChannelClosed)));
    assert!(matches!(t.try_receive(), Err(MessengerError::ChannelClosed)));
    assert!(matches!(t.reconnect(), Err(MessengerError::ChannelClosed)));
    assert!(t.cleanup().is_ok());
    assert_eq!(t.current_state(), MailboxState::Closed);
}

#[test]
fn open_mailbox_is_ready() {
    let t = mailbox(128, 4);
    assert!(t.is_ready());
    assert!(t.reconnect().is_ok());
    assert_eq!(t.max_message_size(), 128);
}

#[test]
fn invalid_configs_are_refused() {
    let bad = [config(128, 0), config(63, 4), config(usize::MAX / 2, 4), config(1usize << 33, 1), config(u32::MAX as usize, usize::MAX / 1000)];
    for c in bad {
        assert!(matches!(
            IpcTransport::new(c, BinarySerializer, PoolAllocator::new(16)),
            Err(MessengerError::ConfigError(_))
        ));
    }
    assert!(IpcTransport::new(config(64, 1), BinarySerializer, PoolAllocator::new(16)).is_ok());
}

#[test]
fn single_slot_handshake() {
    let mut t = mailbox(64, 1);
    for i in 0..5u8 {
        let m = msg("h", "s", vec![i]);
        assert_eq!(t.try_send(&m).unwrap(), SendStep::Delivered);
        assert_eq!(t.try_send(&m).unwrap(), SendStep::WaitForSlot);
        assert_eq!(t.try_receive().unwrap(), m);
    }
}
