use vstd::prelude::*;

verus! {

/// Failure kinds surfaced by the codec, the pools and the transports.
#[derive(Debug)]
pub enum MessengerError {
    /// Generic I/O or protocol violation, with a description.
    TransportError(String),
    /// A message could not be encoded.
    Serialization(String),
    /// A byte sequence could not be decoded into a message.
    Deserialization(String),
    /// A configuration value is out of range.
    ConfigError(String),
    /// A remote procedure call failed.
    RpcError(String),
    /// The encoded message has `actual` bytes, more than the `max` allowed.
    MessageTooLarge(usize, usize),
    /// Nothing is waiting to be received.
    NoMessagesAvailable,
    /// A frame's declared length runs past its slot.
    MemoryOverflow,
    /// No slot is free and the mailbox takes no more sends.
    NoFreeSlots,
    /// The hand-off channel or the transport is closed.
    ChannelClosed,
    /// A message that was looked up is not there.
    MessageNotFound,
    /// The memory budget is spent.
    MemoryUnavailable,
}

} // verus!
