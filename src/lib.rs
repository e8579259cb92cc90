//! In-process messaging over a bounded shared-memory mailbox or a
//! length-framed byte stream, with the codec, lanes, channel and pools that
//! those transports sit on.

pub mod bytes;
pub mod error;
pub mod message;
pub mod codec;
pub mod config;
pub mod channel;
pub mod queue;
pub mod pool;
pub mod ipc;
pub mod stream;
pub mod allocator;
pub mod waiter;
