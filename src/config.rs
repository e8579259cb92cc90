//! Plain configuration values.
use vstd::prelude::*;

verus! {

/// Bytes of the length prefix in front of every frame.
pub const FRAME_HEADER: usize = 4;

/// Smallest slot size a shared-memory mailbox accepts.
pub const MIN_MESSAGE_SIZE: usize = 64;

/// Which transport a messenger runs on.
#[derive(Debug, Clone, Copy, PartialEq, Eq)]
pub enum TransportType {
    /// Shared memory between sibling processes on one host.
    IPC,
    /// A length-framed byte stream between hosts.
    TCP,
}

/// Settings of a shared-memory mailbox.
#[derive(Debug, Clone)]
pub struct IpcConfig {
    /// Name under which peers find the region.
    pub shared_memory_name: String,
    /// Bytes per slot, length prefix included.
    pub max_message_size: usize,
    /// Number of slots.
    pub max_queue_size: usize,
    /// Size of the scratch buffers of the pool.
    pub max_buffer_size: usize,
}

impl IpcConfig {
    /// At least one slot, slots of at least the minimum size whose length a
    /// 4-byte prefix can state, and a region whose size fits in memory.
    pub open spec fn valid(&self) -> bool {
        &&& self.max_queue_size >= 1
        &&& MIN_MESSAGE_SIZE <= self.max_message_size <= u32::MAX
        &&& self.max_queue_size * self.max_message_size <= usize::MAX
    }
}

/// Settings of a stream connection.
#[derive(Debug, Clone)]
pub struct TcpConfig {
    pub host: String,
    pub port: u16,
    /// Largest frame body accepted, in bytes.
    pub max_message_size: usize,
}

/// Settings of a messenger: the transport and its settings.
#[derive(Debug, Clone)]
pub struct Config {
    pub transport_type: TransportType,
    pub ipc_config: Option<IpcConfig>,
    pub tcp_config: Option<TcpConfig>,
}

} // verus!
