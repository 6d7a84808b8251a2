//! Per-channel delivery engine: senders, receivers, the container that pairs
//! them according to a channel's mode, the registry of channel kinds, and the
//! routing of packets to the channels of a connection.

pub mod channel;
pub mod container;
pub mod error;
pub mod laws;
pub mod receivers;
pub mod registry;
pub mod senders;
pub mod sequence;
pub mod set;
pub mod settings;
