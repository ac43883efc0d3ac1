//! Bridge between a replication message layer and a connection-oriented
//! transport with typed channels.
//!
//! The message layer queues opaque payloads per client and channel and has
//! no opinion on how they travel. The transport moves payloads over
//! connections with unreliable, unordered reliable and ordered reliable
//! channels, and has a connection lifecycle and counters of its own. The
//! bridge configures the transport's channels, keeps the two identity
//! systems in step, follows the lifecycle, relays the payloads in order and
//! samples the statistics.
//!
//! The library holds the decisions and the state; it performs no I/O. A host
//! drives it once per tick: it tells the bridge what the transport reports,
//! and carries out what the bridge answers.

pub mod channels;
pub mod client;
pub mod identity;
pub mod lifecycle;
pub mod relay;
pub mod server;
pub mod stats;

pub use channels::ChannelsConfigurationExt;
pub use client::RepliconQuinnetClientPlugin;
pub use server::RepliconQuinnetServerPlugin;
pub use stats::BYTES_PER_SEC_PERIOD_NANOS;
