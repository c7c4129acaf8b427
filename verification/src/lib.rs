//! A verified implementation of the IBC-union channel and packet state
//! machine: clients, connection and channel handshakes, and the
//! content-addressed packet lifecycle (send, receive, acknowledge, timeout,
//! batching) over an append-only commitment store.

pub mod bob;
pub mod bytes;
pub mod client;
pub mod cometbls;
pub mod cosmos;
pub mod dispatch;
pub mod handshake;
pub mod hashing;
pub mod host;
pub mod keys;
pub mod laws;
pub mod lens;
pub mod msgs;
pub mod packet;
pub mod sort;
pub mod store;
pub mod sui;
pub mod types;
