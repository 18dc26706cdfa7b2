//! Building blocks of a solo Bitcoin miner: transaction and header serialization,
//! merkle roots, proof-of-work target checks and the SHA-256 midstate used by the
//! GPU search, each with its contract proved by Verus.

pub mod bytes;
pub mod coinbase;
pub mod config;
pub mod gpu_config;
pub mod gpu_mining;
pub mod hexcode;
pub mod merkle;
pub mod mining;
pub mod rpc;
pub mod sha256_host;
pub mod shared;
pub mod template;
