//! The decision logic of an encrypted file system mount and of the enclave
//! pool manager that serves it, as verified functions on plain values.

pub mod bytes;
pub mod enclave;
pub mod error;
pub mod fs;
pub mod hex;
pub mod inode;
pub mod key;
pub mod pool;
pub mod queue;
pub mod server;
pub mod storage;
pub mod types;
