//! Submission boundary between a UTXO transaction engine and a consensus
//! layer: hex transactions are decoded and framed, their identity is derived,
//! and each request is taken through a dry run or a commit broadcast.

pub mod codec;
pub mod digits;
pub mod engine;
pub mod error;
pub mod frame;
pub mod identity;
pub mod receipt;
pub mod relay;
pub mod service;
