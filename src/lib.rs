//! A small peer-to-peer ledger node: a hash-linked chain of blocks with
//! proof-of-work, a pool of pending transactions, a registry of peers, and the
//! decisions a node takes on requests, replies and operator commands.

pub mod encoding;
pub mod hashing;
pub mod laws;
pub mod blockchain;
pub mod command;
pub mod message;
pub mod node;
pub mod peer;
