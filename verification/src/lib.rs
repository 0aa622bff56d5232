//! Listener side of a one-directional cross-chain bridge relayer.
//!
//! The library holds the verified core of the relayer: decoding of
//! `CrosschainTransferRequest` events, derivation of the request hash from
//! the canonical ABI encoding, the checkpoint rules of the block pipeline,
//! and the decision logic of its polling loops.  Chain RPC, the durable
//! store and the async runtime live outside the library and drive it.

pub mod abi;
pub mod contracts;
pub mod encoding;
pub mod errors;
pub mod events;
pub mod handler;
pub mod listener;
pub mod store;
