//! Core engine of an agent-centric, content-addressed DHT.
//!
//! Each agent writes an append-only source chain of signed actions; every
//! action is transformed into a set of DHT operations, each stored by the
//! authorities whose arc covers the op's basis location.  The modules here
//! cover the self-describing hash codec, the chain invariants, the op
//! derivation rules, the quantized arc-resizing strategy, the region
//! fingerprints used for historical gossip reconciliation, the store and
//! validation pipeline, the op transport framing, and the request
//! options of the network facade.

pub mod bytes;
pub mod hashing;
pub mod hash;
pub mod action;
pub mod ops;
pub mod chain;
pub mod spacetime;
pub mod arq;
pub mod actor;
pub mod bootstrap;
pub mod activity;
pub mod store;
pub mod validation;
pub mod region;
pub mod chain_cas;
pub mod entry_def;
pub mod publish;
pub mod frame;
