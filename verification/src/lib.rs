//! Core of an optimistic-rollup fault-proof host and derivation pipeline.
//!
//! The crate has two tightly coupled halves. The preimage-oracle host side
//! ([`key`], [`kv`], [`hint`], [`wire`], [`fetcher`], [`server`]) serves a
//! client program with hints and preimage lookups over framed byte pipes,
//! backed by a key-value store whose non-local entries always match their
//! digests. The derivation side ([`provider`], [`l2`], [`driver`]) decodes
//! raw L1/L2 chain data behind bounded caches and drives a staged pipeline
//! that yields L2 block-building attributes, with reset on reorg or EOF;
//! [`scripted`] gives both driver capabilities deterministic in-memory
//! implementations for offline replay.
//!
//! Network, pipe and process plumbing lives outside this crate; everything
//! here is a deterministic function of the bytes and values handed in.

pub mod byteops;
pub mod types;
pub mod errors;
pub mod crypto;
pub mod key;
pub mod kv;
pub mod wire;
pub mod hint;
pub mod fetcher;
pub mod server;
pub mod provider;
pub mod l2;
pub mod driver;
pub mod scripted;
