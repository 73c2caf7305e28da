//! A small content-addressed file-hosting core: upload policy enforcement
//! (token, extension gate, streaming size cap), identifier derivation by
//! incremental hashing and hash compaction, and a storage model with the
//! retrieval and deletion contracts.

pub mod args;
pub mod config;
pub mod deletion;
pub mod extension;
pub mod hashing;
pub mod ident;
pub mod numfmt;
pub mod pipeline;
pub mod policy;
pub mod retrieval;
pub mod storage;
pub mod strutil;
pub mod util;
