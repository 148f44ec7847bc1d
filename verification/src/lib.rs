//! Client-side logic for a remote content-addressable store: content
//! digests, streamed write chunking, resource naming, transfer
//! verification under a retry envelope, and a registry of build rules.

pub mod bytetext;
pub mod digest;
pub mod chunk;
pub mod proto;
pub mod store;
pub mod tasks;
