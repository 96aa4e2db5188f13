//! Publishing core of a file-distribution node.
//!
//! A file is split into fixed-size chunks (`chunker`), the chunks are
//! digested and a Merkle tree is built over the digests (`merkle`); the root
//! of the tree is the file's content identifier, and every chunk gets a proof
//! that leads from it to the root (`file_processor`). A published file is
//! recorded in the store under its content identifier (`file_store`). The
//! request front-end (`grpc`) and the task supervisor (`server`) hold the
//! rules by which the node's services handle a publish request and are
//! started, cancelled and joined.

pub mod chunker;
pub mod file_processor;
pub mod file_store;
pub mod grpc;
pub mod merkle;
pub mod server;
pub mod text;
