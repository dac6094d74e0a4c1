//! A file server core that gives access to files while they are still being uploaded.

pub mod blocks;
pub mod channel;
pub mod handlers;
pub mod headers;
pub mod laws;
pub mod numbers;
pub mod paths;
pub mod status;
pub mod trie;
pub mod upload;
pub mod video_store;
