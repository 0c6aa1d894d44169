//! The rules of a notes directory: which note a request means, what a new
//! note holds, how the directory is listed, and what a command line asks
//! for. Nothing here reads the clock's date but `resolve::resolve_note`, and
//! nothing here touches a file.

pub mod chars;
pub mod cli;
pub mod init;
pub mod resolve;
pub mod store;
pub mod title;
pub mod tree;
pub mod tree_laws;
