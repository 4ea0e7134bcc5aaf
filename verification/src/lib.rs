//! Fetch engine and file assembler for NZB downloads.
//!
//! The library holds the rules of the engine as verified functions on plain
//! values: the yEnc codec, the framing of NNTP replies, the layout of a file's
//! segments on disk, the order and size of the work handed to connections, and
//! the accounting that turns segment outcomes into a per-file result.
//! Sockets, files and the terminal belong to the program built around it.

pub mod accounting;
pub mod assembly;
pub mod cli;
pub mod config;
pub mod connection;
pub mod downloader;
pub mod error;
pub mod layout;
pub mod nzb;
pub mod pipeline;
pub mod pool;
pub mod processing;
pub mod progress;
pub mod protocol;
pub mod schedule;
pub mod text;
pub mod wrappers;
pub mod writer;
pub mod yenc;
