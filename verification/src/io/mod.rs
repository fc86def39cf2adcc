//! The rules of the transfer pipeline. A download runs a socket reader and
//! a disk writer joined by a bounded channel; an upload runs a disk reader
//! and a socket writer. A slow consumer fills the channel and so holds the
//! producer back.

pub mod bandwidth;
pub mod disk_reader;
pub mod reader;
pub mod writer;

pub use bandwidth::TokenBucket;
