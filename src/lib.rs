//! Republishes a fragmented ISO-BMFF byte stream as prioritized transport
//! groups, and derives a catalog of the available representations.
//!
//! Every item here is plain data and logic: the transport writes are handed
//! out as [`track::Action`] values for the caller to perform.
pub mod boxes;
pub mod catalog;
pub mod chunk;
pub mod codec;
pub mod decode;
pub mod error;
pub mod fragment;
pub mod helper;
pub mod limiter;
pub mod publisher;
pub mod settings;
pub mod setup;
pub mod track;
pub mod nesting;
