//! An in-memory key-value store that speaks a Redis-compatible wire protocol:
//! request decoding, command classification, the store with per-entry expiry,
//! the binary snapshot decoder, and reply encoding.

pub mod config;
pub mod database;
pub mod endian;
pub mod expiry;
pub mod framing;
pub mod number;
pub mod process;
pub mod rdb;
pub mod redis_message;
pub mod text;
