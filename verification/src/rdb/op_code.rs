//! The bytes that open a section of a snapshot.

use vstd::prelude::*;

verus! {

/// Metadata: a key string and a value string follow.
pub const AUX: u8 = 0xFA;

/// Sizes of a database's tables; the database's entries follow.
pub const RESIZEDB: u8 = 0xFB;

/// An expiry in milliseconds, for the next entry.
pub const EXPIRETIME_MS: u8 = 0xFC;

/// An expiry in seconds, for the next entry.
pub const EXPIRETIME: u8 = 0xFD;

/// The index of a database follows.
pub const SELECTDB: u8 = 0xFE;

/// The end of the snapshot.
pub const EOF: u8 = 0xFF;

} // verus!
