//! Codec for LTX (Liteserver Transaction) files.
//!
//! File layout:
//!
//! ```text
//! [Header: 100 bytes]
//! [Page frame]*                    6-byte page header + one LZ4 frame per page
//! [End-of-pages marker]            6 zero bytes (an all-zero page header)
//! [Page index]                     uvarint (pgno, offset, size) tuples + uvarint 0
//! [Page index size: u64 BE]        length of the index excluding this field
//! [Trailer: 16 bytes]              post-apply checksum + file checksum
//! ```
//!
//! All multi-byte integers are big-endian except inside LZ4 frames (which are
//! little-endian per the LZ4 frame format). Checksums have bit 63
//! (`CHECKSUM_FLAG`) forced on.

use vstd::prelude::*;

pub mod error;
pub mod lz4f;
pub mod types;

pub use error::Error;
pub use types::{
    format_filename, is_contiguous, is_valid_header_flags, is_valid_page_size, lock_pgno,
    parse_filename, Checksum, FileInfo, Header, PageHeader, Pos, Trailer, Txid,
};

verus! {

/// Result alias for this module.
pub type Result<T> = core::result::Result<T, Error>;

/// Magic bytes at the start of every LTX file.
pub const MAGIC: &'static [u8; 4] = &[0x4c, 0x54, 0x58, 0x31];

/// Current LTX format version. Implied by the magic; not stored in the file.
pub const VERSION: u32 = 3;

/// Size of the file header in bytes.
pub const HEADER_SIZE: usize = 100;

/// Size of a page header in bytes.
pub const PAGE_HEADER_SIZE: usize = 6;

/// Size of the file trailer in bytes.
pub const TRAILER_SIZE: usize = 16;

/// Size of a serialized checksum in bytes.
pub const CHECKSUM_SIZE: usize = 8;

/// Offset of the file checksum within the trailer.
pub const TRAILER_CHECKSUM_OFFSET: usize = TRAILER_SIZE - CHECKSUM_SIZE;

/// The bit that every present checksum carries.
pub const CHECKSUM_FLAG: u64 = 0x8000_0000_0000_0000;

/// Header flag: pre/post-apply checksums are not tracked in this file.
pub const HEADER_FLAG_NO_CHECKSUM: u32 = 2;

/// Mask of all valid header flags.
pub const HEADER_FLAG_MASK: u32 = HEADER_FLAG_NO_CHECKSUM;

/// Maximum allowed SQLite page size.
pub const MAX_PAGE_SIZE: u32 = 65536;

/// Byte offset of SQLite's locking region. The page containing this offset
/// (the "lock page") is never stored in an LTX file.
pub const PENDING_BYTE: u64 = 0x4000_0000;

} // verus!
