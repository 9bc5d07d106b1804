//! The layout of SQLite's write-ahead log.

use vstd::prelude::*;

verus! {

/// Size of the WAL header in bytes.
pub const WAL_HEADER_SIZE: u64 = 32;

/// Size of the header of one WAL frame in bytes.
pub const WAL_FRAME_HEADER_SIZE: u64 = 24;

/// The size of a WAL of `page_n` frames.
pub open spec fn wal_size(page_size: int, page_n: int) -> int {
    WAL_HEADER_SIZE + (WAL_FRAME_HEADER_SIZE + page_size) * page_n
}

/// The size in bytes of a WAL that holds `page_n` pages.
pub fn calc_wal_size(page_size: u32, page_n: u32) -> (r: u64)
    requires
        wal_size(page_size as int, page_n as int) <= u64::MAX,
    ensures
        r == wal_size(page_size as int, page_n as int),
{
    proof {
        assert(0 <= (24 + page_size) * page_n) by (nonlinear_arith)
            requires
                0 <= page_size,
                0 <= page_n,
        ;
    }
    WAL_HEADER_SIZE + (WAL_FRAME_HEADER_SIZE + page_size as u64) * page_n as u64
}

/// A WAL of SQLite's largest pages, however many, has a size that fits.
pub proof fn lemma_wal_size_fits(page_size: u32, page_n: u32)
    requires
        page_size <= 65536,
    ensures
        wal_size(page_size as int, page_n as int) <= u64::MAX,
{
    assert((24 + page_size) * page_n <= (24 + 65536) * 0xFFFF_FFFF) by (nonlinear_arith)
        requires
            0 <= page_size <= 65536,
            0 <= page_n <= 0xFFFF_FFFF,
    ;
}

/// A WAL without frames is its header of 32 bytes, and each frame adds 24
/// bytes and a page.
pub proof fn lemma_wal_frames_add_up(page_size: u32, page_n: u32)
    ensures
        wal_size(page_size as int, 0) == 32,
        wal_size(page_size as int, page_n + 1) == wal_size(page_size as int, page_n as int) + 24
            + page_size,
{
    assert((24 + page_size) * 0 == 0) by (nonlinear_arith);
    assert((24 + page_size) * (page_n + 1) == (24 + page_size) * page_n + 24 + page_size)
        by (nonlinear_arith);
}

} // verus!
