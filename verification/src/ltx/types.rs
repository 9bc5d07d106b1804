//! The frames of an LTX file and the values in them.

use std::time::SystemTime;

use vstd::arithmetic::power::pow;
use vstd::arithmetic::power2::pow2;
use vstd::prelude::*;
use vstd::string::*;

#[allow(unused_imports)]
use crate::bytes::{
    be_bytes, be_value, bits_i64, i64_bits, lemma_be_bytes_len, lemma_be_bytes_of_value,
    lemma_be_value_of_bytes, lemma_pow256_values,
};
use crate::bytes::{from_bits, push_be, read_be, read_be32, to_bits};
use crate::io::IoError;
#[allow(unused_imports)]
use crate::io::{eof_view, IoErrorKind, IoErrorView};
#[allow(unused_imports)]
use crate::ltx::error::{outcome, ErrorView};
use crate::ltx::{
    Error, Result, CHECKSUM_FLAG, HEADER_FLAG_MASK, HEADER_FLAG_NO_CHECKSUM, HEADER_SIZE, MAGIC,
    MAX_PAGE_SIZE, PAGE_HEADER_SIZE, PENDING_BYTE, TRAILER_SIZE,
};
#[allow(unused_imports)]
use crate::text::{
    all_hex, all_lower_hex, dec_text, hex_text, hex_value, int_text, is_hex_digit, is_lower_hex_digit,
    lemma_hex_text_len, lemma_hex_text_of_value, lemma_hex_value_of_text, lemma_pow16_values,
};
use crate::text::{parse_hex16, push_decimal, push_hex, push_signed};

verus! {

/// `std::time::SystemTime`, carried through as an opaque value.
#[verifier::external_type_specification]
#[verifier::external_body]
pub struct ExSystemTime(std::time::SystemTime);

/// A transaction ID. Written as 16 lowercase hexadecimal digits.
#[derive(Clone, Copy, PartialEq, Eq, PartialOrd, Ord, Hash, Debug, Structural)]
pub struct Txid(pub u64);

/// The number that `s` writes in 16 hexadecimal digits, in either case.
pub open spec fn hex16_parsed(s: Seq<char>) -> Option<u64> {
    if s.len() == 16 && all_hex(s) {
        Some(hex_value(s) as u64)
    } else {
        None
    }
}

impl Default for Txid {
    fn default() -> (r: Txid)
        ensures
            r == Txid(0),
    {
        Txid(0)
    }
}

impl Txid {
    /// The 16 lowercase hexadecimal digits of the ID.
    pub open spec fn text(self) -> Seq<char> {
        hex_text(self.0 as nat, 16)
    }

    /// What [`Txid::parse`] makes of `s`.
    pub open spec fn parsed(s: Seq<char>) -> Option<Txid> {
        match hex16_parsed(s) {
            Some(v) => Some(Txid(v)),
            None => None,
        }
    }

    pub fn is_zero(self) -> (r: bool)
        ensures
            r == (self.0 == 0),
    {
        self.0 == 0
    }

    /// Parses a 16-character hex string. A sign is no digit.
    pub fn parse(s: &str) -> (r: Option<Txid>)
        ensures
            r == Txid::parsed(s@),
    {
        if s.unicode_len() != 16 {
            return None;
        }
        assert(s@.subrange(0, 16) =~= s@);
        match parse_hex16(s, 0) {
            Some(v) => Some(Txid(v)),
            None => None,
        }
    }

    /// The 16 lowercase hexadecimal digits of the ID.
    pub fn to_string(&self) -> (s: String)
        ensures
            s@ == self.text(),
    {
        let mut s = String::new();
        push_hex(&mut s, self.0, 16);
        assert(s@ =~= self.text());
        s
    }
}

/// A checksum of the format. Zero stands for an absent one; a present one has
/// [`CHECKSUM_FLAG`] set. Written as 16 lowercase hexadecimal digits.
#[derive(Clone, Copy, PartialEq, Eq, PartialOrd, Ord, Hash, Debug, Structural)]
pub struct Checksum(pub u64);

impl Default for Checksum {
    fn default() -> (r: Checksum)
        ensures
            r == Checksum(0),
    {
        Checksum(0)
    }
}

impl Checksum {
    /// The 16 lowercase hexadecimal digits of the checksum.
    pub open spec fn text(self) -> Seq<char> {
        hex_text(self.0 as nat, 16)
    }

    /// What [`Checksum::parse`] makes of `s`.
    pub open spec fn parsed(s: Seq<char>) -> Option<Checksum> {
        match hex16_parsed(s) {
            Some(v) => Some(Checksum(v)),
            None => None,
        }
    }

    /// Whether the checksum is absent.
    pub fn is_zero(self) -> (r: bool)
        ensures
            r == (self.0 == 0),
    {
        self.0 == 0
    }

    /// Whether bit 63 is set.
    pub fn is_flagged(self) -> (r: bool)
        ensures
            r == (self.0 >= CHECKSUM_FLAG),
    {
        self.0 >= CHECKSUM_FLAG
    }

    /// Parses a 16-character hex string.
    pub fn parse(s: &str) -> (r: Option<Checksum>)
        ensures
            r == Checksum::parsed(s@),
    {
        if s.unicode_len() != 16 {
            return None;
        }
        assert(s@.subrange(0, 16) =~= s@);
        match parse_hex16(s, 0) {
            Some(v) => Some(Checksum(v)),
            None => None,
        }
    }

    /// The 16 lowercase hexadecimal digits of the checksum.
    pub fn to_string(&self) -> (s: String)
        ensures
            s@ == self.text(),
    {
        let mut s = String::new();
        push_hex(&mut s, self.0, 16);
        assert(s@ =~= self.text());
        s
    }
}

/// The transactional position of a database: TXID + rolling checksum.
#[derive(Clone, Copy, PartialEq, Eq, Debug, Structural)]
pub struct Pos {
    pub txid: Txid,
    pub post_apply_checksum: Checksum,
}

impl Default for Pos {
    fn default() -> (r: Pos)
        ensures
            r == (Pos { txid: Txid(0), post_apply_checksum: Checksum(0) }),
    {
        Pos { txid: Txid(0), post_apply_checksum: Checksum(0) }
    }
}

impl Pos {
    /// The 33-character `txid/checksum` form.
    pub open spec fn text(self) -> Seq<char> {
        self.txid.text().push('/') + self.post_apply_checksum.text()
    }

    /// What [`Pos::parse`] makes of `s`.
    pub open spec fn parsed(s: Seq<char>) -> Option<Pos> {
        if s.len() != 33 || s[16] != '/' {
            None
        } else {
            match (Txid::parsed(s.subrange(0, 16)), Checksum::parsed(s.subrange(17, 33))) {
                (Some(txid), Some(post_apply_checksum)) => Some(Pos { txid, post_apply_checksum }),
                _ => None,
            }
        }
    }

    pub fn new(txid: Txid, post_apply_checksum: Checksum) -> (r: Pos)
        ensures
            r == (Pos { txid, post_apply_checksum }),
    {
        Pos { txid, post_apply_checksum }
    }

    pub fn is_zero(self) -> (r: bool)
        ensures
            r == (self.txid.0 == 0 && self.post_apply_checksum.0 == 0),
    {
        self == Pos::default()
    }

    /// Parses the 33-character `txid/checksum` form.
    pub fn parse(s: &str) -> (r: Option<Pos>)
        ensures
            r == Pos::parsed(s@),
    {
        if s.unicode_len() != 33 || s.get_char(16) != '/' {
            return None;
        }
        assert(s@.subrange(0, 16).len() == 16);
        assert(s@.subrange(17, 33).len() == 16);
        match (parse_hex16(s, 0), parse_hex16(s, 17)) {
            (Some(t), Some(c)) => Some(Pos { txid: Txid(t), post_apply_checksum: Checksum(c) }),
            _ => None,
        }
    }

    /// The 33-character `txid/checksum` form.
    pub fn to_string(&self) -> (s: String)
        ensures
            s@ == self.text(),
    {
        let mut s = String::new();
        push_hex(&mut s, self.txid.0, 16);
        s.push('/');
        push_hex(&mut s, self.post_apply_checksum.0, 16);
        assert(s@ =~= self.text());
        s
    }
}

/// A power of two between 512 and 64K.
pub open spec fn page_size_ok(sz: u32) -> bool {
    exists|k: nat| 9 <= k <= 16 && sz == #[trigger] pow2(k)
}

/// Returns true if `sz` is a power of two between 512 and 64K.
pub fn is_valid_page_size(sz: u32) -> (r: bool)
    ensures
        r == page_size_ok(sz),
{
    let r = sz == 512 || sz == 1024 || sz == 2048 || sz == 4096 || sz == 8192 || sz == 16384 || sz
        == 32768 || sz == MAX_PAGE_SIZE;
    proof {
        vstd::arithmetic::power2::lemma2_to64();
        if page_size_ok(sz) {
            let k = choose|k: nat| 9 <= k <= 16 && sz == #[trigger] pow2(k);
            assert(k == 9 || k == 10 || k == 11 || k == 12 || k == 13 || k == 14 || k == 15 || k == 16);
        }
    }
    r
}

/// Returns true unless flags outside the valid mask are set.
pub fn is_valid_header_flags(flags: u32) -> (r: bool)
    ensures
        r == (flags == 0 || flags == HEADER_FLAG_NO_CHECKSUM),
{
    assert(flags == flags & 2 <==> flags == 0 || flags == 2) by (bit_vector);
    flags == flags & HEADER_FLAG_MASK
}

/// The page number containing SQLite's PENDING_BYTE locking region.
pub open spec fn lock_page(page_size: int) -> int {
    PENDING_BYTE as int / page_size + 1
}

/// The page number containing SQLite's PENDING_BYTE locking region.
/// Never stored in an LTX file; only reachable when the DB is ≥1GiB.
pub fn lock_pgno(page_size: u32) -> (r: u32)
    requires
        page_size > 0,
    ensures
        r == lock_page(page_size as int),
{
    proof {
        vstd::arithmetic::div_mod::lemma_div_is_ordered_by_denominator(PENDING_BYTE as int, 1, page_size as int);
        vstd::arithmetic::div_mod::lemma_div_pos_is_pos(PENDING_BYTE as int, page_size as int);
    }
    (PENDING_BYTE / page_size as u64) as u32 + 1
}

/// `v + 1`, with the largest ID followed by zero.
pub open spec fn txid_after(v: Txid) -> int {
    if v.0 == u64::MAX {
        0
    } else {
        v.0 + 1
    }
}

/// The ID before `v`, with zero preceded by the largest one.
pub open spec fn txid_before(v: Txid) -> Txid {
    if v.0 == 0 {
        Txid(u64::MAX)
    } else {
        Txid((v.0 - 1) as u64)
    }
}

/// Whether `[min, max]` starts no later than right after `prev` and ends
/// behind it.
pub open spec fn contiguous(prev: Txid, min: Txid, max: Txid) -> bool {
    min.0 <= txid_after(prev) && max.0 > prev.0
}

/// Returns true if the transaction range `[min_txid, max_txid]` is contiguous
/// with (or overlapping-but-extending) a database at `prev_max_txid`.
/// The addition wraps at `prev = u64::MAX`.
pub fn is_contiguous(prev_max_txid: Txid, min_txid: Txid, max_txid: Txid) -> (r: bool)
    ensures
        r == contiguous(prev_max_txid, min_txid, max_txid),
{
    min_txid.0 <= prev_max_txid.0.wrapping_add(1) && max_txid.0 > prev_max_txid.0
}

/// The file name of the transactions `min` to `max`.
pub open spec fn filename_text(min: Txid, max: Txid) -> Seq<char> {
    min.text().push('-') + max.text() + ".ltx"@
}

/// What [`parse_filename`] makes of `name`.
pub open spec fn filename_parsed(name: Seq<char>) -> Option<(Txid, Txid)> {
    if name.len() == 37 && all_lower_hex(name.subrange(0, 16)) && name[16] == '-' && all_lower_hex(
        name.subrange(17, 33),
    ) && name.subrange(33, 37) == ".ltx"@ {
        Some(
            (
                Txid(hex_value(name.subrange(0, 16)) as u64),
                Txid(hex_value(name.subrange(17, 33)) as u64),
            ),
        )
    } else {
        None
    }
}

/// Formats an LTX filename: two 16-digit IDs, as in
/// `000000000000000d-0000000000010000.ltx`.
pub fn format_filename(min_txid: Txid, max_txid: Txid) -> (s: String)
    ensures
        s@ == filename_text(min_txid, max_txid),
{
    let mut s = String::new();
    push_hex(&mut s, min_txid.0, 16);
    s.push('-');
    push_hex(&mut s, max_txid.0, 16);
    s.append(".ltx");
    assert(s@ =~= filename_text(min_txid, max_txid));
    s
}

/// Whether the 16 characters of `s` from index `from` are lowercase digits.
fn lower_hex16(s: &str, from: usize) -> (r: bool)
    requires
        from + 16 <= s@.len(),
        from < 64,
    ensures
        r == all_lower_hex(s@.subrange(from as int, from + 16)),
{
    let ghost part = s@.subrange(from as int, from + 16);
    let mut i: usize = 0;
    while i < 16
        invariant
            i <= 16,
            from < 64,
            from + 16 <= s@.len(),
            part == s@.subrange(from as int, from + 16),
            all_lower_hex(part.take(i as int)),
        decreases 16 - i,
    {
        let c = s.get_char(from + i);
        assert(c == part[i as int]);
        if !(('0' <= c && c <= '9') || ('a' <= c && c <= 'f')) {
            return false;
        }
        proof {
            let next = part.take(i + 1);
            assert forall|j: int| 0 <= j < next.len() implies is_lower_hex_digit(#[trigger] next[j]) by {
                if j < i {
                    assert(next[j] == part.take(i as int)[j]);
                }
            }
        }
        i = i + 1;
    }
    assert(part.take(16) =~= part);
    true
}

/// Parses an LTX filename as [`format_filename`] writes it.
pub fn parse_filename(name: &str) -> (r: Option<(Txid, Txid)>)
    ensures
        r == filename_parsed(name@),
{
    if name.unicode_len() != 37 {
        return None;
    }
    proof {
        reveal_strlit(".ltx");
    }
    if !(name.get_char(33) == '.' && name.get_char(34) == 'l' && name.get_char(35) == 't'
        && name.get_char(36) == 'x') {
        assert(name@.subrange(33, 37)[0] == name@[33]);
        assert(name@.subrange(33, 37)[1] == name@[34]);
        assert(name@.subrange(33, 37)[2] == name@[35]);
        assert(name@.subrange(33, 37)[3] == name@[36]);
        return None;
    }
    assert(name@.subrange(33, 37) =~= ".ltx"@);
    if name.get_char(16) != '-' {
        return None;
    }
    if !lower_hex16(name, 0) || !lower_hex16(name, 17) {
        return None;
    }
    assert(all_hex(name@.subrange(0, 16)));
    assert(all_hex(name@.subrange(17, 33)));
    match (parse_hex16(name, 0), parse_hex16(name, 17)) {
        (Some(min), Some(max)) => Some((Txid(min), Txid(max))),
        _ => None,
    }
}

/// The header frame of an LTX file. 100 bytes on disk, big-endian.
#[derive(Clone, Copy, PartialEq, Eq, Debug, Structural)]
pub struct Header {
    pub flags: u32,
    pub page_size: u32,
    /// Database size in pages after this file is applied. 0 = deletion file.
    pub commit: u32,
    pub min_txid: Txid,
    pub max_txid: Txid,
    /// Milliseconds since the Unix epoch.
    pub timestamp: i64,
    /// Rolling database checksum before this file applies. Zero on snapshots
    /// and whenever `HEADER_FLAG_NO_CHECKSUM` is set.
    pub pre_apply_checksum: Checksum,
    /// Byte offset in the source WAL; zero if journal-derived or compacted.
    pub wal_offset: i64,
    /// Size of the source WAL segment; zero if journal-derived.
    pub wal_size: i64,
    pub wal_salt1: u32,
    pub wal_salt2: u32,
    /// Originating node; zero if unset. Dropped by compaction.
    pub node_id: u64,
}

impl Default for Header {
    fn default() -> (r: Header)
        ensures
            r == (Header {
                flags: 0,
                page_size: 0,
                commit: 0,
                min_txid: Txid(0),
                max_txid: Txid(0),
                timestamp: 0,
                pre_apply_checksum: Checksum(0),
                wal_offset: 0,
                wal_size: 0,
                wal_salt1: 0,
                wal_salt2: 0,
                node_id: 0,
            }),
    {
        Header {
            flags: 0,
            page_size: 0,
            commit: 0,
            min_txid: Txid(0),
            max_txid: Txid(0),
            timestamp: 0,
            pre_apply_checksum: Checksum(0),
            wal_offset: 0,
            wal_size: 0,
            wal_salt1: 0,
            wal_salt2: 0,
            node_id: 0,
        }
    }
}

impl Header {
    /// The rules that a valid header obeys. The first one broken names the
    /// error.
    pub open spec fn check(self) -> core::result::Result<(), ErrorView> {
        if !(self.flags == 0 || self.flags == HEADER_FLAG_NO_CHECKSUM) {
            Err(ErrorView::Invalid("invalid flags: 0x"@ + hex_text(self.flags as nat, 8)))
        } else if !page_size_ok(self.page_size) {
            Err(ErrorView::Invalid("invalid page size: "@ + dec_text(self.page_size as nat)))
        } else if self.min_txid.0 == 0 {
            Err(ErrorView::Invalid("minimum transaction id required"@))
        } else if self.max_txid.0 == 0 {
            Err(ErrorView::Invalid("maximum transaction id required"@))
        } else if self.min_txid.0 > self.max_txid.0 {
            Err(
                ErrorView::Invalid(
                    "transaction ids out of order: ("@ + dec_text(self.min_txid.0 as nat) + ","@
                        + dec_text(self.max_txid.0 as nat) + ")"@,
                ),
            )
        } else if self.wal_offset < 0 {
            Err(
                ErrorView::Invalid(
                    "wal offset cannot be negative: "@ + int_text(self.wal_offset as int),
                ),
            )
        } else if self.wal_size < 0 {
            Err(
                ErrorView::Invalid("wal size cannot be negative: "@ + int_text(self.wal_size as int)),
            )
        } else if (self.wal_salt1 != 0 || self.wal_salt2 != 0) && self.wal_offset == 0 {
            Err(ErrorView::Invalid("wal offset required if salt exists"@))
        } else if self.wal_offset == 0 && self.wal_size != 0 {
            Err(ErrorView::Invalid("wal offset required if wal size exists"@))
        } else if self.min_txid.0 == 1 {
            if self.pre_apply_checksum.0 != 0 {
                Err(ErrorView::Invalid("pre-apply checksum must be zero on snapshots"@))
            } else {
                Ok(())
            }
        } else if self.flags & HEADER_FLAG_NO_CHECKSUM != 0 {
            if self.pre_apply_checksum.0 != 0 {
                Err(ErrorView::Invalid("pre-apply checksum not allowed"@))
            } else {
                Ok(())
            }
        } else if self.pre_apply_checksum.0 == 0 {
            Err(ErrorView::Invalid("pre-apply checksum required on non-snapshot files"@))
        } else if self.pre_apply_checksum.0 < CHECKSUM_FLAG {
            Err(ErrorView::Invalid("invalid pre-apply checksum format"@))
        } else {
            Ok(())
        }
    }

    /// The 100-byte on-disk form; the last 20 bytes are reserved and zero.
    pub open spec fn bytes(self) -> Seq<u8> {
        MAGIC@ + be_bytes(self.flags as nat, 4) + be_bytes(self.page_size as nat, 4) + be_bytes(
            self.commit as nat,
            4,
        ) + be_bytes(self.min_txid.0 as nat, 8) + be_bytes(self.max_txid.0 as nat, 8) + be_bytes(
            i64_bits(self.timestamp),
            8,
        ) + be_bytes(self.pre_apply_checksum.0 as nat, 8) + be_bytes(i64_bits(self.wal_offset), 8)
            + be_bytes(i64_bits(self.wal_size), 8) + be_bytes(self.wal_salt1 as nat, 4) + be_bytes(
            self.wal_salt2 as nat,
            4,
        ) + be_bytes(self.node_id as nat, 8) + Seq::new(20, |i: int| 0u8)
    }

    /// The header whose on-disk form is `b`, when the magic is right.
    pub open spec fn from_bytes(b: Seq<u8>) -> Header {
        Header {
            flags: be_value(b.subrange(4, 8)) as u32,
            page_size: be_value(b.subrange(8, 12)) as u32,
            commit: be_value(b.subrange(12, 16)) as u32,
            min_txid: Txid(be_value(b.subrange(16, 24)) as u64),
            max_txid: Txid(be_value(b.subrange(24, 32)) as u64),
            timestamp: bits_i64(be_value(b.subrange(32, 40))) as i64,
            pre_apply_checksum: Checksum(be_value(b.subrange(40, 48)) as u64),
            wal_offset: bits_i64(be_value(b.subrange(48, 56))) as i64,
            wal_size: bits_i64(be_value(b.subrange(56, 64))) as i64,
            wal_salt1: be_value(b.subrange(64, 68)) as u32,
            wal_salt2: be_value(b.subrange(68, 72)) as u32,
            node_id: be_value(b.subrange(72, 80)) as u64,
        }
    }

    /// What [`Header::decode`] makes of `b`.
    pub open spec fn decoded(b: Seq<u8>) -> core::result::Result<Header, ErrorView> {
        if b.len() < HEADER_SIZE {
            Err(ErrorView::Io(eof_view("short header buffer"@)))
        } else if b.subrange(0, 4) != MAGIC@ {
            Err(ErrorView::InvalidFile)
        } else {
            Ok(Header::from_bytes(b))
        }
    }

    /// A snapshot contains every page of the database.
    pub fn is_snapshot(&self) -> (r: bool)
        ensures
            r == (self.min_txid.0 == 1),
    {
        self.min_txid.0 == 1
    }

    /// True if pre/post-apply checksums are not tracked.
    pub fn no_checksum(&self) -> (r: bool)
        ensures
            r == (self.flags & HEADER_FLAG_NO_CHECKSUM != 0),
    {
        self.flags & HEADER_FLAG_NO_CHECKSUM != 0
    }

    pub fn lock_pgno(&self) -> (r: u32)
        requires
            self.page_size > 0,
        ensures
            r == lock_page(self.page_size as int),
    {
        lock_pgno(self.page_size)
    }

    /// The database position required before applying this file. Wrapping:
    /// an (invalid) minimum TXID of 0 yields TXID u64::MAX.
    pub fn pre_apply_pos(&self) -> (r: Pos)
        ensures
            r == (Pos {
                txid: txid_before(self.min_txid),
                post_apply_checksum: self.pre_apply_checksum,
            }),
    {
        Pos {
            txid: Txid(self.min_txid.0.wrapping_sub(1)),
            post_apply_checksum: self.pre_apply_checksum,
        }
    }

    /// Checks the rules of a header, in order.
    pub fn validate(&self) -> (r: Result<()>)
        ensures
            outcome(r) == self.check(),
    {
        if !is_valid_header_flags(self.flags) {
            let mut m = String::from_str("invalid flags: 0x");
            push_hex(&mut m, self.flags as u64, 8);
            return Err(Error::Invalid(m));
        }
        if !is_valid_page_size(self.page_size) {
            let mut m = String::from_str("invalid page size: ");
            push_decimal(&mut m, self.page_size as u64);
            return Err(Error::Invalid(m));
        }
        if self.min_txid.is_zero() {
            return Err(Error::invalid("minimum transaction id required"));
        }
        if self.max_txid.is_zero() {
            return Err(Error::invalid("maximum transaction id required"));
        }
        if self.min_txid.0 > self.max_txid.0 {
            let mut m = String::from_str("transaction ids out of order: (");
            push_decimal(&mut m, self.min_txid.0);
            m.append(",");
            push_decimal(&mut m, self.max_txid.0);
            m.append(")");
            return Err(Error::Invalid(m));
        }
        if self.wal_offset < 0 {
            let mut m = String::from_str("wal offset cannot be negative: ");
            push_signed(&mut m, self.wal_offset);
            return Err(Error::Invalid(m));
        }
        if self.wal_size < 0 {
            let mut m = String::from_str("wal size cannot be negative: ");
            push_signed(&mut m, self.wal_size);
            return Err(Error::Invalid(m));
        }
        if (self.wal_salt1 != 0 || self.wal_salt2 != 0) && self.wal_offset == 0 {
            return Err(Error::invalid("wal offset required if salt exists"));
        }
        if self.wal_offset == 0 && self.wal_size != 0 {
            return Err(Error::invalid("wal offset required if wal size exists"));
        }
        if self.is_snapshot() {
            if !self.pre_apply_checksum.is_zero() {
                return Err(Error::invalid("pre-apply checksum must be zero on snapshots"));
            }
        } else if self.no_checksum() {
            if !self.pre_apply_checksum.is_zero() {
                return Err(Error::invalid("pre-apply checksum not allowed"));
            }
        } else {
            if self.pre_apply_checksum.is_zero() {
                return Err(Error::invalid("pre-apply checksum required on non-snapshot files"));
            }
            if !self.pre_apply_checksum.is_flagged() {
                return Err(Error::invalid("invalid pre-apply checksum format"));
            }
        }
        Ok(())
    }

    /// Encodes to the 100-byte on-disk form.
    pub fn encode(&self) -> (r: [u8; HEADER_SIZE])
        ensures
            r@ == self.bytes(),
    {
        let mut v: Vec<u8> = Vec::new();
        v.push(MAGIC[0]);
        v.push(MAGIC[1]);
        v.push(MAGIC[2]);
        v.push(MAGIC[3]);
        push_be(&mut v, self.flags as u64, 4);
        push_be(&mut v, self.page_size as u64, 4);
        push_be(&mut v, self.commit as u64, 4);
        push_be(&mut v, self.min_txid.0, 8);
        push_be(&mut v, self.max_txid.0, 8);
        push_be(&mut v, to_bits(self.timestamp), 8);
        push_be(&mut v, self.pre_apply_checksum.0, 8);
        push_be(&mut v, to_bits(self.wal_offset), 8);
        push_be(&mut v, to_bits(self.wal_size), 8);
        push_be(&mut v, self.wal_salt1 as u64, 4);
        push_be(&mut v, self.wal_salt2 as u64, 4);
        push_be(&mut v, self.node_id, 8);
        proof {
            self.lemma_bytes_parts();
            assert(v@ + Seq::new(20, |i: int| 0u8) =~= self.bytes());
        }
        let mut b: [u8; HEADER_SIZE] = [0; 100];
        let mut i: usize = 0;
        while i < 80
            invariant
                i <= 80,
                v@.len() == 80,
                b@.len() == 100,
                forall|j: int| 0 <= j < i ==> b@[j] == v@[j],
                forall|j: int| i <= j < 100 ==> b@[j] == 0,
            decreases 80 - i,
        {
            b[i] = v[i];
            i = i + 1;
        }
        assert(b@ =~= self.bytes());
        b
    }

    /// Where each field stands in the on-disk form.
    proof fn lemma_bytes_parts(self)
        ensures
            self.bytes().len() == 100,
            self.bytes().subrange(0, 4) == MAGIC@,
            self.bytes().subrange(4, 8) == be_bytes(self.flags as nat, 4),
            self.bytes().subrange(8, 12) == be_bytes(self.page_size as nat, 4),
            self.bytes().subrange(12, 16) == be_bytes(self.commit as nat, 4),
            self.bytes().subrange(16, 24) == be_bytes(self.min_txid.0 as nat, 8),
            self.bytes().subrange(24, 32) == be_bytes(self.max_txid.0 as nat, 8),
            self.bytes().subrange(32, 40) == be_bytes(i64_bits(self.timestamp), 8),
            self.bytes().subrange(40, 48) == be_bytes(self.pre_apply_checksum.0 as nat, 8),
            self.bytes().subrange(48, 56) == be_bytes(i64_bits(self.wal_offset), 8),
            self.bytes().subrange(56, 64) == be_bytes(i64_bits(self.wal_size), 8),
            self.bytes().subrange(64, 68) == be_bytes(self.wal_salt1 as nat, 4),
            self.bytes().subrange(68, 72) == be_bytes(self.wal_salt2 as nat, 4),
            self.bytes().subrange(72, 80) == be_bytes(self.node_id as nat, 8),
    {
        lemma_be_bytes_len(self.flags as nat, 4);
        lemma_be_bytes_len(self.page_size as nat, 4);
        lemma_be_bytes_len(self.commit as nat, 4);
        lemma_be_bytes_len(self.min_txid.0 as nat, 8);
        lemma_be_bytes_len(self.max_txid.0 as nat, 8);
        lemma_be_bytes_len(i64_bits(self.timestamp), 8);
        lemma_be_bytes_len(self.pre_apply_checksum.0 as nat, 8);
        lemma_be_bytes_len(i64_bits(self.wal_offset), 8);
        lemma_be_bytes_len(i64_bits(self.wal_size), 8);
        lemma_be_bytes_len(self.wal_salt1 as nat, 4);
        lemma_be_bytes_len(self.wal_salt2 as nat, 4);
        lemma_be_bytes_len(self.node_id as nat, 8);
        assert(self.bytes().len() == 100);
        assert(self.bytes().subrange(0, 4) =~= MAGIC@);
        assert(self.bytes().subrange(4, 8) =~= be_bytes(self.flags as nat, 4));
        assert(self.bytes().subrange(8, 12) =~= be_bytes(self.page_size as nat, 4));
        assert(self.bytes().subrange(12, 16) =~= be_bytes(self.commit as nat, 4));
        assert(self.bytes().subrange(16, 24) =~= be_bytes(self.min_txid.0 as nat, 8));
        assert(self.bytes().subrange(24, 32) =~= be_bytes(self.max_txid.0 as nat, 8));
        assert(self.bytes().subrange(32, 40) =~= be_bytes(i64_bits(self.timestamp), 8));
        assert(self.bytes().subrange(40, 48) =~= be_bytes(self.pre_apply_checksum.0 as nat, 8));
        assert(self.bytes().subrange(48, 56) =~= be_bytes(i64_bits(self.wal_offset), 8));
        assert(self.bytes().subrange(56, 64) =~= be_bytes(i64_bits(self.wal_size), 8));
        assert(self.bytes().subrange(64, 68) =~= be_bytes(self.wal_salt1 as nat, 4));
        assert(self.bytes().subrange(68, 72) =~= be_bytes(self.wal_salt2 as nat, 4));
        assert(self.bytes().subrange(72, 80) =~= be_bytes(self.node_id as nat, 8));
    }

    /// Decodes from the on-disk form. The magic is checked; reserved bytes are
    /// not.
    pub fn decode(b: &[u8]) -> (r: Result<Header>)
        ensures
            outcome(r) == Header::decoded(b@),
    {
        if b.len() < HEADER_SIZE {
            return Err(Error::Io(IoError::unexpected_eof("short header buffer")));
        }
        if b[0] != MAGIC[0] || b[1] != MAGIC[1] || b[2] != MAGIC[2] || b[3] != MAGIC[3] {
            assert(b@.subrange(0, 4)[0] == b@[0]);
            assert(b@.subrange(0, 4)[1] == b@[1]);
            assert(b@.subrange(0, 4)[2] == b@[2]);
            assert(b@.subrange(0, 4)[3] == b@[3]);
            return Err(Error::InvalidFile);
        }
        assert(b@.subrange(0, 4) =~= MAGIC@);
        Ok(
            Header {
                flags: read_be32(b, 4),
                page_size: read_be32(b, 8),
                commit: read_be32(b, 12),
                min_txid: Txid(read_be(b, 16, 8)),
                max_txid: Txid(read_be(b, 24, 8)),
                timestamp: from_bits(read_be(b, 32, 8)),
                pre_apply_checksum: Checksum(read_be(b, 40, 8)),
                wal_offset: from_bits(read_be(b, 48, 8)),
                wal_size: from_bits(read_be(b, 56, 8)),
                wal_salt1: read_be32(b, 64),
                wal_salt2: read_be32(b, 68),
                node_id: read_be(b, 72, 8),
            },
        )
    }
}

/// Decoding gives back every header that was encoded, whatever bytes follow
/// the 100 of the header.
pub proof fn lemma_header_roundtrip(h: Header, rest: Seq<u8>)
    ensures
        Header::decoded(h.bytes() + rest) == Ok::<Header, ErrorView>(h),
{
    let b = h.bytes() + rest;
    h.lemma_bytes_parts();
    lemma_pow256_values();
    assert(b.subrange(0, 4) =~= h.bytes().subrange(0, 4));
    assert(b.subrange(4, 8) =~= h.bytes().subrange(4, 8));
    assert(b.subrange(8, 12) =~= h.bytes().subrange(8, 12));
    assert(b.subrange(12, 16) =~= h.bytes().subrange(12, 16));
    assert(b.subrange(16, 24) =~= h.bytes().subrange(16, 24));
    assert(b.subrange(24, 32) =~= h.bytes().subrange(24, 32));
    assert(b.subrange(32, 40) =~= h.bytes().subrange(32, 40));
    assert(b.subrange(40, 48) =~= h.bytes().subrange(40, 48));
    assert(b.subrange(48, 56) =~= h.bytes().subrange(48, 56));
    assert(b.subrange(56, 64) =~= h.bytes().subrange(56, 64));
    assert(b.subrange(64, 68) =~= h.bytes().subrange(64, 68));
    assert(b.subrange(68, 72) =~= h.bytes().subrange(68, 72));
    assert(b.subrange(72, 80) =~= h.bytes().subrange(72, 80));
    lemma_be_value_of_bytes(h.flags as nat, 4);
    lemma_be_value_of_bytes(h.page_size as nat, 4);
    lemma_be_value_of_bytes(h.commit as nat, 4);
    lemma_be_value_of_bytes(h.min_txid.0 as nat, 8);
    lemma_be_value_of_bytes(h.max_txid.0 as nat, 8);
    lemma_be_value_of_bytes(i64_bits(h.timestamp), 8);
    lemma_be_value_of_bytes(h.pre_apply_checksum.0 as nat, 8);
    lemma_be_value_of_bytes(i64_bits(h.wal_offset), 8);
    lemma_be_value_of_bytes(i64_bits(h.wal_size), 8);
    lemma_be_value_of_bytes(h.wal_salt1 as nat, 4);
    lemma_be_value_of_bytes(h.wal_salt2 as nat, 4);
    lemma_be_value_of_bytes(h.node_id as nat, 8);
}

/// The trailer frame of an LTX file. 16 bytes on disk.
#[derive(Clone, Copy, PartialEq, Eq, Debug, Structural)]
pub struct Trailer {
    /// Rolling database checksum after this file is applied. Zero when
    /// `HEADER_FLAG_NO_CHECKSUM` is set.
    pub post_apply_checksum: Checksum,
    /// Checksum of the file contents (with uncompressed page data), excluding
    /// this field itself. Always present.
    pub file_checksum: Checksum,
}

impl Default for Trailer {
    fn default() -> (r: Trailer)
        ensures
            r == (Trailer { post_apply_checksum: Checksum(0), file_checksum: Checksum(0) }),
    {
        Trailer { post_apply_checksum: Checksum(0), file_checksum: Checksum(0) }
    }
}

impl Trailer {
    /// The rules that a valid trailer obeys under the header `h`. The first
    /// one broken names the error.
    pub open spec fn check(self, h: Header) -> core::result::Result<(), ErrorView> {
        let untracked = h.flags & HEADER_FLAG_NO_CHECKSUM != 0;
        if untracked && self.post_apply_checksum.0 != 0 {
            Err(ErrorView::Invalid("post-apply checksum not allowed"@))
        } else if !untracked && self.post_apply_checksum.0 == 0 {
            Err(ErrorView::Invalid("post-apply checksum required"@))
        } else if !untracked && self.post_apply_checksum.0 < CHECKSUM_FLAG {
            Err(ErrorView::Invalid("invalid post-apply checksum format"@))
        } else if self.file_checksum.0 == 0 {
            Err(ErrorView::Invalid("file checksum required"@))
        } else if self.file_checksum.0 < CHECKSUM_FLAG {
            Err(ErrorView::Invalid("invalid file checksum format"@))
        } else {
            Ok(())
        }
    }

    /// The 16-byte on-disk form.
    pub open spec fn bytes(self) -> Seq<u8> {
        be_bytes(self.post_apply_checksum.0 as nat, 8) + be_bytes(self.file_checksum.0 as nat, 8)
    }

    /// What [`Trailer::decode`] makes of `b`.
    pub open spec fn decoded(b: Seq<u8>) -> core::result::Result<Trailer, ErrorView> {
        if b.len() < TRAILER_SIZE {
            Err(ErrorView::Io(eof_view("short trailer buffer"@)))
        } else {
            Ok(
                Trailer {
                    post_apply_checksum: Checksum(be_value(b.subrange(0, 8)) as u64),
                    file_checksum: Checksum(be_value(b.subrange(8, 16)) as u64),
                },
            )
        }
    }

    /// Checks the rules of a trailer, in order.
    pub fn validate(&self, h: &Header) -> (r: Result<()>)
        ensures
            outcome(r) == self.check(*h),
    {
        if h.no_checksum() {
            if !self.post_apply_checksum.is_zero() {
                return Err(Error::invalid("post-apply checksum not allowed"));
            }
        } else if self.post_apply_checksum.is_zero() {
            return Err(Error::invalid("post-apply checksum required"));
        } else if !self.post_apply_checksum.is_flagged() {
            return Err(Error::invalid("invalid post-apply checksum format"));
        }
        if self.file_checksum.is_zero() {
            return Err(Error::invalid("file checksum required"));
        } else if !self.file_checksum.is_flagged() {
            return Err(Error::invalid("invalid file checksum format"));
        }
        Ok(())
    }

    pub fn encode(&self) -> (r: [u8; TRAILER_SIZE])
        ensures
            r@ == self.bytes(),
    {
        let mut v: Vec<u8> = Vec::new();
        push_be(&mut v, self.post_apply_checksum.0, 8);
        push_be(&mut v, self.file_checksum.0, 8);
        proof {
            lemma_be_bytes_len(self.post_apply_checksum.0 as nat, 8);
            lemma_be_bytes_len(self.file_checksum.0 as nat, 8);
            assert(v@ =~= self.bytes());
        }
        let mut b: [u8; TRAILER_SIZE] = [0; 16];
        let mut i: usize = 0;
        while i < 16
            invariant
                i <= 16,
                v@.len() == 16,
                b@.len() == 16,
                forall|j: int| 0 <= j < i ==> b@[j] == v@[j],
            decreases 16 - i,
        {
            b[i] = v[i];
            i = i + 1;
        }
        assert(b@ =~= self.bytes());
        b
    }

    pub fn decode(b: &[u8]) -> (r: Result<Trailer>)
        ensures
            outcome(r) == Trailer::decoded(b@),
    {
        if b.len() < TRAILER_SIZE {
            return Err(Error::Io(IoError::unexpected_eof("short trailer buffer")));
        }
        Ok(
            Trailer {
                post_apply_checksum: Checksum(read_be(b, 0, 8)),
                file_checksum: Checksum(read_be(b, 8, 8)),
            },
        )
    }
}

/// Decoding gives back every trailer that was encoded.
pub proof fn lemma_trailer_roundtrip(t: Trailer, rest: Seq<u8>)
    ensures
        Trailer::decoded(t.bytes() + rest) == Ok::<Trailer, ErrorView>(t),
{
    let b = t.bytes() + rest;
    lemma_pow256_values();
    lemma_be_bytes_len(t.post_apply_checksum.0 as nat, 8);
    lemma_be_bytes_len(t.file_checksum.0 as nat, 8);
    assert(b.subrange(0, 8) =~= be_bytes(t.post_apply_checksum.0 as nat, 8));
    assert(b.subrange(8, 16) =~= be_bytes(t.file_checksum.0 as nat, 8));
    lemma_be_value_of_bytes(t.post_apply_checksum.0 as nat, 8);
    lemma_be_value_of_bytes(t.file_checksum.0 as nat, 8);
}

/// The header for a single page frame. 6 bytes on disk.
#[derive(Clone, Copy, PartialEq, Eq, Debug, Structural)]
pub struct PageHeader {
    pub pgno: u32,
    /// Reserved; must be zero in format version 3. A page with a flag set
    /// stores its data in another form than one LZ4 frame, so `validate()`
    /// rejects it: a page that cannot be decoded must not be silently
    /// accepted.
    pub flags: u16,
}

impl Default for PageHeader {
    fn default() -> (r: PageHeader)
        ensures
            r == (PageHeader { pgno: 0, flags: 0 }),
    {
        PageHeader { pgno: 0, flags: 0 }
    }
}

impl PageHeader {
    /// The rules that a valid page header obeys, in order.
    pub open spec fn check(self) -> core::result::Result<(), ErrorView> {
        if self.pgno == 0 {
            Err(ErrorView::Invalid("page number required"@))
        } else if self.flags != 0 {
            Err(ErrorView::Invalid("no flags allowed, reserved for future use"@))
        } else {
            Ok(())
        }
    }

    /// The 6-byte on-disk form.
    pub open spec fn bytes(self) -> Seq<u8> {
        be_bytes(self.pgno as nat, 4) + be_bytes(self.flags as nat, 2)
    }

    /// What [`PageHeader::decode`] makes of `b`.
    pub open spec fn decoded(b: Seq<u8>) -> core::result::Result<PageHeader, ErrorView> {
        if b.len() < PAGE_HEADER_SIZE {
            Err(ErrorView::Io(eof_view("short page header buffer"@)))
        } else {
            Ok(
                PageHeader {
                    pgno: be_value(b.subrange(0, 4)) as u32,
                    flags: be_value(b.subrange(4, 6)) as u16,
                },
            )
        }
    }

    /// An all-zero page header marks the end of the page block.
    pub fn is_zero(&self) -> (r: bool)
        ensures
            r == (self.pgno == 0 && self.flags == 0),
    {
        *self == PageHeader::default()
    }

    pub fn validate(&self) -> (r: Result<()>)
        ensures
            outcome(r) == self.check(),
    {
        if self.pgno == 0 {
            return Err(Error::invalid("page number required"));
        }
        if self.flags != 0 {
            return Err(Error::invalid("no flags allowed, reserved for future use"));
        }
        Ok(())
    }

    pub fn encode(&self) -> (r: [u8; PAGE_HEADER_SIZE])
        ensures
            r@ == self.bytes(),
    {
        let mut v: Vec<u8> = Vec::new();
        push_be(&mut v, self.pgno as u64, 4);
        push_be(&mut v, self.flags as u64, 2);
        proof {
            lemma_be_bytes_len(self.pgno as nat, 4);
            lemma_be_bytes_len(self.flags as nat, 2);
            assert(v@ =~= self.bytes());
        }
        let b: [u8; PAGE_HEADER_SIZE] = [v[0], v[1], v[2], v[3], v[4], v[5]];
        assert(b@ =~= self.bytes());
        b
    }

    pub fn decode(b: &[u8]) -> (r: Result<PageHeader>)
        ensures
            outcome(r) == PageHeader::decoded(b@),
    {
        if b.len() < PAGE_HEADER_SIZE {
            return Err(Error::Io(IoError::unexpected_eof("short page header buffer")));
        }
        proof {
            lemma_pow256_values();
        }
        Ok(PageHeader { pgno: read_be32(b, 0), flags: read_be(b, 4, 2) as u16 })
    }
}

/// Decoding gives back every page header that was encoded.
pub proof fn lemma_page_header_roundtrip(h: PageHeader, rest: Seq<u8>)
    ensures
        PageHeader::decoded(h.bytes() + rest) == Ok::<PageHeader, ErrorView>(h),
{
    let b = h.bytes() + rest;
    lemma_pow256_values();
    lemma_be_bytes_len(h.pgno as nat, 4);
    lemma_be_bytes_len(h.flags as nat, 2);
    assert(b.subrange(0, 4) =~= be_bytes(h.pgno as nat, 4));
    assert(b.subrange(4, 6) =~= be_bytes(h.flags as nat, 2));
    lemma_be_value_of_bytes(h.pgno as nat, 4);
    lemma_be_value_of_bytes(h.flags as nat, 2);
}

/// Metadata about an LTX file, as derived from storage listings.
#[derive(Clone, Debug, PartialEq, Eq)]
pub struct FileInfo {
    pub level: u8,
    pub min_txid: Txid,
    pub max_txid: Txid,
    pub pre_apply_checksum: Checksum,
    pub post_apply_checksum: Checksum,
    pub size: u64,
    pub created_at: Option<SystemTime>,
}

impl Default for FileInfo {
    fn default() -> (r: FileInfo)
        ensures
            r == (FileInfo {
                level: 0,
                min_txid: Txid(0),
                max_txid: Txid(0),
                pre_apply_checksum: Checksum(0),
                post_apply_checksum: Checksum(0),
                size: 0,
                created_at: None,
            }),
    {
        FileInfo {
            level: 0,
            min_txid: Txid(0),
            max_txid: Txid(0),
            pre_apply_checksum: Checksum(0),
            post_apply_checksum: Checksum(0),
            size: 0,
            created_at: None,
        }
    }
}

impl FileInfo {
    /// The database position required before applying this file.
    pub fn pre_apply_pos(&self) -> (r: Pos)
        ensures
            r == (Pos {
                txid: txid_before(self.min_txid),
                post_apply_checksum: self.pre_apply_checksum,
            }),
    {
        Pos {
            txid: Txid(self.min_txid.0.wrapping_sub(1)),
            post_apply_checksum: self.pre_apply_checksum,
        }
    }

    /// The database position after applying this file.
    pub fn pos(&self) -> (r: Pos)
        ensures
            r == (Pos {
                txid: self.max_txid,
                post_apply_checksum: self.post_apply_checksum,
            }),
    {
        Pos { txid: self.max_txid, post_apply_checksum: self.post_apply_checksum }
    }

    pub fn filename(&self) -> (s: String)
        ensures
            s@ == filename_text(self.min_txid, self.max_txid),
    {
        format_filename(self.min_txid, self.max_txid)
    }
}

/// Parsing gives back the ID that was written, and writing a parsed lowercase
/// text gives the text again.
pub proof fn lemma_txid_roundtrip(t: Txid, s: Seq<char>)
    ensures
        Txid::parsed(t.text()) == Some(t),
        Checksum::parsed(Checksum(t.0).text()) == Some(Checksum(t.0)),
        all_lower_hex(s) ==> match Txid::parsed(s) {
            Some(p) => p.text() == s,
            None => s.len() != 16,
        },
{
    lemma_pow16_values();
    lemma_hex_text_len(t.0 as nat, 16);
    lemma_hex_value_of_text(t.0 as nat, 16);
    if all_lower_hex(s) {
        assert(all_hex(s));
        lemma_hex_text_of_value(s);
    }
}

/// Parsing gives back every position that was written.
pub proof fn lemma_pos_roundtrip(p: Pos)
    ensures
        p.text().len() == 33,
        Pos::parsed(p.text()) == Some(p),
{
    lemma_hex_text_len(p.txid.0 as nat, 16);
    lemma_hex_text_len(p.post_apply_checksum.0 as nat, 16);
    lemma_txid_roundtrip(p.txid, Seq::empty());
    lemma_txid_roundtrip(Txid(p.post_apply_checksum.0), Seq::empty());
    assert(p.text().subrange(0, 16) =~= p.txid.text());
    assert(p.text().subrange(17, 33) =~= p.post_apply_checksum.text());
}

/// File names and pairs of IDs correspond one to one: parsing gives back the
/// pair that was written, and a name that parses is the one its pair writes.
pub proof fn lemma_filename_roundtrip(min: Txid, max: Txid, name: Seq<char>)
    ensures
        filename_parsed(filename_text(min, max)) == Some((min, max)),
        filename_parsed(name) matches Some(pair) ==> filename_text(pair.0, pair.1) == name,
{
    reveal_strlit(".ltx");
    let text = filename_text(min, max);
    lemma_hex_text_len(min.0 as nat, 16);
    lemma_hex_text_len(max.0 as nat, 16);
    lemma_txid_roundtrip(min, Seq::empty());
    lemma_txid_roundtrip(max, Seq::empty());
    assert(text.subrange(0, 16) =~= min.text());
    assert(text.subrange(17, 33) =~= max.text());
    assert(text.subrange(33, 37) =~= ".ltx"@);
    if let Some(pair) = filename_parsed(name) {
        lemma_txid_roundtrip(pair.0, name.subrange(0, 16));
        lemma_txid_roundtrip(pair.1, name.subrange(17, 33));
        assert(all_hex(name.subrange(0, 16)));
        assert(all_hex(name.subrange(17, 33)));
        assert(filename_text(pair.0, pair.1) =~= name.subrange(0, 16).push(name[16]) + name.subrange(17, 33)
            + name.subrange(33, 37));
        assert(filename_text(pair.0, pair.1) =~= name);
    }
}

/// The bytes of a header, place by place: `LTX1`, then the fields in big
/// endian at their offsets, the signed ones modulo 2^64, then 20 zeros, 100
/// bytes in all.
pub proof fn lemma_header_layout(h: Header)
    ensures
        ({
            let b = h.bytes();
            &&& b.len() == 100
            &&& b[0] == 0x4c && b[1] == 0x54 && b[2] == 0x58 && b[3] == 0x31
            &&& be_value(b.subrange(4, 8)) == h.flags
            &&& be_value(b.subrange(8, 12)) == h.page_size
            &&& be_value(b.subrange(12, 16)) == h.commit
            &&& be_value(b.subrange(16, 24)) == h.min_txid.0
            &&& be_value(b.subrange(24, 32)) == h.max_txid.0
            &&& be_value(b.subrange(32, 40)) == h.timestamp as int % 0x1_0000_0000_0000_0000
            &&& be_value(b.subrange(40, 48)) == h.pre_apply_checksum.0
            &&& be_value(b.subrange(48, 56)) == h.wal_offset as int % 0x1_0000_0000_0000_0000
            &&& be_value(b.subrange(56, 64)) == h.wal_size as int % 0x1_0000_0000_0000_0000
            &&& be_value(b.subrange(64, 68)) == h.wal_salt1
            &&& be_value(b.subrange(68, 72)) == h.wal_salt2
            &&& be_value(b.subrange(72, 80)) == h.node_id
            &&& forall|i: int| 80 <= i < 100 ==> #[trigger] b[i] == 0
        }),
{
    let b = h.bytes();
    h.lemma_bytes_parts();
    lemma_pow256_values();
    lemma_be_value_of_bytes(h.flags as nat, 4);
    lemma_be_value_of_bytes(h.page_size as nat, 4);
    lemma_be_value_of_bytes(h.commit as nat, 4);
    lemma_be_value_of_bytes(h.min_txid.0 as nat, 8);
    lemma_be_value_of_bytes(h.max_txid.0 as nat, 8);
    lemma_be_value_of_bytes(i64_bits(h.timestamp), 8);
    lemma_be_value_of_bytes(h.pre_apply_checksum.0 as nat, 8);
    lemma_be_value_of_bytes(i64_bits(h.wal_offset), 8);
    lemma_be_value_of_bytes(i64_bits(h.wal_size), 8);
    lemma_be_value_of_bytes(h.wal_salt1 as nat, 4);
    lemma_be_value_of_bytes(h.wal_salt2 as nat, 4);
    lemma_be_value_of_bytes(h.node_id as nat, 8);
    let magic = b.subrange(0, 4);
    assert(magic[0] == b[0] && magic[1] == b[1] && magic[2] == b[2] && magic[3] == b[3]);
    lemma_be_bytes_len(h.flags as nat, 4);
    lemma_be_bytes_len(h.page_size as nat, 4);
    lemma_be_bytes_len(h.commit as nat, 4);
    lemma_be_bytes_len(h.min_txid.0 as nat, 8);
    lemma_be_bytes_len(h.max_txid.0 as nat, 8);
    lemma_be_bytes_len(i64_bits(h.timestamp), 8);
    lemma_be_bytes_len(h.pre_apply_checksum.0 as nat, 8);
    lemma_be_bytes_len(i64_bits(h.wal_offset), 8);
    lemma_be_bytes_len(i64_bits(h.wal_size), 8);
    lemma_be_bytes_len(h.wal_salt1 as nat, 4);
    lemma_be_bytes_len(h.wal_salt2 as nat, 4);
    lemma_be_bytes_len(h.node_id as nat, 8);
}

/// Bytes that begin with `LTX1` and are 100 at least decode, and the header
/// that comes out writes the first 80 of them again; fewer bytes are a short
/// read, and other magic bytes are no such file.
pub proof fn lemma_header_rewritten(b: Seq<u8>)
    ensures
        match Header::decoded(b) {
            Ok(h) => b.len() >= 100 && b[0] == 0x4c && b[1] == 0x54 && b[2] == 0x58 && b[3] == 0x31
                && h.bytes().take(80) == b.take(80),
            Err(e) => if b.len() < 100 {
                e matches ErrorView::Io(io) && io.kind == IoErrorKind::UnexpectedEof
            } else {
                e is InvalidFile && !(b[0] == 0x4c && b[1] == 0x54 && b[2] == 0x58 && b[3] == 0x31)
            },
        },
{
    if b.len() >= 100 {
        let magic = b.subrange(0, 4);
        assert(magic[0] == b[0] && magic[1] == b[1] && magic[2] == b[2] && magic[3] == b[3]);
        if b[0] == 0x4c && b[1] == 0x54 && b[2] == 0x58 && b[3] == 0x31 {
            assert(magic =~= MAGIC@);
        }
        if let Ok(h) = Header::decoded(b) {
            let c = h.bytes();
            h.lemma_bytes_parts();
            lemma_pow256_values();
            lemma_be_bytes_of_value(b.subrange(4, 8));
            lemma_be_bytes_of_value(b.subrange(8, 12));
            lemma_be_bytes_of_value(b.subrange(12, 16));
            lemma_be_bytes_of_value(b.subrange(16, 24));
            lemma_be_bytes_of_value(b.subrange(24, 32));
            lemma_be_bytes_of_value(b.subrange(32, 40));
            lemma_be_bytes_of_value(b.subrange(40, 48));
            lemma_be_bytes_of_value(b.subrange(48, 56));
            lemma_be_bytes_of_value(b.subrange(56, 64));
            lemma_be_bytes_of_value(b.subrange(64, 68));
            lemma_be_bytes_of_value(b.subrange(68, 72));
            lemma_be_bytes_of_value(b.subrange(72, 80));
            lemma_same_part(c, b, 0, 4);
            lemma_same_part(c, b, 4, 8);
            lemma_same_part(c, b, 8, 12);
            lemma_same_part(c, b, 12, 16);
            lemma_same_part(c, b, 16, 24);
            lemma_same_part(c, b, 24, 32);
            lemma_same_part(c, b, 32, 40);
            lemma_same_part(c, b, 40, 48);
            lemma_same_part(c, b, 48, 56);
            lemma_same_part(c, b, 56, 64);
            lemma_same_part(c, b, 64, 68);
            lemma_same_part(c, b, 68, 72);
            lemma_same_part(c, b, 72, 80);
            assert(c.take(80) =~= b.take(80));
        }
    }
}

proof fn lemma_same_part(a: Seq<u8>, b: Seq<u8>, lo: int, hi: int)
    requires
        0 <= lo <= hi <= a.len(),
        hi <= b.len(),
        a.subrange(lo, hi) == b.subrange(lo, hi),
    ensures
        forall|i: int| #![trigger a[i]] #![trigger b[i]] lo <= i < hi ==> a[i] == b[i],
{
    assert forall|i: int| #![trigger a[i]] #![trigger b[i]] lo <= i < hi implies a[i] == b[i] by {
        assert(a.subrange(lo, hi)[i - lo] == a[i]);
        assert(b.subrange(lo, hi)[i - lo] == b[i]);
    }
}

/// Which headers are valid, all rules at once: no flag but the one that stands
/// for untracked checksums, one of the eight page sizes, IDs from one on and in
/// order, nothing negative about the source WAL and nothing of it without an
/// offset, and a checksum, with bit 63 set, exactly on tracked files that are
/// no snapshot.
pub proof fn lemma_header_valid(h: Header)
    ensures
        h.check() is Ok <==> {
            &&& h.flags == 0 || h.flags == 2
            &&& h.page_size == 512 || h.page_size == 1024 || h.page_size == 2048 || h.page_size == 4096
                || h.page_size == 8192 || h.page_size == 16384 || h.page_size == 32768 || h.page_size
                == 65536
            &&& 1 <= h.min_txid.0 <= h.max_txid.0
            &&& h.wal_offset >= 0 && h.wal_size >= 0
            &&& h.wal_offset == 0 ==> h.wal_size == 0 && h.wal_salt1 == 0 && h.wal_salt2 == 0
            &&& if h.min_txid.0 == 1 || h.flags == 2 {
                h.pre_apply_checksum.0 == 0
            } else {
                h.pre_apply_checksum.0 >= 0x8000_0000_0000_0000
            }
        },
        h.check() matches Err(e) ==> e is Invalid,
{
    lemma_page_sizes(h.page_size);
    let flags = h.flags;
    assert(flags == 2 ==> flags & 2 != 0) by (bit_vector);
    assert(flags == 0 ==> flags & 2 == 0) by (bit_vector);
}

/// The page sizes are the eight powers of two from 512 to 65536.
pub proof fn lemma_page_sizes(sz: u32)
    ensures
        page_size_ok(sz) <==> sz == 512 || sz == 1024 || sz == 2048 || sz == 4096 || sz == 8192 || sz
            == 16384 || sz == 32768 || sz == 65536,
{
    vstd::arithmetic::power2::lemma2_to64();
    if page_size_ok(sz) {
        let k = choose|k: nat| 9 <= k <= 16 && sz == #[trigger] pow2(k);
        assert(k == 9 || k == 10 || k == 11 || k == 12 || k == 13 || k == 14 || k == 15 || k == 16);
    }
}

/// The lock page is the one page in which byte 2^30 of the database lies.
pub proof fn lemma_lock_page_holds_byte(page_size: u32, pgno: int)
    requires
        page_size > 0,
    ensures
        pgno == lock_page(page_size as int) <==> (pgno - 1) * page_size <= 0x4000_0000 < pgno * page_size,
{
    let ps = page_size as int;
    let q = 0x4000_0000int / ps;
    vstd::arithmetic::div_mod::lemma_fundamental_div_mod(0x4000_0000, ps);
    vstd::arithmetic::div_mod::lemma_mod_bound(0x4000_0000, ps);
    assert(q * ps <= 0x4000_0000 < (q + 1) * ps) by (nonlinear_arith)
        requires
            0x4000_0000 == ps * q + 0x4000_0000int % ps,
            0 <= 0x4000_0000int % ps < ps,
    ;
    if (pgno - 1) * ps <= 0x4000_0000 < pgno * ps {
        assert(pgno - 1 == q) by (nonlinear_arith)
            requires
                ps > 0,
                (pgno - 1) * ps <= 0x4000_0000 < pgno * ps,
                q * ps <= 0x4000_0000 < (q + 1) * ps,
        ;
    }
}

/// A range follows on a position exactly when the next ID lies in it; nothing
/// follows on the largest ID. The ID before an ID has that ID behind it.
pub proof fn lemma_contiguous_holds_next(prev: Txid, min: Txid, max: Txid)
    ensures
        prev.0 < u64::MAX ==> (contiguous(prev, min, max) <==> min.0 <= prev.0 + 1 <= max.0),
        prev.0 == u64::MAX ==> !contiguous(prev, min, max),
        txid_after(txid_before(min)) == min.0,
        min.0 > 0 ==> txid_before(min).0 + 1 == min.0,
{
}

/// The bytes of a trailer and of a page header, place by place: the checksum
/// after the file applies before that of the file, and the page number before
/// the flags.
pub proof fn lemma_frame_layouts(t: Trailer, p: PageHeader)
    ensures
        t.bytes().len() == 16,
        be_value(t.bytes().subrange(0, 8)) == t.post_apply_checksum.0,
        be_value(t.bytes().subrange(8, 16)) == t.file_checksum.0,
        p.bytes().len() == 6,
        be_value(p.bytes().subrange(0, 4)) == p.pgno,
        be_value(p.bytes().subrange(4, 6)) == p.flags,
{
    lemma_pow256_values();
    lemma_be_bytes_len(t.post_apply_checksum.0 as nat, 8);
    lemma_be_bytes_len(t.file_checksum.0 as nat, 8);
    lemma_be_bytes_len(p.pgno as nat, 4);
    lemma_be_bytes_len(p.flags as nat, 2);
    lemma_be_value_of_bytes(t.post_apply_checksum.0 as nat, 8);
    lemma_be_value_of_bytes(t.file_checksum.0 as nat, 8);
    lemma_be_value_of_bytes(p.pgno as nat, 4);
    lemma_be_value_of_bytes(p.flags as nat, 2);
    assert(t.bytes().subrange(0, 8) =~= be_bytes(t.post_apply_checksum.0 as nat, 8));
    assert(t.bytes().subrange(8, 16) =~= be_bytes(t.file_checksum.0 as nat, 8));
    assert(p.bytes().subrange(0, 4) =~= be_bytes(p.pgno as nat, 4));
    assert(p.bytes().subrange(4, 6) =~= be_bytes(p.flags as nat, 2));
}

/// Bytes enough decode to the trailer, and to the page header, that write the
/// first of them again; fewer are a short read.
pub proof fn lemma_frames_rewritten(b: Seq<u8>)
    ensures
        match Trailer::decoded(b) {
            Ok(t) => b.len() >= 16 && t.bytes() == b.take(16),
            Err(e) => b.len() < 16 && (e matches ErrorView::Io(io) && io.kind
                == IoErrorKind::UnexpectedEof),
        },
        match PageHeader::decoded(b) {
            Ok(p) => b.len() >= 6 && p.bytes() == b.take(6),
            Err(e) => b.len() < 6 && (e matches ErrorView::Io(io) && io.kind
                == IoErrorKind::UnexpectedEof),
        },
{
    lemma_pow256_values();
    if b.len() >= 16 {
        lemma_be_bytes_of_value(b.subrange(0, 8));
        lemma_be_bytes_of_value(b.subrange(8, 16));
        assert(b.take(16) =~= b.subrange(0, 8) + b.subrange(8, 16));
    }
    if b.len() >= 6 {
        lemma_be_bytes_of_value(b.subrange(0, 4));
        lemma_be_bytes_of_value(b.subrange(4, 6));
        assert(b.take(6) =~= b.subrange(0, 4) + b.subrange(4, 6));
    }
}

/// Which trailers and page headers are valid, all rules at once. Bit 63 is set
/// on the checksum of the file, and on that of the database unless the header
/// says it is untracked, where it is zero. A page has a number and no flags.
pub proof fn lemma_frames_valid(t: Trailer, h: Header, p: PageHeader)
    requires
        h.check() is Ok,
    ensures
        t.check(h) is Ok <==> t.file_checksum.0 >= 0x8000_0000_0000_0000 && if h.flags == 2 {
            t.post_apply_checksum.0 == 0
        } else {
            t.post_apply_checksum.0 >= 0x8000_0000_0000_0000
        },
        t.check(h) matches Err(e) ==> e is Invalid,
        p.check() is Ok <==> p.pgno > 0 && p.flags == 0,
        p.check() matches Err(e) ==> e is Invalid,
{
    let flags = h.flags;
    assert(flags == 2 ==> flags & 2 != 0) by (bit_vector);
    assert(flags == 0 ==> flags & 2 == 0) by (bit_vector);
}

/// What a position and a file name look like: 16 digits, a mark, 16 digits,
/// and for a file name the suffix. Text that is not of that form is refused,
/// digits in either case are taken in a position, and the number that the
/// digits write is the one read.
pub proof fn lemma_texts_by_form(s: Seq<char>)
    ensures
        Pos::parsed(s) is Some <==> s.len() == 33 && s[16] == '/' && all_hex(s.subrange(0, 16))
            && all_hex(s.subrange(17, 33)),
        Pos::parsed(s) matches Some(p) ==> p.txid.0 == hex_value(s.subrange(0, 16))
            && p.post_apply_checksum.0 == hex_value(s.subrange(17, 33)),
        Txid::parsed(s) is Some <==> s.len() == 16 && all_hex(s),
        Txid::parsed(s) matches Some(t) ==> t.0 == hex_value(s),
        filename_parsed(s) is Some <==> s.len() == 37 && all_lower_hex(s.subrange(0, 16)) && s[16]
            == '-' && all_lower_hex(s.subrange(17, 33)) && s[33] == '.' && s[34] == 'l' && s[35] == 't'
            && s[36] == 'x',
        filename_parsed(s) matches Some(pair) ==> pair.0.0 == hex_value(s.subrange(0, 16))
            && pair.1.0 == hex_value(s.subrange(17, 33)),
{
    lemma_pow16_values();
    reveal_strlit(".ltx");
    if s.len() == 16 && all_hex(s) {
        lemma_hex_text_of_value(s);
    }
    if s.len() >= 33 {
        if all_hex(s.subrange(0, 16)) {
            lemma_hex_text_of_value(s.subrange(0, 16));
        }
        if all_hex(s.subrange(17, 33)) {
            lemma_hex_text_of_value(s.subrange(17, 33));
        }
    }
    if s.len() == 37 {
        let tail = s.subrange(33, 37);
        assert(tail[0] == s[33] && tail[1] == s[34] && tail[2] == s[35] && tail[3] == s[36]);
        if s[33] == '.' && s[34] == 'l' && s[35] == 't' && s[36] == 'x' {
            assert(tail =~= ".ltx"@);
        }
        if all_lower_hex(s.subrange(0, 16)) {
            assert(all_hex(s.subrange(0, 16)));
        }
        if all_lower_hex(s.subrange(17, 33)) {
            assert(all_hex(s.subrange(17, 33)));
        }
    }
}

/// A valid file is contiguous with the position that it must be applied at.
pub proof fn lemma_pre_apply_contiguous(h: Header)
    requires
        h.check() is Ok,
    ensures
        contiguous(txid_before(h.min_txid), h.min_txid, h.max_txid),
{
}

} // verus!
