//! Minimal LZ4 *frame* format codec with exact byte-boundary semantics.
//!
//! Each LTX page is stored as one standalone LZ4 frame: 64KB blocks, content
//! checksum on, block independence on. A frame decodes to exactly one page and
//! ends exactly at the frame boundary, so the frame structure is parsed here
//! instead of by a buffered frame reader that could read on into the next page
//! header. Block bodies are (de)compressed with `lz4_flex`'s raw block codec.
//!
//! The LZ4 encoder is free in how it compresses a block; LTX file checksums
//! cover the *uncompressed* page bytes.

use twox_hash::XxHash32;
use vstd::prelude::*;
use vstd::slice::slice_subrange;
use vstd::string::*;

#[allow(unused_imports)]
use crate::bytes::{
    be_bytes, le_bytes, le_value, lemma_le_bytes_of_value, lemma_le_value_of_bytes,
    lemma_pow256_values,
};
use crate::bytes::{push_le32, read_le32};
use crate::io::IoError;
#[allow(unused_imports)]
use crate::io::{eof_view, IoErrorKind, IoErrorView};
#[allow(unused_imports)]
use crate::ltx::error::{outcome, ErrorView};
use crate::ltx::{Error, Result};
#[allow(unused_imports)]
use crate::text::{dec_text, hex_text};
use crate::text::{push_decimal, push_hex};

verus! {

const FRAME_MAGIC: u32 = 0x184D_2204;

/// FLG byte: version=01, block-independence=1, block-checksum=0,
/// content-size=0, content-checksum=1, dictID=0.
const FLG: u8 = 0x64;

/// BD byte: max block size = 64KB.
const BD: u8 = 0x40;

/// The bytes of one block before compression.
const BLOCK_SIZE: usize = 65536;

/// The XXH32 hash of `data` under `seed`.
pub uninterp spec fn xxh32_of(seed: u32, data: Seq<u8>) -> u32;

/// The bytes that the LZ4 block `input` decodes to, in at most `capacity`
/// bytes, or the decoder's message.
pub uninterp spec fn lz4_block_decode(input: Seq<u8>, capacity: nat) -> core::result::Result<
    Seq<u8>,
    Seq<char>,
>;

/// `twox_hash::XxHash32::oneshot`: the XXH32 hash of `data`, which depends on
/// the seed and the bytes alone.
#[verifier::external_body]
fn xxhash32_oneshot(seed: u32, data: &[u8]) -> (h: u32)
    ensures
        h == xxh32_of(seed, data@),
{
    XxHash32::oneshot(seed, data)
}

/// `lz4_flex::block::decompress_into`: decodes the block `input` into the
/// front of `output`. The outcome depends on the block and the room in
/// `output` alone. On success it returns how many bytes it wrote, which fit;
/// the bytes behind them, and all of them after a failure, are left
/// unspecified. A failure comes with the decoder's message.
#[verifier::external_body]
fn block_decompress_into(input: &[u8], output: &mut [u8]) -> (r: core::result::Result<usize, String>)
    requires
        input@.len() <= 0x40_0000,
    ensures
        final(output)@.len() == old(output)@.len(),
        match lz4_block_decode(input@, old(output)@.len()) {
            Ok(content) => r matches Ok(n) && n == content.len() && n <= old(output)@.len()
                && final(output)@.subrange(0, n as int) == content,
            Err(text) => r matches Err(m) && m@ == text,
        },
{
    lz4_flex::block::decompress_into(input, output).map_err(|e| format!("{e}"))
}

/// Whether the LZ4 block `c` decodes to `block` wherever `block` has room, and
/// fails to decode where it has not.
pub open spec fn lz4_encodes(c: Seq<u8>, block: Seq<u8>) -> bool {
    forall|capacity: nat|
        capacity <= usize::MAX ==> if block.len() <= capacity {
            #[trigger] lz4_block_decode(c, capacity) == Ok::<Seq<u8>, Seq<char>>(block)
        } else {
            lz4_block_decode(c, capacity) is Err
        }
}

/// `lz4_flex::block::compress`: an LZ4 block, of one byte at least, that
/// decodes to `block`, and not into less room than `block` takes. Which of the
/// many such blocks it is depends on the machine's word size and byte order
/// and is left open.
#[verifier::external_body]
fn block_compress(block: &[u8]) -> (c: Vec<u8>)
    requires
        block@.len() <= 0x1_0000,
    ensures
        c@.len() > 0,
        lz4_encodes(c@, block@),
{
    lz4_flex::block::compress(block)
}

/// A byte slice and a read position in it.
pub struct Cursor<'a> {
    data: &'a [u8],
    pos: usize,
}

impl<'a> Cursor<'a> {
    /// The whole input.
    pub closed spec fn bytes(&self) -> Seq<u8> {
        self.data@
    }

    /// The number of bytes read so far.
    pub closed spec fn at(&self) -> nat {
        self.pos as nat
    }

    /// The bytes not read yet.
    pub open spec fn rest(&self) -> Seq<u8> {
        self.bytes().subrange(self.at() as int, self.bytes().len() as int)
    }

    #[verifier::type_invariant]
    spec fn in_bounds(&self) -> bool {
        self.pos <= self.data@.len()
    }

    pub fn new(data: &'a [u8]) -> (c: Cursor<'a>)
        ensures
            c.bytes() == data@,
            c.at() == 0,
    {
        Cursor { data, pos: 0 }
    }

    /// The number of bytes read so far.
    pub fn position(&self) -> (p: u64)
        ensures
            p == self.at(),
    {
        self.pos as u64
    }

    /// The next `n` bytes. Fails, and reads nothing, when fewer are left.
    pub fn read_exact(&mut self, n: usize) -> (r: Result<&'a [u8]>)
        ensures
            final(self).bytes() == old(self).bytes(),
            old(self).at() <= old(self).bytes().len(),
            match r {
                Ok(b) => n <= old(self).rest().len() && b@ == old(self).rest().take(n as int)
                    && final(self).at() == old(self).at() + n,
                Err(e) => n > old(self).rest().len() && e@ == short_read() && final(self).at()
                    == old(self).at(),
            },
    {
        proof {
            use_type_invariant(&*self);
        }
        if n > self.data.len() - self.pos {
            return Err(Error::Io(IoError::unexpected_eof("failed to fill whole buffer")));
        }
        let b = slice_subrange(self.data, self.pos, self.pos + n);
        assert(b@ =~= self.rest().take(n as int));
        self.pos = self.pos + n;
        Ok(b)
    }
}

/// The error of a read past the end of the input.
pub open spec fn short_read() -> ErrorView {
    ErrorView::Io(eof_view("failed to fill whole buffer"@))
}

/// Second byte of the XXH32 hash of the frame descriptor.
pub open spec fn descriptor_check(desc: Seq<u8>) -> int {
    xxh32_of(0, desc) as int / 256 % 256
}

/// The largest block that a BD byte allows.
pub open spec fn block_limit(bd: u8) -> Option<nat> {
    if bd & 0x70 == 0x40 {
        Some(0x1_0000)
    } else if bd & 0x70 == 0x50 {
        Some(0x4_0000)
    } else if bd & 0x70 == 0x60 {
        Some(0x10_0000)
    } else if bd & 0x70 == 0x70 {
        Some(0x40_0000)
    } else {
        None
    }
}

/// What the head of a frame says about the rest of it.
pub struct FrameHead {
    /// Bytes from the magic number to the descriptor's checksum.
    pub len: nat,
    pub block_checksum: bool,
    pub content_checksum: bool,
    pub max_block: nat,
}

/// The bytes of the descriptor under a FLG byte.
pub open spec fn descriptor_len(flg: u8) -> nat {
    (2 + (if flg & 0x08 != 0 { 8int } else { 0 }) + (if flg & 0x01 != 0 { 4int } else { 0 })) as nat
}

/// Reads the head of the frame at the front of `src`.
pub open spec fn frame_head(src: Seq<u8>) -> core::result::Result<FrameHead, ErrorView> {
    if src.len() < 4 {
        Err(short_read())
    } else if le_value(src.subrange(0, 4)) != 0x184D_2204 {
        Err(ErrorView::Lz4("bad frame magic"@))
    } else if src.len() < 6 {
        Err(short_read())
    } else if src[4] >> 6 != 1 {
        Err(ErrorView::Lz4("unsupported frame version: FLG=0x"@ + hex_text(src[4] as nat, 2)))
    } else {
        match block_limit(src[5]) {
            None => Err(ErrorView::Lz4("invalid BD byte: 0x"@ + hex_text(src[5] as nat, 2))),
            Some(max_block) => {
                let end = 4 + descriptor_len(src[4]);
                if src.len() < end + 1 {
                    Err(short_read())
                } else if src[end as int] != descriptor_check(src.subrange(4, end as int)) {
                    Err(ErrorView::Lz4("frame descriptor checksum mismatch"@))
                } else {
                    Ok(
                        FrameHead {
                            len: end + 1,
                            block_checksum: src[4] & 0x10 != 0,
                            content_checksum: src[4] & 0x04 != 0,
                            max_block,
                        },
                    )
                }
            },
        }
    }
}

/// Reads the blocks from `src[at..]` up to the end mark, behind the `content`
/// decoded so far, into at most `cap` bytes in all. Gives the position behind
/// the end mark and the content.
pub open spec fn frame_blocks(
    src: Seq<u8>,
    at: nat,
    head: FrameHead,
    content: Seq<u8>,
    cap: nat,
) -> core::result::Result<(nat, Seq<u8>), ErrorView>
    decreases src.len() - at,
{
    if src.len() < at + 4 {
        Err(short_read())
    } else {
        let raw = le_value(src.subrange(at as int, (at + 4) as int));
        let size = raw % 0x8000_0000;
        let stored = raw >= 0x8000_0000;
        let end = at + 4 + size;
        let next = if head.block_checksum {
            end + 4
        } else {
            end
        };
        if raw == 0 {
            Ok((at + 4, content))
        } else if size > head.max_block {
            Err(
                ErrorView::Lz4(
                    "block size "@ + dec_text(size) + " exceeds frame max "@ + dec_text(head.max_block),
                ),
            )
        } else if src.len() < next {
            Err(short_read())
        } else {
            let body = src.subrange((at + 4) as int, end as int);
            if head.block_checksum && le_value(src.subrange(end as int, next as int)) != xxh32_of(0, body) {
                Err(ErrorView::Lz4("block checksum mismatch"@))
            } else if stored {
                if content.len() + size > cap {
                    Err(ErrorView::Lz4("frame content longer than expected page size"@))
                } else {
                    frame_blocks(src, next, head, content + body, cap)
                }
            } else {
                match lz4_block_decode(body, (cap - content.len()) as nat) {
                    Err(text) => Err(ErrorView::Lz4("block decompress: "@ + text)),
                    Ok(more) => frame_blocks(src, next, head, content + more, cap),
                }
            }
        }
    }
}

/// Reads the frame at the front of `src`, which must hold exactly `cap` bytes
/// of content. Gives the frame's length and its content.
pub open spec fn frame_decoded(src: Seq<u8>, cap: nat) -> core::result::Result<
    (nat, Seq<u8>),
    ErrorView,
> {
    match frame_head(src) {
        Err(e) => Err(e),
        Ok(head) => match frame_blocks(src, head.len, head, Seq::empty(), cap) {
            Err(e) => Err(e),
            Ok((at, content)) => {
                let end = if head.content_checksum {
                    at + 4
                } else {
                    at
                };
                if src.len() < end {
                    Err(short_read())
                } else if head.content_checksum && le_value(src.subrange(at as int, end as int))
                    != xxh32_of(0, content) {
                    Err(ErrorView::Lz4("content checksum mismatch"@))
                } else if content.len() != cap {
                    Err(
                        ErrorView::Lz4(
                            "frame content length mismatch: got "@ + dec_text(content.len())
                                + ", expected "@ + dec_text(cap),
                        ),
                    )
                } else {
                    Ok((end, content))
                }
            },
        },
    }
}

fn xxh32(data: &[u8]) -> (h: u32)
    ensures
        h == xxh32_of(0, data@),
{
    xxhash32_oneshot(0, data)
}

/// The second byte of a hash.
pub fn second_byte(hash: u32) -> (b: u8)
    ensures
        b == hash as int / 256 % 256,
{
    (hash / 256 % 256) as u8
}

/// Header-checksum byte: second byte of XXH32 over the frame descriptor.
fn header_checksum(desc: &[u8]) -> (h: u8)
    ensures
        h == descriptor_check(desc@),
{
    second_byte(xxh32(desc))
}

/// Compares the checksum found in a frame with the hash of what it covers.
pub fn check_sum(found: u32, hash: u32, fault: &str) -> (r: Result<()>)
    ensures
        if found == hash {
            r is Ok
        } else {
            r matches Err(e) && e@ == ErrorView::Lz4(fault@)
        },
{
    if found != hash {
        return Err(Error::Lz4(String::from_str(fault)));
    }
    Ok(())
}

/// What the block decoder's outcome means for the frame: the number of bytes
/// decoded, or an error with the decoder's message.
pub fn block_outcome(decoded: core::result::Result<usize, String>) -> (r: Result<usize>)
    ensures
        match decoded {
            Ok(n) => r == Ok::<usize, Error>(n),
            Err(text) => r matches Err(e) && e@ == ErrorView::Lz4("block decompress: "@ + text@),
        },
{
    match decoded {
        Ok(n) => Ok(n),
        Err(text) => {
            let mut m = String::from_str("block decompress: ");
            m.append(text.as_str());
            Err(Error::Lz4(m))
        },
    }
}

/// Checks that a frame held exactly the expected number of bytes.
pub fn check_length(filled: usize, expected: usize) -> (r: Result<()>)
    ensures
        if filled == expected {
            r is Ok
        } else {
            r matches Err(e) && e@ == ErrorView::Lz4(
                "frame content length mismatch: got "@ + dec_text(filled as nat) + ", expected "@
                    + dec_text(expected as nat),
            )
        },
{
    if filled != expected {
        let mut m = String::from_str("frame content length mismatch: got ");
        push_decimal(&mut m, filled as u64);
        m.append(", expected ");
        push_decimal(&mut m, expected as u64);
        return Err(Error::Lz4(m));
    }
    Ok(())
}

fn read_u32_le(r: &mut Cursor) -> (v: Result<u32>)
    ensures
        final(r).bytes() == old(r).bytes(),
        old(r).at() <= old(r).bytes().len(),
        match v {
            Ok(n) => 4 <= old(r).rest().len() && n == le_value(old(r).rest().take(4)) && final(r).at()
                == old(r).at() + 4,
            Err(e) => 4 > old(r).rest().len() && e@ == short_read() && final(r).at() == old(r).at(),
        },
{
    match r.read_exact(4) {
        Ok(b) => Ok(read_le32(b)),
        Err(e) => Err(e),
    }
}

/// Copies `src` over `dst[at..]`.
fn copy_into(dst: &mut [u8], at: usize, src: &[u8])
    requires
        at + src@.len() <= old(dst)@.len(),
    ensures
        final(dst)@.len() == old(dst)@.len(),
        final(dst)@.subrange(0, at + src@.len()) == old(dst)@.subrange(0, at as int) + src@,
{
    let mut i: usize = 0;
    let n: usize = src.len();
    let len: usize = dst.len();
    while i < n
        invariant
            i <= n == src@.len(),
            at + n <= len,
            dst@.len() == len == old(dst)@.len(),
            forall|j: int| 0 <= j < at ==> dst@[j] == old(dst)@[j],
            forall|j: int| 0 <= j < i ==> dst@[at + j] == src@[j],
        decreases n - i,
    {
        dst[at + i] = src[i];
        i = i + 1;
    }
    assert(dst@.subrange(0, at + n) =~= old(dst)@.subrange(0, at as int) + src@);
}

/// Decodes the block `body` into `dst[filled..]`.
fn decode_block(body: &[u8], dst: &mut [u8], filled: usize) -> (r: Result<usize>)
    requires
        body@.len() <= 0x40_0000,
        filled <= old(dst)@.len(),
    ensures
        final(dst)@.len() == old(dst)@.len(),
        match lz4_block_decode(body@, (old(dst)@.len() - filled) as nat) {
            Ok(content) => r matches Ok(n) && n == content.len() && filled + n <= old(dst)@.len()
                && final(dst)@.subrange(0, filled + n) == old(dst)@.subrange(0, filled as int) + content,
            Err(text) => r matches Err(e) && e@ == ErrorView::Lz4("block decompress: "@ + text),
        },
{
    let (front, back) = dst.split_at_mut(filled);
    let ghost kept = front@;
    let decoded = block_decompress_into(body, back);
    proof {
        if let Ok(n) = decoded {
            assert(final(dst)@ == kept + back@);
            assert(final(dst)@.subrange(0, filled + n) =~= kept + back@.subrange(0, n as int));
        }
    }
    block_outcome(decoded)
}

/// Reads the head of a frame.
fn read_head(r: &mut Cursor) -> (h: Result<(usize, bool, bool, usize)>)
    ensures
        final(r).bytes() == old(r).bytes(),
        old(r).at() <= final(r).at() <= old(r).bytes().len(),
        match frame_head(old(r).rest()) {
            Ok(head) => h matches Ok(t) && t.0 == head.len && t.1 == head.block_checksum && t.2
                == head.content_checksum && t.3 == head.max_block && final(r).at() == old(r).at()
                + head.len && head.max_block <= 0x40_0000,
            Err(e) => h matches Err(x) && x@ == e,
        },
{
    let ghost src = r.rest();
    let ghost start = r.at();
    let magic: u32 = match read_u32_le(r) {
        Ok(v) => v,
        Err(e) => {
            return Err(e);
        },
    };
    assert(src.take(4) =~= src.subrange(0, 4));
    if magic != FRAME_MAGIC {
        return Err(Error::Lz4(String::from_str("bad frame magic")));
    }
    let desc = match r.read_exact(2) {
        Ok(b) => b,
        Err(e) => {
            return Err(e);
        },
    };
    let flg: u8 = desc[0];
    let bd: u8 = desc[1];
    assert(flg == src[4] && bd == src[5]);
    if flg >> 6 != 1 {
        let mut m = String::from_str("unsupported frame version: FLG=0x");
        push_hex(&mut m, flg as u64, 2);
        return Err(Error::Lz4(m));
    }
    let max_block: usize = match bd & 0x70 {
        0x40 => 64 * 1024,
        0x50 => 256 * 1024,
        0x60 => 1024 * 1024,
        0x70 => 4 * 1024 * 1024,
        _ => {
            let mut m = String::from_str("invalid BD byte: 0x");
            push_hex(&mut m, bd as u64, 2);
            return Err(Error::Lz4(m));
        },
    };
    // Optional descriptor fields precede the header checksum.
    let mut desc_full: Vec<u8> = Vec::new();
    desc_full.push(flg);
    desc_full.push(bd);
    if flg & 0x08 != 0 {
        match r.read_exact(8) {
            Ok(b) => {
                desc_full.extend_from_slice(b);
            },
            Err(e) => {
                return Err(e);
            },
        }
    }
    if flg & 0x01 != 0 {
        match r.read_exact(4) {
            Ok(b) => {
                desc_full.extend_from_slice(b);
            },
            Err(e) => {
                return Err(e);
            },
        }
    }
    let ghost end = 4 + descriptor_len(flg);
    assert(desc_full@ =~= src.subrange(4, end as int));
    let hc = match r.read_exact(1) {
        Ok(b) => b,
        Err(e) => {
            return Err(e);
        },
    };
    if hc[0] != header_checksum(desc_full.as_slice()) {
        return Err(Error::Lz4(String::from_str("frame descriptor checksum mismatch")));
    }
    Ok((4 + desc_full.len() + 1, flg & 0x10 != 0, flg & 0x04 != 0, max_block))
}

/// Decompresses exactly one LZ4 frame from `r` into `dst`, consuming exactly
/// the frame's bytes from the reader. Errors unless the frame's uncompressed
/// content is exactly `dst.len()` bytes.
pub fn decompress_frame(r: &mut Cursor, dst: &mut [u8]) -> (res: Result<()>)
    ensures
        final(r).bytes() == old(r).bytes(),
        old(r).at() <= final(r).at() <= old(r).bytes().len(),
        final(dst)@.len() == old(dst)@.len(),
        match frame_decoded(old(r).rest(), old(dst)@.len()) {
            Ok((len, content)) => res is Ok && final(dst)@ == content && final(r).at() == old(r).at()
                + len,
            Err(e) => res matches Err(x) && x@ == e,
        },
{
    let ghost src = r.rest();
    let ghost start = r.at();
    let cap: usize = dst.len();
    let (head_len, block_checksum, content_checksum, max_block) = match read_head(r) {
        Ok(h) => h,
        Err(e) => {
            return Err(e);
        },
    };
    let ghost head = FrameHead {
        len: head_len as nat,
        block_checksum,
        content_checksum,
        max_block: max_block as nat,
    };
    let ghost whole = frame_blocks(src, head.len, head, Seq::empty(), cap as nat);
    let mut filled: usize = 0;
    let mut ended: bool = false;
    let ghost mut at: nat = head.len;
    let ghost mut content: Seq<u8> = Seq::empty();
    assert(dst@.subrange(0, 0) =~= content);
    while !ended
        invariant
            r.bytes() == old(r).bytes(),
            start == old(r).at(),
            r.at() == start + at,
            r.at() <= r.bytes().len(),
            src == old(r).rest(),
            head.block_checksum == block_checksum,
            head.max_block == max_block,
            max_block <= 0x40_0000,
            frame_head(src) == Ok::<FrameHead, ErrorView>(head),
            cap == old(dst)@.len() == dst@.len(),
            filled <= cap,
            content.len() == filled,
            dst@.subrange(0, filled as int) == content,
            whole == frame_blocks(src, head.len, head, Seq::empty(), cap as nat),
            !ended ==> whole == frame_blocks(src, at, head, content, cap as nat),
            ended ==> whole == Ok::<(nat, Seq<u8>), ErrorView>((at, content)),
        decreases r.bytes().len() - r.at(),
    {
        let ghost here = r.rest();
        let ghost before = at;
        assert(here =~= src.subrange(at as int, src.len() as int));
        let raw_size: u32 = match read_u32_le(r) {
            Ok(v) => v,
            Err(e) => {
                return Err(e);
            },
        };
        assert(here.take(4) =~= src.subrange(before as int, (before + 4) as int));
        if raw_size == 0 {
            ended = true;
            proof {
                at = at + 4;
            }
        } else {
            assert(raw_size & 0x8000_0000 != 0 <==> raw_size >= 0x8000_0000) by (bit_vector);
            assert(raw_size & 0x7FFF_FFFF == raw_size % 0x8000_0000) by (bit_vector);
            let uncompressed: bool = raw_size & 0x8000_0000 != 0;
            let size: usize = (raw_size & 0x7FFF_FFFF) as usize;
            if size > max_block {
                let mut m = String::from_str("block size ");
                push_decimal(&mut m, size as u64);
                m.append(" exceeds frame max ");
                push_decimal(&mut m, max_block as u64);
                return Err(Error::Lz4(m));
            }
            let body = match r.read_exact(size) {
                Ok(b) => b,
                Err(e) => {
                    return Err(e);
                },
            };
            assert(body@ =~= src.subrange((before + 4) as int, (before + 4 + size) as int));
            if block_checksum {
                let ghost tail = r.rest();
                let sum: u32 = match read_u32_le(r) {
                    Ok(v) => v,
                    Err(e) => {
                        return Err(e);
                    },
                };
                assert(tail.take(4) =~= src.subrange((before + 4 + size) as int, (before + 8 + size) as int));
                match check_sum(sum, xxh32(body), "block checksum mismatch") {
                    Ok(()) => {},
                    Err(e) => {
                        return Err(e);
                    },
                }
            }
            if uncompressed {
                if size > cap - filled {
                    return Err(
                        Error::Lz4(String::from_str("frame content longer than expected page size")),
                    );
                }
                copy_into(dst, filled, body);
                filled = filled + size;
                proof {
                    content = content + body@;
                }
            } else {
                match decode_block(body, dst, filled) {
                    Ok(n) => {
                        proof {
                            let more = lz4_block_decode(body@, (cap - filled) as nat);
                            content = content + more->Ok_0;
                        }
                        filled = filled + n;
                    },
                    Err(e) => {
                        return Err(e);
                    },
                }
            }
            proof {
                at = (r.at() - start) as nat;
            }
        }
    }
    if content_checksum {
        let ghost tail = r.rest();
        let sum: u32 = match read_u32_le(r) {
            Ok(v) => v,
            Err(e) => {
                return Err(e);
            },
        };
        assert(tail.take(4) =~= src.subrange(at as int, (at + 4) as int));
        let done = slice_subrange(&*dst, 0, filled);
        assert(done@ =~= content);
        match check_sum(sum, xxh32(done), "content checksum mismatch") {
            Ok(()) => {},
            Err(e) => {
                return Err(e);
            },
        }
    }
    assert(filled == cap ==> dst@.subrange(0, filled as int) =~= dst@);
    check_length(filled, cap)
}

/// The number of blocks that `len` bytes make.
pub open spec fn chunk_count(len: nat) -> nat {
    (len + 65535) / 65536
}

/// Block `i` of `data`: 64KB, the last one what is left.
pub open spec fn chunk(data: Seq<u8>, i: int) -> Seq<u8> {
    let end = (i + 1) * 65536;
    data.subrange(
        i * 65536,
        if end < data.len() {
            end
        } else {
            data.len() as int
        },
    )
}

/// How `block`, compressed to `c`, stands in a frame: compressed when that is
/// shorter, else raw with the high bit set on the size.
pub open spec fn block_entry(block: Seq<u8>, c: Seq<u8>) -> Seq<u8> {
    if c.len() >= block.len() {
        le_bytes((block.len() + 0x8000_0000) as nat, 4) + block
    } else {
        le_bytes(c.len(), 4) + c
    }
}

/// The first `n` blocks of `data` as they stand in a frame, block `i`
/// compressed to `cs[i]`.
pub open spec fn block_entries(data: Seq<u8>, cs: Seq<Seq<u8>>, n: nat) -> Seq<u8>
    decreases n,
{
    if n == 0 {
        Seq::empty()
    } else {
        block_entries(data, cs, (n - 1) as nat) + block_entry(chunk(data, n - 1), cs[n - 1])
    }
}

/// The magic number, the descriptor and its checksum.
pub open spec fn frame_start() -> Seq<u8> {
    le_bytes(0x184D_2204, 4) + seq![0x64u8, 0x40u8, descriptor_check(seq![0x64u8, 0x40u8]) as u8]
}

/// The frame of `data` whose blocks compressed to `cs`: the blocks between the
/// head and an end mark, then the checksum of `data`.
pub open spec fn frame_with(data: Seq<u8>, cs: Seq<Seq<u8>>) -> Seq<u8> {
    frame_start() + block_entries(data, cs, cs.len()) + le_bytes(0, 4) + le_bytes(
        xxh32_of(0, data) as nat,
        4,
    )
}

/// Whether the blocks of `cs` are LZ4 blocks for the first blocks of `data`.
pub open spec fn encodes_chunks(data: Seq<u8>, cs: Seq<Seq<u8>>) -> bool {
    forall|i: int|
        0 <= i < cs.len() ==> (#[trigger] cs[i]).len() > 0 && lz4_encodes(cs[i], chunk(data, i))
}

/// Whether `frame` is a frame that holds `data`.
pub open spec fn is_frame_of(frame: Seq<u8>, data: Seq<u8>) -> bool {
    exists|cs: Seq<Seq<u8>>|
        #![trigger frame_with(data, cs)]
        cs.len() == chunk_count(data.len()) && encodes_chunks(data, cs) && frame == frame_with(data, cs)
}

/// Appends `block`, which compressed to `compressed`, as it stands in a frame.
pub fn push_block(block: &[u8], compressed: &[u8], out: &mut Vec<u8>)
    requires
        block@.len() <= 0x1_0000,
    ensures
        final(out)@ == old(out)@ + block_entry(block@, compressed@),
{
    if compressed.len() >= block.len() {
        // Incompressible: store raw with the high bit set on the size.
        let len: u32 = block.len() as u32;
        assert(len <= 0x1_0000 ==> len | 0x8000_0000 == len + 0x8000_0000) by (bit_vector);
        push_le32(out, len | 0x8000_0000);
        out.extend_from_slice(block);
    } else {
        push_le32(out, compressed.len() as u32);
        out.extend_from_slice(compressed);
    }
    assert(out@ =~= old(out)@ + block_entry(block@, compressed@));
}

/// Compresses `data` as one complete LZ4 frame, appending to `out`.
pub fn compress_frame(data: &[u8], out: &mut Vec<u8>)
    ensures
        final(out)@.len() >= old(out)@.len(),
        final(out)@.take(old(out)@.len() as int) == old(out)@,
        is_frame_of(final(out)@.skip(old(out)@.len() as int), data@),
{
    let ghost before = out@;
    push_le32(out, FRAME_MAGIC);
    out.push(FLG);
    out.push(BD);
    let desc: [u8; 2] = [FLG, BD];
    assert(desc@ =~= seq![0x64u8, 0x40u8]);
    out.push(header_checksum(&desc));
    let ghost mut cs: Seq<Seq<u8>> = Seq::empty();
    let n: usize = data.len();
    let mut at: usize = 0;
    assert(out@ =~= before + frame_start() + block_entries(data@, cs, 0));
    while at < n
        invariant
            n == data@.len(),
            at <= n,
            at < n ==> at == cs.len() * 65536,
            at == n ==> cs.len() == chunk_count(n as nat),
            encodes_chunks(data@, cs),
            out@ == before + frame_start() + block_entries(data@, cs, cs.len()),
        decreases n - at,
    {
        let end: usize = if n - at > BLOCK_SIZE {
            at + BLOCK_SIZE
        } else {
            n
        };
        let block = slice_subrange(data, at, end);
        assert(block@ =~= chunk(data@, cs.len() as int));
        let compressed = block_compress(block);
        let ghost pre = out@;
        push_block(block, compressed.as_slice(), out);
        proof {
            let more = cs.push(compressed@);
            assert(out@ =~= pre + block_entry(block@, compressed@));
            lemma_entries_prefix(data@, cs, more, cs.len());
            assert(block_entries(data@, more, more.len()) == block_entries(data@, cs, cs.len())
                + block_entry(block@, compressed@));
            assert(out@ =~= before + frame_start() + block_entries(data@, more, more.len()));
            assert(encodes_chunks(data@, more)) by {
                assert forall|i: int| 0 <= i < more.len() implies (#[trigger] more[i]).len() > 0
                    && lz4_encodes(more[i], chunk(data@, i)) by {
                    if i < cs.len() {
                        assert(more[i] == cs[i]);
                    }
                }
            }
            cs = more;
        }
        at = end;
    }
    push_le32(out, 0);  // end mark
    push_le32(out, xxh32(data));  // content checksum
    proof {
        assert(out@ =~= before + frame_with(data@, cs));
        assert(out@.skip(before.len() as int) =~= frame_with(data@, cs));
        assert(out@.take(before.len() as int) =~= before);
    }
}

/// The entries of the first `n` blocks depend on the first `n` compressed
/// blocks alone.
proof fn lemma_entries_prefix(data: Seq<u8>, a: Seq<Seq<u8>>, b: Seq<Seq<u8>>, n: nat)
    requires
        n <= a.len(),
        n <= b.len(),
        forall|i: int| 0 <= i < n ==> a[i] == b[i],
    ensures
        block_entries(data, a, n) == block_entries(data, b, n),
    decreases n,
{
    if n > 0 {
        lemma_entries_prefix(data, a, b, (n - 1) as nat);
    }
}

/// A frame of `data` decodes to `data`, whatever bytes follow it, and exactly
/// its own bytes are consumed. Room for more bytes than `data` has is
/// answered with a length mismatch, and room for fewer with an error too.
pub proof fn lemma_frame_roundtrip(frame: Seq<u8>, data: Seq<u8>, rest: Seq<u8>, room: nat)
    requires
        is_frame_of(frame, data),
        room <= usize::MAX,
    ensures
        room < data.len() ==> frame_decoded(frame + rest, room) is Err,
        room == data.len() ==> frame_decoded(frame + rest, room) == Ok::<(nat, Seq<u8>), ErrorView>(
            (frame.len(), data),
        ),
        room > data.len() ==> frame_decoded(frame + rest, room) == Err::<(nat, Seq<u8>), ErrorView>(
            ErrorView::Lz4(
                "frame content length mismatch: got "@ + dec_text(data.len()) + ", expected "@
                    + dec_text(room),
            ),
        ),
{
    let cs = choose|cs: Seq<Seq<u8>>|
        #![trigger frame_with(data, cs)]
        cs.len() == chunk_count(data.len()) && encodes_chunks(data, cs) && frame == frame_with(data, cs);
    let src = frame + rest;
    lemma_pow256_values();
    lemma_le_value_of_bytes(0x184D_2204, 4);
    lemma_le_value_of_bytes(0, 4);
    lemma_le_value_of_bytes(xxh32_of(0, data) as nat, 4);
    assert(0x64u8 >> 6 == 1 && 0x64u8 & 0x08 == 0 && 0x64u8 & 0x01 == 0 && 0x64u8 & 0x10 == 0 && 0x64u8
        & 0x04 != 0 && 0x40u8 & 0x70 == 0x40) by (bit_vector);
    assert(src.subrange(0, 4) =~= le_bytes(0x184D_2204, 4));
    assert(src.subrange(4, 6) =~= seq![0x64u8, 0x40u8]);
    let head = FrameHead { len: 7, block_checksum: false, content_checksum: true, max_block: 0x1_0000 };
    assert(frame_head(src) == Ok::<FrameHead, ErrorView>(head));
    assert(src.take(frame.len() as int) =~= frame);
    lemma_blocks_decoded(data, cs, src, head, room, 0);
    let body = block_entries(data, cs, cs.len());
    let at = (7 + body.len()) as nat;
    assert(block_entries(data, cs, 0) =~= Seq::empty());
    assert(data.take(0) =~= Seq::empty());
    assert(src.subrange((at + 4) as int, (at + 8) as int) =~= le_bytes(xxh32_of(0, data) as nat, 4));
}

/// Reading on from block `i` of a frame gives all of `data`, if there is room.
#[verifier::rlimit(60)]
#[verifier::spinoff_prover]
proof fn lemma_blocks_decoded(
    data: Seq<u8>,
    cs: Seq<Seq<u8>>,
    src: Seq<u8>,
    head: FrameHead,
    room: nat,
    i: nat,
)
    requires
        cs.len() == chunk_count(data.len()),
        encodes_chunks(data, cs),
        i <= cs.len(),
        src.len() >= frame_with(data, cs).len(),
        src.take(frame_with(data, cs).len() as int) == frame_with(data, cs),
        head == (FrameHead { len: 7, block_checksum: false, content_checksum: true, max_block: 0x1_0000 }),
        room <= usize::MAX,
        i * 65536 <= room || data.len() <= room,
    ensures
        ({
            let done = if i * 65536 < data.len() {
                (i * 65536) as int
            } else {
                data.len() as int
            };
            let blocks = frame_blocks(
                src,
                (7 + block_entries(data, cs, i).len()) as nat,
                head,
                data.take(done),
                room,
            );
            &&& data.len() <= room ==> blocks == Ok::<(nat, Seq<u8>), ErrorView>(
                ((7 + block_entries(data, cs, cs.len()).len() + 4) as nat, data),
            )
            &&& room < data.len() ==> blocks is Err
        }),
    decreases cs.len() - i,
{
    let frame = frame_with(data, cs);
    let at = (7 + block_entries(data, cs, i).len()) as nat;
    lemma_pow256_values();
    lemma_le_value_of_bytes(0x184D_2204, 4);
    lemma_le_value_of_bytes(0, 4);
    lemma_le_value_of_bytes(xxh32_of(0, data) as nat, 4);
    assert(frame_start().len() == 7);
    if i == cs.len() {
        assert(data.take(data.len() as int) =~= data);
        assert(src.subrange(at as int, (at + 4) as int) =~= frame.subrange(at as int, (at + 4) as int)) by {
            lemma_take_subrange(src, frame, at as int, (at + 4) as int);
        }
        assert(frame.subrange(at as int, (at + 4) as int) =~= le_bytes(0, 4));
    } else {
        let block = chunk(data, i as int);
        let c = cs[i as int];
        let entry = block_entry(block, c);
        let done = i * 65536;
        lemma_entries_grow(data, cs, (i + 1) as nat, cs.len());
        let upto = block_entries(data, cs, (i + 1) as nat);
        assert(upto == block_entries(data, cs, i) + entry);
        let next = (at + entry.len()) as nat;
        assert(frame.subrange(at as int, next as int) =~= entry) by {
            let all = block_entries(data, cs, cs.len());
            assert(all.take(upto.len() as int) == upto);
            assert forall|j: int| at <= j < next implies frame[j] == entry[j - at] by {
                assert(frame[j] == all[j - 7]);
                assert(all[j - 7] == all.take(upto.len() as int)[j - 7]);
            }
        }
        assert(src.subrange(at as int, next as int) =~= entry) by {
            lemma_take_subrange(src, frame, at as int, next as int);
        }
        let raw: nat = if c.len() >= block.len() {
            (block.len() + 0x8000_0000) as nat
        } else {
            c.len()
        };
        lemma_le_value_of_bytes(raw, 4);
        assert(src.subrange(at as int, (at + 4) as int) =~= src.subrange(at as int, next as int).take(4));
        assert(entry.take(4) =~= le_bytes(raw, 4));
        assert(src.subrange((at + 4) as int, next as int) =~= src.subrange(at as int, next as int).skip(4));
        let content = data.take(done as int);
        if c.len() >= block.len() {
            assert(entry.skip(4) =~= block);
        } else {
            assert(entry.skip(4) =~= c);
            assert(lz4_block_decode(c, (room - content.len()) as nat) is Err <==> room - content.len()
                < block.len());
        }
        let done_next = if (i + 1) * 65536 < data.len() {
            ((i + 1) * 65536) as int
        } else {
            data.len() as int
        };
        assert(content + block =~= data.take(done_next));
        if content.len() + block.len() <= room {
            lemma_blocks_decoded(data, cs, src, head, room, (i + 1) as nat);
        }
    }
}

proof fn lemma_take_subrange(src: Seq<u8>, front: Seq<u8>, a: int, b: int)
    requires
        0 <= a <= b <= front.len() <= src.len(),
        src.take(front.len() as int) == front,
    ensures
        src.subrange(a, b) == front.subrange(a, b),
{
    assert forall|j: int| a <= j < b implies src[j] == front[j] by {
        assert(src.take(front.len() as int)[j] == src[j]);
    }
    assert(src.subrange(a, b) =~= front.subrange(a, b));
}

proof fn lemma_entries_grow(data: Seq<u8>, cs: Seq<Seq<u8>>, n: nat, m: nat)
    requires
        n <= m,
    ensures
        block_entries(data, cs, n).len() <= block_entries(data, cs, m).len(),
        block_entries(data, cs, m).take(block_entries(data, cs, n).len() as int) == block_entries(
            data,
            cs,
            n,
        ),
    decreases m - n,
{
    let a = block_entries(data, cs, n);
    let b = block_entries(data, cs, m);
    if n == m {
        assert(b.take(a.len() as int) =~= a);
    } else {
        lemma_entries_grow(data, cs, n, (m - 1) as nat);
        let c = block_entries(data, cs, (m - 1) as nat);
        assert(b.take(a.len() as int) =~= c.take(a.len() as int));
    }
}

/// A block of a frame: its bytes, whether they are the content itself, and the
/// content.
pub struct FrameBlock {
    pub body: Seq<u8>,
    pub raw: bool,
    pub content: Seq<u8>,
}

/// A block as it stands in a frame: its size, with the high bit set on a raw
/// one, its bytes, and their checksum where blocks are checksummed.
pub open spec fn block_written(b: FrameBlock, summed: bool) -> Seq<u8> {
    let size = b.body.len() + (if b.raw {
        0x8000_0000nat
    } else {
        0nat
    });
    let sum = if summed {
        le_bytes(xxh32_of(0, b.body) as nat, 4)
    } else {
        Seq::empty()
    };
    le_bytes(size, 4) + b.body + sum
}

/// Blocks as they stand in a frame, one behind the other.
pub open spec fn blocks_written(bs: Seq<FrameBlock>, summed: bool) -> Seq<u8>
    decreases bs.len(),
{
    if bs.len() == 0 {
        Seq::empty()
    } else {
        block_written(bs[0], summed) + blocks_written(bs.drop_first(), summed)
    }
}

/// The content of blocks, one behind the other.
pub open spec fn blocks_content(bs: Seq<FrameBlock>) -> Seq<u8>
    decreases bs.len(),
{
    if bs.len() == 0 {
        Seq::empty()
    } else {
        bs[0].content + blocks_content(bs.drop_first())
    }
}

/// Whether no block is larger than `max` and each holds its content: raw, with
/// room for it, or as an LZ4 block for the room that those before it leave.
pub open spec fn blocks_hold(bs: Seq<FrameBlock>, max: nat, room: int) -> bool
    decreases bs.len(),
{
    bs.len() > 0 ==> {
        let b = bs[0];
        &&& b.body.len() <= max
        &&& if b.raw {
            b.content == b.body && b.body.len() <= room
        } else {
            b.body.len() > 0 && lz4_block_decode(b.body, room as nat) == Ok::<Seq<u8>, Seq<char>>(
                b.content,
            )
        }
        &&& blocks_hold(bs.drop_first(), max, room - b.content.len())
    }
}

/// What a frame can be: its FLG and BD bytes, the fields between them and the
/// check byte, and its blocks.
pub struct FrameParts {
    pub flg: u8,
    pub bd: u8,
    pub fields: Seq<u8>,
    pub blocks: Seq<FrameBlock>,
}

impl FrameParts {
    /// The block size limit: 64KB, 256KB, 1MB or 4MB, by bits 4 to 6 of BD.
    pub open spec fn max_block(self) -> nat {
        let k = self.bd / 16 % 8;
        if k == 4 {
            65536
        } else if k == 5 {
            262144
        } else if k == 6 {
            1048576
        } else {
            4194304
        }
    }

    /// Whether these are the parts of a frame with `room` bytes of content:
    /// version 1, a known block size limit, a content size of 8 bytes and a
    /// dictionary ID of 4 where bits 3 and 0 of FLG say so, and blocks that
    /// hold so much.
    pub open spec fn holds(self, room: nat) -> bool {
        &&& self.flg / 64 == 1
        &&& 4 <= self.bd / 16 % 8 <= 7
        &&& self.fields.len() == 8 * (self.flg / 8 % 2) + 4 * (self.flg % 2)
        &&& blocks_hold(self.blocks, self.max_block(), room as int)
        &&& blocks_content(self.blocks).len() == room
    }

    /// The frame: the magic number, the descriptor and its check byte, the
    /// blocks, checksummed where bit 4 of FLG says so, four zeros, and the
    /// checksum of the content where bit 2 says so.
    pub open spec fn frame(self) -> Seq<u8> {
        let desc = seq![self.flg, self.bd] + self.fields;
        let sum = if self.flg / 4 % 2 == 1 {
            le_bytes(xxh32_of(0, blocks_content(self.blocks)) as nat, 4)
        } else {
            Seq::empty()
        };
        seq![0x04u8, 0x22u8, 0x4Du8, 0x18u8] + desc + seq![(xxh32_of(0, desc) / 256 % 256) as u8]
            + blocks_written(self.blocks, self.flg / 16 % 2 == 1) + seq![0u8, 0u8, 0u8, 0u8] + sum
    }
}

/// Every frame of the format is read: whichever encoder put its parts
/// together, decoding gives the content of its blocks and consumes exactly its
/// bytes, whatever follows them.
pub proof fn lemma_frame_read(parts: FrameParts, room: nat, rest: Seq<u8>)
    requires
        parts.holds(room),
    ensures
        frame_decoded(parts.frame() + rest, room) == Ok::<(nat, Seq<u8>), ErrorView>(
            (parts.frame().len(), blocks_content(parts.blocks)),
        ),
{
    let flg = parts.flg;
    let bs = parts.blocks;
    let src = parts.frame() + rest;
    let summed = flg / 16 % 2 == 1;
    let desc = seq![flg, parts.bd] + parts.fields;
    let end = 4 + desc.len();
    lemma_marks();
    lemma_flag_bits(flg, parts.bd);
    lemma_pow256_values();
    assert(src.subrange(0, 4) =~= seq![0x04u8, 0x22u8, 0x4Du8, 0x18u8]);
    assert(src[4] == flg && src[5] == parts.bd);
    assert(src.subrange(4, end as int) =~= desc);
    assert(src[end as int] == descriptor_check(desc));
    let head = FrameHead {
        len: (end + 1) as nat,
        block_checksum: summed,
        content_checksum: flg / 4 % 2 == 1,
        max_block: parts.max_block(),
    };
    assert(frame_head(src) == Ok::<FrameHead, ErrorView>(head));
    let content = blocks_content(bs);
    let sum = if flg / 4 % 2 == 1 {
        le_bytes(xxh32_of(0, content) as nat, 4)
    } else {
        Seq::empty()
    };
    let written = blocks_written(bs, summed);
    let tail = written + seq![0u8, 0u8, 0u8, 0u8] + (sum + rest);
    assert(src.skip(head.len as int) =~= tail);
    lemma_blocks_read(src, head.len, head, Seq::empty(), room, bs, sum + rest);
    assert(Seq::<u8>::empty() + content =~= content);
    lemma_le_value_of_bytes(xxh32_of(0, content) as nat, 4);
    let at = head.len + written.len() + 4;
    if flg / 4 % 2 == 1 {
        assert(src.subrange(at as int, (at + 4) as int) =~= sum);
    }
}

/// Nothing but frames of the format is read: what was consumed is the frame of
/// the parts given here, and the content is that of their blocks.
pub proof fn lemma_frame_taken_apart(src: Seq<u8>, room: nat) -> (parts: FrameParts)
    requires
        frame_decoded(src, room) is Ok,
    ensures
        parts.holds(room),
        frame_decoded(src, room) == Ok::<(nat, Seq<u8>), ErrorView>(
            (parts.frame().len(), blocks_content(parts.blocks)),
        ),
        parts.frame().len() <= src.len(),
        src.take(parts.frame().len() as int) == parts.frame(),
{
    let flg = src[4];
    let bd = src[5];
    let head = frame_head(src)->Ok_0;
    let end = head.len - 1;
    lemma_marks();
    lemma_flag_bits(flg, bd);
    lemma_pow256_values();
    lemma_le_bytes_of_value(src.subrange(0, 4));
    let bs = lemma_blocks_taken_apart(src, head.len, head, Seq::empty(), room);
    let content = blocks_content(bs);
    assert(Seq::<u8>::empty() + content =~= content);
    let parts = FrameParts { flg, bd, fields: src.subrange(6, end), blocks: bs };
    let desc = seq![flg, bd] + parts.fields;
    assert(src.subrange(4, end) =~= desc);
    let at = frame_blocks(src, head.len, head, Seq::empty(), room)->Ok_0.0;
    if head.content_checksum {
        lemma_le_bytes_of_value(src.subrange(at as int, (at + 4) as int));
    }
    let n = parts.frame().len() as int;
    let magic = src.subrange(0, 4);
    assert(magic =~= seq![0x04u8, 0x22u8, 0x4Du8, 0x18u8]);
    let front = magic + desc + seq![(xxh32_of(0, desc) / 256 % 256) as u8];
    assert(src.take(head.len as int) =~= front);
    let middle = blocks_written(bs, head.block_checksum) + seq![0u8, 0u8, 0u8, 0u8];
    let sum = src.subrange(at as int, n);
    assert(src.take(n) =~= src.take(head.len as int) + src.subrange(head.len as int, at as int) + sum);
    assert(parts.frame() =~= front + middle + sum);
    parts
}

/// The magic number and the end mark as bytes.
proof fn lemma_marks()
    ensures
        le_bytes(0x184D_2204, 4) == seq![0x04u8, 0x22u8, 0x4Du8, 0x18u8],
        le_value(seq![0x04u8, 0x22u8, 0x4Du8, 0x18u8]) == 0x184D_2204,
        le_bytes(0, 4) == seq![0u8, 0u8, 0u8, 0u8],
        le_value(seq![0u8, 0u8, 0u8, 0u8]) == 0,
{
    lemma_pow256_values();
    reveal_with_fuel(be_bytes, 5);
    assert(le_bytes(0x184D_2204, 4) =~= seq![0x04u8, 0x22u8, 0x4Du8, 0x18u8]);
    assert(le_bytes(0, 4) =~= seq![0u8, 0u8, 0u8, 0u8]);
    lemma_le_value_of_bytes(0x184D_2204, 4);
    lemma_le_value_of_bytes(0, 4);
}

/// The bits of the FLG and BD bytes, as digits.
proof fn lemma_flag_bits(flg: u8, bd: u8)
    ensures
        flg >> 6 == flg / 64,
        flg & 0x10 != 0 <==> flg / 16 % 2 == 1,
        flg & 0x08 != 0 <==> flg / 8 % 2 == 1,
        flg & 0x04 != 0 <==> flg / 4 % 2 == 1,
        flg & 0x01 != 0 <==> flg % 2 == 1,
        bd & 0x70 == 16 * (bd / 16 % 8),
{
    assert(flg >> 6 == flg / 64 && (flg & 0x10 != 0 <==> flg / 16 % 2 == 1) && (flg & 0x08 != 0 <==> flg
        / 8 % 2 == 1) && (flg & 0x04 != 0 <==> flg / 4 % 2 == 1) && (flg & 0x01 != 0 <==> flg % 2 == 1)
        && bd & 0x70 == 16 * (bd / 16 % 8)) by (bit_vector);
}

/// Reading blocks as they were written gives their content.
#[verifier::rlimit(60)]
#[verifier::spinoff_prover]
proof fn lemma_blocks_read(
    src: Seq<u8>,
    at: nat,
    head: FrameHead,
    content: Seq<u8>,
    cap: nat,
    bs: Seq<FrameBlock>,
    rest: Seq<u8>,
)
    requires
        at <= src.len(),
        src.skip(at as int) == blocks_written(bs, head.block_checksum) + seq![0u8, 0u8, 0u8, 0u8] + rest,
        head.max_block <= 0x40_0000,
        blocks_hold(bs, head.max_block, cap - content.len()),
    ensures
        frame_blocks(src, at, head, content, cap) == Ok::<(nat, Seq<u8>), ErrorView>(
            (
                (at + blocks_written(bs, head.block_checksum).len() + 4) as nat,
                content + blocks_content(bs),
            ),
        ),
    decreases bs.len(),
{
    let summed = head.block_checksum;
    let here = src.skip(at as int);
    lemma_marks();
    lemma_pow256_values();
    if bs.len() == 0 {
        assert(src.subrange(at as int, (at + 4) as int) =~= here.take(4));
        assert(here.take(4) =~= seq![0u8, 0u8, 0u8, 0u8]);
        assert(content + blocks_content(bs) =~= content);
    } else {
        let b = bs[0];
        let more = bs.drop_first();
        let w = block_written(b, summed);
        let size = (b.body.len() + (if b.raw {
            0x8000_0000nat
        } else {
            0nat
        })) as nat;
        let next = (at + w.len()) as nat;
        lemma_le_value_of_bytes(size, 4);
        lemma_le_value_of_bytes(xxh32_of(0, b.body) as nat, 4);
        let tail = blocks_written(more, summed) + seq![0u8, 0u8, 0u8, 0u8] + rest;
        assert(here =~= w + tail);
        assert(here.len() == src.len() - at);
        assert forall|k: int| 0 <= k < w.len() implies src[at + k] == #[trigger] w[k] by {
            assert(here[k] == w[k]);
        }
        assert(src.subrange(at as int, (at + 4) as int) =~= w.take(4));
        assert(w.take(4) =~= le_bytes(size, 4));
        let end = (at + 4 + b.body.len()) as int;
        assert(src.subrange((at + 4) as int, end) =~= w.subrange(4, (4 + b.body.len()) as int));
        assert(w.subrange(4, (4 + b.body.len()) as int) =~= b.body);
        if summed {
            assert(src.subrange(end, next as int) =~= w.skip((4 + b.body.len()) as int));
            assert(w.skip((4 + b.body.len()) as int) =~= le_bytes(xxh32_of(0, b.body) as nat, 4));
        }
        assert(src.skip(next as int) =~= here.skip(w.len() as int));
        assert(here.skip(w.len() as int) =~= tail);
        lemma_blocks_read(src, next, head, content + b.content, cap, more, rest);
        assert((content + b.content) + blocks_content(more) =~= content + blocks_content(bs));
    }
}

/// The blocks that were read.
proof fn lemma_blocks_taken_apart(
    src: Seq<u8>,
    at: nat,
    head: FrameHead,
    content: Seq<u8>,
    cap: nat,
) -> (bs: Seq<FrameBlock>)
    requires
        at <= src.len(),
        frame_blocks(src, at, head, content, cap) is Ok,
    ensures
        blocks_hold(bs, head.max_block, cap - content.len()),
        ({
            let written = blocks_written(bs, head.block_checksum) + seq![0u8, 0u8, 0u8, 0u8];
            let end = at + written.len();
            &&& end <= src.len()
            &&& src.subrange(at as int, end as int) == written
            &&& frame_blocks(src, at, head, content, cap) == Ok::<(nat, Seq<u8>), ErrorView>(
                (end as nat, content + blocks_content(bs)),
            )
        }),
    decreases src.len() - at,
{
    let summed = head.block_checksum;
    let mark = seq![0u8, 0u8, 0u8, 0u8];
    lemma_marks();
    lemma_pow256_values();
    let word = src.subrange(at as int, (at + 4) as int);
    let raw = le_value(word);
    lemma_le_bytes_of_value(word);
    if raw == 0 {
        let bs = Seq::<FrameBlock>::empty();
        assert(blocks_written(bs, summed) + mark =~= mark);
        assert(content + blocks_content(bs) =~= content);
        bs
    } else {
        let size = raw % 0x8000_0000;
        let end = at + 4 + size;
        let next = if summed {
            end + 4
        } else {
            end
        };
        let body = src.subrange((at + 4) as int, end as int);
        let got = if raw >= 0x8000_0000 {
            body
        } else {
            lz4_block_decode(body, (cap - content.len()) as nat)->Ok_0
        };
        let b = FrameBlock { body, raw: raw >= 0x8000_0000, content: got };
        let more = lemma_blocks_taken_apart(src, next, head, content + got, cap);
        let bs = seq![b] + more;
        assert(bs.drop_first() =~= more);
        if summed {
            lemma_le_bytes_of_value(src.subrange(end as int, next as int));
        }
        assert(src.subrange(at as int, next as int) =~= block_written(b, summed));
        let tail = blocks_written(more, summed) + mark;
        let stop = next + tail.len();
        assert(blocks_written(bs, summed) + mark =~= block_written(b, summed) + tail);
        assert(src.subrange(at as int, stop as int) =~= src.subrange(at as int, next as int)
            + src.subrange(next as int, stop as int));
        assert((content + got) + blocks_content(more) =~= content + blocks_content(bs));
        bs
    }
}

/// The ends of a frame that this crate writes: the magic number, version 1 with
/// a checksum of the content and independent blocks of 64KB at most, the check
/// byte; and at the back four zeros and the checksum of the content.
pub proof fn lemma_frame_ends(frame: Seq<u8>, data: Seq<u8>)
    requires
        is_frame_of(frame, data),
    ensures
        frame.len() >= 15,
        frame.take(6) == seq![0x04u8, 0x22u8, 0x4Du8, 0x18u8, 0x64u8, 0x40u8],
        frame[6] == xxh32_of(0, seq![0x64u8, 0x40u8]) / 256 % 256,
        frame.subrange(frame.len() - 8, frame.len() - 4) == seq![0u8, 0u8, 0u8, 0u8],
        le_value(frame.skip(frame.len() - 4)) == xxh32_of(0, data),
        data.len() == 0 ==> frame.len() == 15,
{
    let cs = choose|cs: Seq<Seq<u8>>|
        #![trigger frame_with(data, cs)]
        cs.len() == chunk_count(data.len()) && encodes_chunks(data, cs) && frame == frame_with(data, cs);
    lemma_marks();
    lemma_pow256_values();
    lemma_le_value_of_bytes(xxh32_of(0, data) as nat, 4);
    assert(frame.take(6) =~= seq![0x04u8, 0x22u8, 0x4Du8, 0x18u8, 0x64u8, 0x40u8]);
    assert(frame.subrange(frame.len() - 8, frame.len() - 4) =~= seq![0u8, 0u8, 0u8, 0u8]);
    assert(frame.skip(frame.len() - 4) =~= le_bytes(xxh32_of(0, data) as nat, 4));
}

/// The blocks of a frame that this crate writes cover the data without gap or
/// overlap: 65536 bytes each, the last one what is left and never none. A
/// block takes four bytes and the shorter of itself and its compressed form.
pub proof fn lemma_blocks_cover(data: Seq<u8>, i: int, j: int, c: Seq<u8>)
    requires
        0 <= i < chunk_count(data.len()),
        0 <= j < chunk(data, i).len(),
        c.len() < 0x8000_0000,
    ensures
        (chunk_count(data.len()) - 1) * 65536 < data.len() <= chunk_count(data.len()) * 65536,
        chunk(data, i).len() == if i < chunk_count(data.len()) - 1 {
            65536int
        } else {
            data.len() - i * 65536
        },
        chunk(data, i)[j] == data[i * 65536 + j],
        block_entry(chunk(data, i), c).len() == 4 + if c.len() < chunk(data, i).len() {
            c.len()
        } else {
            chunk(data, i).len()
        },
        block_entry(chunk(data, i), c).skip(4) == if c.len() < chunk(data, i).len() {
            c
        } else {
            chunk(data, i)
        },
        le_value(block_entry(chunk(data, i), c).take(4)) >= 0x8000_0000 <==> c.len() >= chunk(
            data,
            i,
        ).len(),
{
    let block = chunk(data, i);
    lemma_pow256_values();
    lemma_le_value_of_bytes((block.len() + 0x8000_0000) as nat, 4);
    if c.len() < block.len() {
        lemma_le_value_of_bytes(c.len(), 4);
        assert(block_entry(block, c).skip(4) =~= c);
        assert(block_entry(block, c).take(4) =~= le_bytes(c.len(), 4));
    } else {
        assert(block_entry(block, c).skip(4) =~= block);
        assert(block_entry(block, c).take(4) =~= le_bytes((block.len() + 0x8000_0000) as nat, 4));
    }
}

/// A frame that is cut short anywhere is a short read, and no other error.
pub proof fn lemma_frame_cut_short(src: Seq<u8>, room: nat, k: int)
    requires
        frame_decoded(src, room) matches Ok(r) && 0 <= k < r.0,
    ensures
        frame_decoded(src.take(k), room) == Err::<(nat, Seq<u8>), ErrorView>(
            ErrorView::Io(
                IoErrorView {
                    kind: IoErrorKind::UnexpectedEof,
                    message: "failed to fill whole buffer"@,
                },
            ),
        ),
{
    let part = src.take(k);
    let head = frame_head(src)->Ok_0;
    let (at, _) = frame_blocks(src, head.len, head, Seq::empty(), room)->Ok_0;
    if k >= 4 {
        assert(part.subrange(0, 4) =~= src.subrange(0, 4));
    }
    if k >= head.len {
        assert(part.subrange(4, head.len - 1) =~= src.subrange(4, head.len - 1));
        lemma_blocks_cut_short(src, head.len, head, Seq::empty(), room, k);
    }
}

proof fn lemma_blocks_cut_short(
    src: Seq<u8>,
    at: nat,
    head: FrameHead,
    content: Seq<u8>,
    cap: nat,
    k: int,
)
    requires
        frame_blocks(src, at, head, content, cap) is Ok,
        at <= k <= src.len(),
    ensures
        ({
            let whole = frame_blocks(src, at, head, content, cap);
            let part = frame_blocks(src.take(k), at, head, content, cap);
            if k < whole->Ok_0.0 {
                part == Err::<(nat, Seq<u8>), ErrorView>(short_read())
            } else {
                part == whole
            }
        }),
        at < frame_blocks(src, at, head, content, cap)->Ok_0.0 <= src.len(),
    decreases src.len() - at,
{
    let part = src.take(k);
    let raw = le_value(src.subrange(at as int, (at + 4) as int));
    let size = raw % 0x8000_0000;
    let end = at + 4 + size;
    let next = if head.block_checksum {
        end + 4
    } else {
        end
    };
    if raw != 0 {
        let body = src.subrange((at + 4) as int, end as int);
        let more = if raw >= 0x8000_0000 {
            body
        } else {
            lz4_block_decode(body, (cap - content.len()) as nat)->Ok_0
        };
        if next <= k {
            lemma_blocks_cut_short(src, next, head, content + more, cap, k);
        } else {
            lemma_blocks_cut_short(src, next, head, content + more, cap, src.len() as int);
        }
        if k >= next {
            assert(part.subrange((at + 4) as int, end as int) =~= body);
            assert(part.subrange(end as int, next as int) =~= src.subrange(end as int, next as int));
        }
    }
    if k >= at + 4 {
        assert(part.subrange(at as int, (at + 4) as int) =~= src.subrange(at as int, (at + 4) as int));
    }
}

} // verus!
