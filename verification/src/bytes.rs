//! Fixed-width integers as bytes, big endian and little endian.

use vstd::arithmetic::div_mod::lemma_div_denominator;
use vstd::arithmetic::power::{lemma_pow0, lemma_pow1, lemma_pow_adds, lemma_pow_positive, pow};
use vstd::prelude::*;

verus! {

/// The number written in base 256 by `s`, most significant byte first.
pub open spec fn be_value(s: Seq<u8>) -> nat
    decreases s.len(),
{
    if s.len() == 0 {
        0
    } else {
        256 * be_value(s.drop_last()) + s.last() as nat
    }
}

/// The last `width` base-256 digits of `v`, most significant first.
pub open spec fn be_bytes(v: nat, width: nat) -> Seq<u8>
    decreases width,
{
    if width == 0 {
        Seq::empty()
    } else {
        be_bytes(v / 256, (width - 1) as nat).push((v % 256) as u8)
    }
}

/// The number written in base 256 by `s`, least significant byte first.
pub open spec fn le_value(s: Seq<u8>) -> nat {
    be_value(s.reverse())
}

/// The last `width` base-256 digits of `v`, least significant first.
pub open spec fn le_bytes(v: nat, width: nat) -> Seq<u8> {
    be_bytes(v, width).reverse()
}

/// The unsigned number with the same 64 bits as `v`.
pub open spec fn i64_bits(v: i64) -> nat {
    if v < 0 {
        (v + 0x1_0000_0000_0000_0000) as nat
    } else {
        v as nat
    }
}

/// The signed number with the 64 bits of `v`.
pub open spec fn bits_i64(v: nat) -> int {
    if v >= 0x8000_0000_0000_0000 {
        v - 0x1_0000_0000_0000_0000
    } else {
        v as int
    }
}

proof fn lemma_pow_step(w: nat)
    ensures
        pow(256, w + 1) == 256 * pow(256, w),
{
    lemma_pow_adds(256, 1, w);
    lemma_pow1(256);
}

/// `256^w` for the widths in use.
pub proof fn lemma_pow256_values()
    ensures
        pow(256, 2) == 0x1_0000,
        pow(256, 4) == 0x1_0000_0000,
        pow(256, 8) == 0x1_0000_0000_0000_0000,
{
    lemma_pow0(256);
    lemma_pow_step(0);
    lemma_pow_step(1);
    lemma_pow_step(2);
    lemma_pow_step(3);
    lemma_pow_step(4);
    lemma_pow_step(5);
    lemma_pow_step(6);
    lemma_pow_step(7);
}

pub proof fn lemma_be_bytes_len(v: nat, width: nat)
    ensures
        be_bytes(v, width).len() == width,
    decreases width,
{
    if width > 0 {
        lemma_be_bytes_len(v / 256, (width - 1) as nat);
    }
}

/// Reading back what `be_bytes` wrote gives the number again.
pub proof fn lemma_be_value_of_bytes(v: nat, width: nat)
    requires
        v < pow(256, width),
    ensures
        be_value(be_bytes(v, width)) == v,
    decreases width,
{
    lemma_pow0(256);
    if width > 0 {
        let w = (width - 1) as nat;
        lemma_pow_step(w);
        assert(v / 256 < pow(256, w)) by (nonlinear_arith)
            requires
                v < 256 * pow(256, w),
        ;
        lemma_be_value_of_bytes(v / 256, w);
        assert(be_bytes(v, width).drop_last() =~= be_bytes(v / 256, w));
    }
}

/// The value of `s` needs no more digits than `s` has, and writing it with
/// that width gives `s` again.
pub proof fn lemma_be_bytes_of_value(s: Seq<u8>)
    ensures
        be_value(s) < pow(256, s.len()),
        be_bytes(be_value(s), s.len()) == s,
    decreases s.len(),
{
    lemma_pow0(256);
    if s.len() > 0 {
        let t = s.drop_last();
        lemma_be_bytes_of_value(t);
        lemma_pow_step(t.len());
        assert(be_value(s) / 256 == be_value(t));
        assert(be_value(s) % 256 == s.last() as nat);
        assert(be_bytes(be_value(s), s.len()) =~= t.push(s.last()));
        assert(t.push(s.last()) =~= s);
    } else {
        assert(be_bytes(0, 0) =~= s);
    }
}

/// The little-endian counterparts of the three lemmas above.
pub proof fn lemma_le_value_of_bytes(v: nat, width: nat)
    requires
        v < pow(256, width),
    ensures
        le_bytes(v, width).len() == width,
        le_value(le_bytes(v, width)) == v,
{
    lemma_be_bytes_len(v, width);
    lemma_be_value_of_bytes(v, width);
    assert(le_bytes(v, width).reverse() =~= be_bytes(v, width));
}

/// Writing the value of `s` in as many little-endian bytes gives `s` again.
pub proof fn lemma_le_bytes_of_value(s: Seq<u8>)
    ensures
        le_value(s) < pow(256, s.len()),
        le_bytes(le_value(s), s.len()) == s,
{
    lemma_be_bytes_of_value(s.reverse());
    assert(s.reverse().reverse() =~= s);
}

/// Bytes count by their place. A byte alone is its own number; of two runs of
/// bytes written one behind the other, the first counts 256 times for every
/// byte of the second, where the most significant byte comes first, and the
/// second for every byte of the first, where it comes last.
pub proof fn lemma_bytes_by_place(a: Seq<u8>, b: Seq<u8>, x: u8)
    ensures
        be_value(seq![x]) == x,
        le_value(seq![x]) == x,
        be_value(a + b) == be_value(a) * pow(256, b.len()) + be_value(b),
        le_value(a + b) == le_value(a) + le_value(b) * pow(256, a.len()),
{
    assert(seq![x].drop_last() =~= Seq::<u8>::empty());
    assert(be_value(Seq::<u8>::empty()) == 0);
    assert(be_value(seq![x]) == x);
    assert(seq![x].reverse() =~= seq![x]);
    lemma_be_joined(a, b);
    lemma_be_joined(b.reverse(), a.reverse());
    assert((a + b).reverse() =~= b.reverse() + a.reverse());
}

proof fn lemma_be_joined(a: Seq<u8>, b: Seq<u8>)
    ensures
        be_value(a + b) == be_value(a) * pow(256, b.len()) + be_value(b),
    decreases b.len(),
{
    lemma_pow0(256);
    if b.len() == 0 {
        assert(a + b =~= a);
    } else {
        let t = b.drop_last();
        lemma_be_joined(a, t);
        lemma_pow_step(t.len());
        assert((a + b).drop_last() =~= a + t);
        let (n, p, m) = (be_value(a) as int, pow(256, t.len()), be_value(t) as int);
        assert(256 * (n * p + m) == n * (256 * p) + 256 * m) by (nonlinear_arith);
    }
}

/// The bytes written for a number are its digits in base 256: byte `i` of
/// `width` holds what is left of the number once the `width - 1 - i` digits
/// behind it are gone, without the digits in front. With the least significant
/// byte first, the same bytes stand in the opposite order.
pub proof fn lemma_bytes_are_digits(v: nat, width: nat, i: int)
    requires
        0 <= i < width,
    ensures
        be_bytes(v, width).len() == width,
        be_bytes(v, width)[i] == v as int / pow(256, (width - 1 - i) as nat) % 256,
        le_bytes(v, width).len() == width,
        le_bytes(v, width)[i] == v as int / pow(256, i as nat) % 256,
{
    lemma_be_bytes_len(v, width);
    lemma_be_digit(v, width, i);
    lemma_be_digit(v, width, width - 1 - i);
}

proof fn lemma_be_digit(v: nat, width: nat, i: int)
    requires
        0 <= i < width,
    ensures
        be_bytes(v, width)[i] == v as int / pow(256, (width - 1 - i) as nat) % 256,
    decreases width,
{
    lemma_pow0(256);
    lemma_be_bytes_len(v / 256, (width - 1) as nat);
    if i < width - 1 {
        let k = (width - 2 - i) as nat;
        lemma_be_digit(v / 256, (width - 1) as nat, i);
        lemma_pow_step(k);
        lemma_pow_positive(256, k);
        lemma_div_denominator(v as int, 256, pow(256, k));
    }
}

/// The 64 bits of a signed number are those of the number modulo 2^64, and
/// they name it: two numbers never share them, and reading them back gives the
/// number.
pub proof fn lemma_signed_bits(v: i64, bits: u64)
    ensures
        i64_bits(v) == v as int % 0x1_0000_0000_0000_0000,
        bits_i64(i64_bits(v)) == v,
        i64::MIN <= bits_i64(bits as nat) <= i64::MAX,
        i64_bits(bits_i64(bits as nat) as i64) == bits,
{
}

/// Appends the `width` big-endian bytes of `v`.
pub fn push_be(out: &mut Vec<u8>, v: u64, width: u32)
    ensures
        final(out)@ == old(out)@ + be_bytes(v as nat, width as nat),
    decreases width,
{
    if width > 0 {
        push_be(out, v / 256, width - 1);
        out.push((v % 256) as u8);
    }
}

/// Appends the four little-endian bytes of `v`.
pub fn push_le32(out: &mut Vec<u8>, v: u32)
    ensures
        final(out)@ == old(out)@ + le_bytes(v as nat, 4),
{
    out.push((v % 256) as u8);
    out.push((v / 256 % 256) as u8);
    out.push((v / 65536 % 256) as u8);
    out.push((v / 16777216) as u8);
    proof {
        let n = v as nat;
        reveal_with_fuel(be_bytes, 5);
        assert(be_bytes(n, 4).len() == 4);
        assert(n / 256 / 256 == n / 65536);
        assert(n / 256 / 256 / 256 == n / 16777216);
        assert(be_bytes(n, 4)[3] == (n % 256) as u8);
        assert(be_bytes(n, 4)[2] == (n / 256 % 256) as u8);
        assert(be_bytes(n, 4)[1] == (n / 256 / 256 % 256) as u8);
        assert(be_bytes(n, 4)[0] == (n / 256 / 256 / 256 % 256) as u8);
        assert(out@ =~= old(out)@ + le_bytes(n, 4));
    }
}

/// The big-endian number in the `width` bytes of `b` from index `at`.
pub fn read_be(b: &[u8], at: usize, width: usize) -> (v: u64)
    requires
        at + width <= b@.len(),
        width <= 8,
    ensures
        v == be_value(b@.subrange(at as int, at + width)),
        v < pow(256, width as nat),
{
    let ghost part = b@.subrange(at as int, at + width);
    let len: usize = b.len();
    let mut v: u64 = 0;
    let mut i: usize = 0;
    assert(part.take(0) =~= Seq::empty());
    while i < width
        invariant
            i <= width <= 8,
            at + width <= b@.len() == len,
            part == b@.subrange(at as int, at + width),
            v == be_value(part.take(i as int)),
        decreases width - i,
    {
        proof {
            let next = part.take(i + 1);
            assert(next.drop_last() =~= part.take(i as int));
            lemma_be_bytes_of_value(next);
            lemma_pow256_values();
            vstd::arithmetic::power::lemma_pow_increases(256, (i + 1) as nat, 8);
        }
        v = 256 * v + b[at + i] as u64;
        i = i + 1;
    }
    proof {
        assert(part.take(width as int) =~= part);
        lemma_be_bytes_of_value(part);
    }
    v
}

/// The big-endian 32-bit number at `b[at..at + 4]`.
pub fn read_be32(b: &[u8], at: usize) -> (v: u32)
    requires
        at + 4 <= b@.len(),
    ensures
        v == be_value(b@.subrange(at as int, at + 4)),
{
    proof {
        lemma_pow256_values();
    }
    read_be(b, at, 4) as u32
}

/// The little-endian 32-bit number in the four bytes of `b`.
pub fn read_le32(b: &[u8]) -> (v: u32)
    requires
        b@.len() == 4,
    ensures
        v == le_value(b@),
{
    proof {
        let r = b@.reverse();
        reveal_with_fuel(be_value, 5);
        assert(r.drop_last().last() == b@[1]);
        assert(r.drop_last().drop_last().last() == b@[2]);
        assert(r.drop_last().drop_last().drop_last().last() == b@[3]);
        assert(be_value(r) == b@[0] + 256 * (b@[1] + 256 * (b@[2] + 256 * b@[3])));
    }
    b[0] as u32 + 256 * (b[1] as u32 + 256 * (b[2] as u32 + 256 * (b[3] as u32)))
}

/// The bits of a signed number as an unsigned one.
pub fn to_bits(v: i64) -> (r: u64)
    ensures
        r == i64_bits(v),
{
    proof {
        assert(v >= 0 ==> v as u64 == v) by (bit_vector);
        assert(v < 0 ==> v as u64 == v + 0x1_0000_0000_0000_0000) by (bit_vector);
    }
    v as u64
}

/// The signed number with the given bits.
pub fn from_bits(v: u64) -> (r: i64)
    ensures
        r == bits_i64(v as nat),
{
    proof {
        assert(v < 0x8000_0000_0000_0000 ==> v as i64 == v) by (bit_vector);
        assert(v >= 0x8000_0000_0000_0000 ==> v as i64 == v - 0x1_0000_0000_0000_0000) by (bit_vector);
    }
    v as i64
}

} // verus!
