//! Hexadecimal and decimal text, as the formats and messages of this crate
//! use it.

use vstd::arithmetic::power::{lemma_pow0, lemma_pow_strictly_increases, pow};
use vstd::prelude::*;
use vstd::string::*;

verus! {

/// `String::push`: appends one character to the end of the string.
pub assume_specification[ String::push ](s: &mut String, c: char)
    ensures
        final(s)@ == old(s)@.push(c),
;

/// The lowercase hexadecimal digit of `d`, for `0 <= d < 16`.
pub open spec fn hex_char(d: int) -> char {
    if d < 10 {
        (48 + d) as char
    } else {
        (87 + d) as char
    }
}

/// Whether `c` is one of `0-9`, `a-f`, `A-F`.
pub open spec fn is_hex_digit(c: char) -> bool {
    ||| '0' <= c <= '9'
    ||| 'a' <= c <= 'f'
    ||| 'A' <= c <= 'F'
}

/// Whether `c` is one of `0-9`, `a-f`.
pub open spec fn is_lower_hex_digit(c: char) -> bool {
    ||| '0' <= c <= '9'
    ||| 'a' <= c <= 'f'
}

/// The number that the hexadecimal digit `c` stands for.
pub open spec fn hex_digit_value(c: char) -> nat {
    if '0' <= c <= '9' {
        (c as int - 48) as nat
    } else if 'a' <= c <= 'f' {
        (c as int - 87) as nat
    } else {
        (c as int - 55) as nat
    }
}

/// Whether every character of `s` is a hexadecimal digit.
pub open spec fn all_hex(s: Seq<char>) -> bool {
    forall|i: int| 0 <= i < s.len() ==> is_hex_digit(#[trigger] s[i])
}

/// Whether every character of `s` is a lowercase hexadecimal digit.
pub open spec fn all_lower_hex(s: Seq<char>) -> bool {
    forall|i: int| 0 <= i < s.len() ==> is_lower_hex_digit(#[trigger] s[i])
}

/// The number written in base 16 by `s`, most significant digit first.
pub open spec fn hex_value(s: Seq<char>) -> nat
    decreases s.len(),
{
    if s.len() == 0 {
        0
    } else {
        16 * hex_value(s.drop_last()) + hex_digit_value(s.last())
    }
}

/// The last `width` base-16 digits of `v`, lowercase, zero padded.
pub open spec fn hex_text(v: nat, width: nat) -> Seq<char>
    decreases width,
{
    if width == 0 {
        Seq::empty()
    } else {
        hex_text(v / 16, (width - 1) as nat).push(hex_char((v % 16) as int))
    }
}

/// The decimal digits of `v`, without leading zeros.
pub open spec fn dec_text(v: nat) -> Seq<char>
    decreases v,
{
    if v < 10 {
        seq![(48 + v) as char]
    } else {
        dec_text(v / 10).push((48 + v % 10) as char)
    }
}

/// The decimal form of a signed number.
pub open spec fn int_text(v: int) -> Seq<char> {
    if v < 0 {
        seq!['-'] + dec_text((-v) as nat)
    } else {
        dec_text(v as nat)
    }
}

pub proof fn lemma_hex_text_len(v: nat, width: nat)
    ensures
        hex_text(v, width).len() == width,
        all_lower_hex(hex_text(v, width)),
    decreases width,
{
    if width > 0 {
        lemma_hex_text_len(v / 16, (width - 1) as nat);
    }
}

/// Reading back what `hex_text` wrote gives the number again, as long as the
/// width holds all of its digits.
pub proof fn lemma_hex_value_of_text(v: nat, width: nat)
    requires
        v < pow(16, width),
    ensures
        hex_value(hex_text(v, width)) == v,
    decreases width,
{
    lemma_pow0(16);
    if width > 0 {
        let w = (width - 1) as nat;
        lemma_pow_step(w);
        assert(v / 16 < pow(16, w)) by (nonlinear_arith)
            requires
                v < 16 * pow(16, w),
        ;
        lemma_hex_value_of_text(v / 16, w);
        let s = hex_text(v, width);
        assert(s.drop_last() =~= hex_text(v / 16, w));
    }
}

proof fn lemma_pow_step(w: nat)
    ensures
        pow(16, w + 1) == 16 * pow(16, w),
{
    vstd::arithmetic::power::lemma_pow_adds(16, 1, w);
    vstd::arithmetic::power::lemma_pow1(16);
}

/// The value of `s` has no more base-16 digits than `s` has characters, and
/// writing it with that width gives `s` again when `s` is lowercase.
pub proof fn lemma_hex_text_of_value(s: Seq<char>)
    requires
        all_hex(s),
    ensures
        hex_value(s) < pow(16, s.len()),
        all_lower_hex(s) ==> hex_text(hex_value(s), s.len()) == s,
    decreases s.len(),
{
    lemma_pow0(16);
    if s.len() > 0 {
        let t = s.drop_last();
        assert(all_hex(t));
        lemma_hex_text_of_value(t);
        lemma_pow_step(t.len());
        let d = hex_digit_value(s.last());
        assert(is_hex_digit(s[s.len() - 1]));
        assert(d < 16);
        if all_lower_hex(s) {
            assert(is_lower_hex_digit(s[s.len() - 1]));
            assert(all_lower_hex(t));
            assert(hex_value(s) / 16 == hex_value(t));
            assert(hex_value(s) % 16 == d);
            assert(hex_char(d as int) == s.last());
            assert(hex_text(hex_value(s), s.len()) =~= t.push(s.last()));
            assert(t.push(s.last()) =~= s);
        }
    }
}

/// Hexadecimal digits stand for their place in `0123456789abcdef`, the
/// uppercase letters for the same numbers as the lowercase ones, and nothing
/// else is a digit.
pub proof fn lemma_hex_alphabet(d: int, c: char)
    requires
        0 <= d < 16,
    ensures
        hex_char(d) == "0123456789abcdef"@[d],
        hex_digit_value("0123456789abcdef"@[d]) == d,
        hex_digit_value("0123456789ABCDEF"@[d]) == d,
        is_hex_digit(c) <==> "0123456789abcdef"@.contains(c) || "0123456789ABCDEF"@.contains(c),
        is_lower_hex_digit(c) <==> "0123456789abcdef"@.contains(c),
{
    reveal_strlit("0123456789abcdef");
    reveal_strlit("0123456789ABCDEF");
    let low = "0123456789abcdef"@;
    let up = "0123456789ABCDEF"@;
    assert(low.len() == 16 && up.len() == 16);
    if is_lower_hex_digit(c) {
        let k = hex_digit_value(c) as int;
        assert(low[k] == c);
    }
    if 'A' <= c <= 'F' {
        let k = hex_digit_value(c) as int;
        assert(up[k] == c);
    }
}

/// Hexadecimal digits count by their place: of two texts written one behind
/// the other, the first counts 16 times for every digit of the second.
pub proof fn lemma_hex_by_place(a: Seq<char>, b: Seq<char>, c: char)
    ensures
        hex_value(seq![c]) == hex_digit_value(c),
        hex_value(a + b) == hex_value(a) * pow(16, b.len()) + hex_value(b),
    decreases b.len(),
{
    lemma_pow0(16);
    assert(seq![c].drop_last() =~= Seq::<char>::empty());
    assert(hex_value(Seq::<char>::empty()) == 0);
    if b.len() == 0 {
        assert(a + b =~= a);
    } else {
        let t = b.drop_last();
        lemma_hex_by_place(a, t, c);
        lemma_pow_step(t.len());
        assert((a + b).drop_last() =~= a + t);
        let (n, p, m) = (hex_value(a) as int, pow(16, t.len()), hex_value(t) as int);
        assert(16 * (n * p + m) == n * (16 * p) + 16 * m) by (nonlinear_arith);
    }
}

/// The number that `s` writes in decimal digits: each digit counts ten to the
/// number of digits behind it.
pub open spec fn dec_value(s: Seq<char>) -> int
    decreases s.len(),
{
    if s.len() == 0 {
        0
    } else {
        (s[0] as int - '0' as int) * pow(10, (s.len() - 1) as nat) + dec_value(s.drop_first())
    }
}

/// The decimal form of a number is made of digits, has no zero in front but
/// for zero itself, and has the number as its value. A negative number has the
/// form of its opposite behind a minus sign.
pub proof fn lemma_decimal_form(v: nat)
    ensures
        forall|i: int| 0 <= i < dec_text(v).len() ==> '0' <= #[trigger] dec_text(v)[i] <= '9',
        dec_text(v).len() > 0,
        v > 0 ==> dec_text(v)[0] != '0',
        dec_value(dec_text(v)) == v,
        int_text(v as int) == dec_text(v),
        v > 0 ==> int_text(-(v as int)) == seq!['-'] + dec_text(v),
    decreases v,
{
    lemma_pow0(10);
    let s = dec_text(v);
    if v < 10 {
        assert(s.drop_first() =~= Seq::<char>::empty());
        assert(dec_value(Seq::<char>::empty()) == 0);
    } else {
        lemma_decimal_form(v / 10);
        lemma_dec_value_push(dec_text(v / 10), s.last());
        assert(s =~= dec_text(v / 10).push(s.last()));
    }
}

proof fn lemma_dec_value_push(s: Seq<char>, c: char)
    ensures
        dec_value(s.push(c)) == 10 * dec_value(s) + (c as int - '0' as int),
    decreases s.len(),
{
    lemma_pow0(10);
    let t = s.push(c);
    if s.len() == 0 {
        assert(t.drop_first() =~= Seq::<char>::empty());
        assert(dec_value(Seq::<char>::empty()) == 0);
    } else {
        lemma_dec_value_push(s.drop_first(), c);
        assert(t.drop_first() =~= s.drop_first().push(c));
        let k = (s.len() - 1) as nat;
        vstd::arithmetic::power::lemma_pow_adds(10, 1, k);
        vstd::arithmetic::power::lemma_pow1(10);
        let d = s[0] as int - '0' as int;
        let p = pow(10, k);
        assert(d * (10 * p) == 10 * (d * p)) by (nonlinear_arith);
    }
}

/// `16^16` is one more than the largest `u64`, and `16^8` than the largest
/// `u32`.
pub proof fn lemma_pow16_values()
    ensures
        pow(16, 16) == 0x1_0000_0000_0000_0000,
        pow(16, 8) == 0x1_0000_0000,
        pow(16, 2) == 0x100,
{
    lemma_pow0(16);
    lemma_pow_step(0);
    lemma_pow_step(1);
    lemma_pow_step(2);
    lemma_pow_step(3);
    lemma_pow_step(4);
    lemma_pow_step(5);
    lemma_pow_step(6);
    lemma_pow_step(7);
    lemma_pow_step(8);
    lemma_pow_step(9);
    lemma_pow_step(10);
    lemma_pow_step(11);
    lemma_pow_step(12);
    lemma_pow_step(13);
    lemma_pow_step(14);
    lemma_pow_step(15);
}

fn hex_digit(d: u8) -> (c: char)
    requires
        d < 16,
    ensures
        c == hex_char(d as int),
{
    if d < 10 {
        (48 + d) as char
    } else {
        (87 + d) as char
    }
}

/// Appends the last `width` hexadecimal digits of `v`.
pub fn push_hex(out: &mut String, v: u64, width: u32)
    ensures
        final(out)@ == old(out)@ + hex_text(v as nat, width as nat),
    decreases width,
{
    if width > 0 {
        push_hex(out, v / 16, width - 1);
        out.push(hex_digit((v % 16) as u8));
    }
}

/// Appends the decimal form of `v`.
pub fn push_decimal(out: &mut String, v: u64)
    ensures
        final(out)@ == old(out)@ + dec_text(v as nat),
    decreases v,
{
    if v >= 10 {
        push_decimal(out, v / 10);
    }
    let d: u8 = (v % 10) as u8;
    out.push((48 + d) as char);
}

/// Appends the decimal form of the signed number `v`.
pub fn push_signed(out: &mut String, v: i64)
    ensures
        final(out)@ == old(out)@ + int_text(v as int),
{
    if v < 0 {
        out.push('-');
        if v == i64::MIN {
            push_decimal(out, 0x8000_0000_0000_0000);
        } else {
            push_decimal(out, (-v) as u64);
        }
    } else {
        push_decimal(out, v as u64);
    }
}

/// The number that the hexadecimal digit `c` stands for, or `None` for
/// another character.
pub fn digit_value(c: char) -> (r: Option<u64>)
    ensures
        r is Some <==> is_hex_digit(c),
        r matches Some(d) ==> d == hex_digit_value(c) && d < 16,
{
    let n: u32 = c as u32;
    if 48 <= n && n <= 57 {
        Some((n - 48) as u64)
    } else if 97 <= n && n <= 102 {
        Some((n - 87) as u64)
    } else if 65 <= n && n <= 70 {
        Some((n - 55) as u64)
    } else {
        None
    }
}

/// Reads the 16 characters of `s` from index `from` as a base-16 number.
/// `None` when one of them is no hexadecimal digit.
pub fn parse_hex16(s: &str, from: usize) -> (r: Option<u64>)
    requires
        from + 16 <= s@.len(),
    ensures
        r is Some <==> all_hex(s@.subrange(from as int, from + 16)),
        r matches Some(v) ==> v == hex_value(s@.subrange(from as int, from + 16)),
{
    let ghost part = s@.subrange(from as int, from + 16);
    let len: usize = s.unicode_len();
    let mut v: u64 = 0;
    let mut i: usize = 0;
    proof {
        lemma_pow16_values();
        assert(part.take(0) =~= Seq::empty());
    }
    while i < 16
        invariant
            i <= 16,
            from + 16 <= s@.len() == len,
            part == s@.subrange(from as int, from + 16),
            all_hex(part.take(i as int)),
            v == hex_value(part.take(i as int)),
            pow(16, 16) == 0x1_0000_0000_0000_0000,
        decreases 16 - i,
    {
        let c = s.get_char(from + i);
        assert(c == part[i as int]);
        match digit_value(c) {
            None => {
                assert(!all_hex(part));
                return None;
            },
            Some(d) => {
                proof {
                    let next = part.take(i + 1);
                    assert(next.drop_last() =~= part.take(i as int));
                    assert(next.last() == c);
                    assert(all_hex(next)) by {
                        assert forall|j: int| 0 <= j < next.len() implies is_hex_digit(#[trigger] next[j]) by {
                            if j < i {
                                assert(next[j] == part.take(i as int)[j]);
                            }
                        }
                    }
                    lemma_hex_text_of_value(next);
                    if i + 1 < 16 {
                        lemma_pow_strictly_increases(16, (i + 1) as nat, 16);
                    }
                }
                v = 16 * v + d;
                i = i + 1;
            },
        }
    }
    assert(part.take(16) =~= part);
    Some(v)
}

/// Whether `c` is white space, by Unicode's property of that name.
pub open spec fn is_white(c: char) -> bool {
    let n = c as int;
    ||| 9 <= n <= 13
    ||| n == 0x20
    ||| n == 0x85
    ||| n == 0xA0
    ||| n == 0x1680
    ||| 0x2000 <= n <= 0x200A
    ||| n == 0x2028
    ||| n == 0x2029
    ||| n == 0x202F
    ||| n == 0x205F
    ||| n == 0x3000
}

/// `s` without the white space in front of it.
pub open spec fn trim_start(s: Seq<char>) -> Seq<char>
    decreases s.len(),
{
    if s.len() > 0 && is_white(s[0]) {
        trim_start(s.drop_first())
    } else {
        s
    }
}

/// `s` without the white space behind it.
pub open spec fn trim_end(s: Seq<char>) -> Seq<char>
    decreases s.len(),
{
    if s.len() > 0 && is_white(s.last()) {
        trim_end(s.drop_last())
    } else {
        s
    }
}

/// `s` without the white space around it.
pub open spec fn trimmed(s: Seq<char>) -> Seq<char> {
    trim_end(trim_start(s))
}

/// Trimming takes the white space in front and behind and nothing else: what
/// is left is a stretch of the text with white space alone on both sides of
/// it, and does not begin or end with white space itself.
pub proof fn lemma_trim_takes_white(s: Seq<char>) -> (r: (int, int))
    ensures
        0 <= r.0 <= r.1 <= s.len(),
        trimmed(s) == s.subrange(r.0, r.1),
        forall|i: int| 0 <= i < r.0 || r.1 <= i < s.len() ==> is_white(#[trigger] s[i]),
        r.0 < r.1 ==> !is_white(s[r.0]) && !is_white(s[r.1 - 1]),
{
    let a = lemma_trim_start_takes_white(s);
    let t = trim_start(s);
    let b = lemma_trim_end_takes_white(t);
    assert(t.take(b) =~= s.subrange(a, a + b));
    assert forall|i: int| 0 <= i < a || a + b <= i < s.len() implies is_white(#[trigger] s[i]) by {
        if a + b <= i {
            assert(t[i - a] == s[i]);
        }
    }
    (a, a + b)
}

proof fn lemma_trim_start_takes_white(s: Seq<char>) -> (a: int)
    ensures
        0 <= a <= s.len(),
        trim_start(s) == s.skip(a),
        forall|i: int| 0 <= i < a ==> is_white(#[trigger] s[i]),
        a < s.len() ==> !is_white(s[a]),
    decreases s.len(),
{
    if s.len() > 0 && is_white(s[0]) {
        let t = s.drop_first();
        let a = lemma_trim_start_takes_white(t);
        assert(t.skip(a) =~= s.skip(a + 1));
        assert forall|i: int| 0 <= i < a + 1 implies is_white(#[trigger] s[i]) by {
            if i > 0 {
                assert(t[i - 1] == s[i]);
            }
        }
        a + 1
    } else {
        assert(s.skip(0) =~= s);
        0
    }
}

proof fn lemma_trim_end_takes_white(s: Seq<char>) -> (b: int)
    ensures
        0 <= b <= s.len(),
        trim_end(s) == s.take(b),
        forall|i: int| b <= i < s.len() ==> is_white(#[trigger] s[i]),
        b > 0 ==> !is_white(s[b - 1]),
    decreases s.len(),
{
    if s.len() > 0 && is_white(s.last()) {
        let t = s.drop_last();
        let b = lemma_trim_end_takes_white(t);
        assert(t.take(b) =~= s.take(b));
        assert forall|i: int| b <= i < s.len() implies is_white(#[trigger] s[i]) by {
            if i < s.len() - 1 {
                assert(t[i] == s[i]);
            }
        }
        b
    } else {
        assert(s.take(s.len() as int) =~= s);
        s.len() as int
    }
}

fn white(c: char) -> (r: bool)
    ensures
        r == is_white(c),
{
    let n: u32 = c as u32;
    (9 <= n && n <= 13) || n == 0x20 || n == 0x85 || n == 0xA0 || n == 0x1680 || (0x2000 <= n && n
        <= 0x200A) || n == 0x2028 || n == 0x2029 || n == 0x202F || n == 0x205F || n == 0x3000
}

/// The characters of `s`.
pub fn chars_of(s: &str) -> (v: Vec<char>)
    ensures
        v@ == s@,
{
    let mut v: Vec<char> = Vec::new();
    for c in it: s.chars()
        invariant
            it.seq() == s@,
            v@ == it.seq().take(it.index() as int),
    {
        v.push(c);
    }
    v
}

/// The part of `s` between the white space in front of it and behind it.
pub fn trim(s: &str) -> (r: &str)
    ensures
        r@ == trimmed(s@),
{
    let v = chars_of(s);
    let n: usize = v.len();
    let mut from: usize = 0;
    assert(s@.skip(0) =~= s@);
    while from < n && white(v[from])
        invariant
            from <= n == v@.len(),
            v@ == s@,
            trim_start(s@) == trim_start(s@.skip(from as int)),
        decreases n - from,
    {
        assert(s@.skip(from as int).drop_first() =~= s@.skip(from + 1));
        from = from + 1;
    }
    assert(trim_start(s@) == s@.skip(from as int));
    let mut to: usize = n;
    assert(s@.skip(from as int) =~= s@.subrange(from as int, to as int));
    while from < to && white(v[to - 1])
        invariant
            from <= to <= n == v@.len(),
            v@ == s@,
            trimmed(s@) == trim_end(s@.subrange(from as int, to as int)),
        decreases to,
    {
        assert(s@.subrange(from as int, to as int).drop_last() =~= s@.subrange(from as int, to - 1));
        to = to - 1;
    }
    s.substring_char(from, to)
}

} // verus!
