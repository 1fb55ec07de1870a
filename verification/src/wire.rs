//! The building blocks of the binary layout: little-endian integers, one-byte
//! flags, raw byte runs and length-prefixed text.

use vstd::prelude::*;
use vstd::utf8::{decode_utf8, encode_utf8, valid_utf8};

verus! {

/// How many values `width` bytes can tell apart: 256 to the power `width`.
pub open spec fn radix_pow(width: nat) -> nat
    decreases width,
{
    if width == 0 {
        1
    } else {
        256 * radix_pow((width - 1) as nat)
    }
}

/// The `width` bytes that hold `value`, least significant byte first.
pub open spec fn le_bytes(value: nat, width: nat) -> Seq<u8>
    decreases width,
{
    if width == 0 {
        Seq::empty()
    } else {
        seq![(value % 256) as u8] + le_bytes(value / 256, (width - 1) as nat)
    }
}

/// The number that `bytes` hold, least significant byte first.
pub open spec fn le_value(bytes: Seq<u8>) -> nat
    decreases bytes.len(),
{
    if bytes.len() == 0 {
        0
    } else {
        bytes[0] as nat + 256 * le_value(bytes.skip(1))
    }
}

/// More bytes tell more values apart.
pub proof fn lemma_radix_pow_monotonic(low: nat, high: nat)
    requires
        low <= high,
    ensures
        radix_pow(low) <= radix_pow(high),
    decreases high,
{
    if low < high {
        lemma_radix_pow_monotonic(low, (high - 1) as nat);
    }
}

/// The powers of 256 that the widths of the layout need.
pub proof fn lemma_radix_pow_values()
    ensures
        radix_pow(0) == 1,
        radix_pow(1) == 0x100,
        radix_pow(2) == 0x1_0000,
        radix_pow(3) == 0x100_0000,
        radix_pow(4) == 0x1_0000_0000,
        radix_pow(5) == 0x100_0000_0000,
        radix_pow(6) == 0x1_0000_0000_0000,
        radix_pow(7) == 0x100_0000_0000_0000,
        radix_pow(8) == 0x1_0000_0000_0000_0000,
{
    reveal_with_fuel(radix_pow, 10);
}

/// A layout of `width` bytes is `width` bytes long.
pub proof fn lemma_le_bytes_len(value: nat, width: nat)
    ensures
        le_bytes(value, width).len() == width,
    decreases width,
{
    if width > 0 {
        lemma_le_bytes_len(value / 256, (width - 1) as nat);
    }
}

/// What bytes hold is less than 256 to the power of their count.
pub proof fn lemma_le_value_bound(bytes: Seq<u8>)
    ensures
        le_value(bytes) < radix_pow(bytes.len()),
    decreases bytes.len(),
{
    if bytes.len() > 0 {
        lemma_le_value_bound(bytes.skip(1));
    }
}

/// Reading back what was laid out gives the value again, when it fits.
pub proof fn lemma_le_value_of_le_bytes(value: nat, width: nat)
    requires
        value < radix_pow(width),
    ensures
        le_value(le_bytes(value, width)) == value,
    decreases width,
{
    lemma_le_bytes_len(value, width);
    if width > 0 {
        let tail = le_bytes(value / 256, (width - 1) as nat);
        lemma_le_value_of_le_bytes(value / 256, (width - 1) as nat);
        assert(le_bytes(value, width).skip(1) =~= tail);
    }
}

/// Laying out what was read gives the bytes again.
pub proof fn lemma_le_bytes_of_le_value(bytes: Seq<u8>)
    ensures
        le_bytes(le_value(bytes), bytes.len()) == bytes,
    decreases bytes.len(),
{
    if bytes.len() > 0 {
        let rest = bytes.skip(1);
        lemma_le_bytes_of_le_value(rest);
        let v = le_value(bytes);
        assert(v % 256 == bytes[0] as nat);
        assert(v / 256 == le_value(rest));
        assert(le_bytes(v, bytes.len()) =~= bytes);
    }
}

/// Appends the `width` low bytes of `value` to `out`, least significant first.
pub fn put_le(out: &mut Vec<u8>, value: u64, width: usize)
    ensures
        final(out)@ == old(out)@ + le_bytes(value as nat, width as nat),
{
    let mut rest: u64 = value;
    let mut done: usize = 0;
    while done < width
        invariant
            done <= width,
            old(out)@ + le_bytes(value as nat, width as nat) == out@ + le_bytes(
                rest as nat,
                (width - done) as nat,
            ),
        decreases width - done,
    {
        let ghost before = out@;
        let ghost tail = le_bytes((rest / 256) as nat, (width - done - 1) as nat);
        let low: u8 = (rest % 256) as u8;
        assert(le_bytes(rest as nat, (width - done) as nat) == seq![low] + tail);
        out.push(low);
        assert(before + (seq![low] + tail) =~= out@ + tail);
        rest = rest / 256;
        done = done + 1;
    }
    assert(le_bytes(rest as nat, 0) =~= Seq::<u8>::empty());
    assert(out@ + Seq::<u8>::empty() =~= out@);
}

/// Reads the `width` bytes of `bytes` from `start` on as a number, least
/// significant byte first.
pub fn get_le(bytes: &[u8], start: usize, width: usize) -> (value: u64)
    requires
        width <= 8,
        start + width <= bytes@.len(),
    ensures
        value as nat == le_value(bytes@.subrange(start as int, start + width)),
{
    let total: usize = bytes.len();
    let mut value: u64 = 0;
    let mut taken: usize = 0;
    while taken < width
        invariant
            taken <= width <= 8,
            start + width <= bytes@.len() == total,
            value as nat == le_value(
                bytes@.subrange(start + width - taken, start + width),
            ),
        decreases width - taken,
    {
        let ghost high = bytes@.subrange(start + width - taken, start + width);
        let ghost wider = bytes@.subrange(start + width - taken - 1, start + width);
        proof {
            lemma_le_value_bound(high);
            lemma_radix_pow_values();
            lemma_radix_pow_monotonic(taken as nat, 7);
            assert(wider.skip(1) =~= high);
        }
        let byte: u8 = bytes[start + width - taken - 1];
        value = value * 256 + byte as u64;
        taken = taken + 1;
    }
    value
}

/// The byte that stands for a flag: 1 for `true`, 0 for `false`.
pub open spec fn flag_byte(flag: bool) -> u8 {
    if flag {
        1
    } else {
        0
    }
}

/// The layout of a text: the length of its UTF-8 form as four little-endian
/// bytes, then the UTF-8 form itself.
pub open spec fn text_bytes(text: Seq<char>) -> Seq<u8> {
    le_bytes(encode_utf8(text).len(), 4) + encode_utf8(text)
}

/// Whether a text can be laid out: its UTF-8 length has to fit the four-byte
/// prefix.
pub open spec fn text_fits(text: Seq<char>) -> bool {
    encode_utf8(text).len() <= u32::MAX
}

/// Appends `bytes` to `out`.
pub fn put_bytes(out: &mut Vec<u8>, bytes: &[u8])
    ensures
        final(out)@ == old(out)@ + bytes@,
{
    let total: usize = bytes.len();
    let mut i: usize = 0;
    while i < total
        invariant
            i <= total == bytes@.len(),
            out@ == old(out)@ + bytes@.subrange(0, i as int),
        decreases total - i,
    {
        out.push(bytes[i]);
        i = i + 1;
        assert(out@ =~= old(out)@ + bytes@.subrange(0, i as int));
    }
    assert(bytes@.subrange(0, total as int) =~= bytes@);
}

/// Appends `count` zero bytes to `out`.
pub fn put_zeros(out: &mut Vec<u8>, count: usize)
    ensures
        final(out)@ == old(out)@ + Seq::new(count as nat, |i: int| 0u8),
{
    let mut i: usize = 0;
    while i < count
        invariant
            i <= count,
            out@ == old(out)@ + Seq::new(i as nat, |j: int| 0u8),
        decreases count - i,
    {
        out.push(0);
        i = i + 1;
        assert(out@ =~= old(out)@ + Seq::new(i as nat, |j: int| 0u8));
    }
}

/// Appends the byte of `flag` to `out`.
pub fn put_flag(out: &mut Vec<u8>, flag: bool)
    ensures
        final(out)@ == old(out)@ + seq![flag_byte(flag)],
{
    let byte: u8 = if flag {
        1
    } else {
        0
    };
    out.push(byte);
    assert(out@ =~= old(out)@ + seq![flag_byte(flag)]);
}

/// Appends the layout of `text` to `out`, or leaves `out` alone and answers
/// `false` when the text is too long for the length prefix.
pub fn put_text(out: &mut Vec<u8>, text: &str) -> (fits: bool)
    ensures
        fits == text_fits(text@),
        fits ==> final(out)@ == old(out)@ + text_bytes(text@),
        !fits ==> final(out)@ == old(out)@,
{
    let utf8: &[u8] = text.as_bytes();
    let length: usize = utf8.len();
    if length > 0xffff_ffff {
        return false;
    }
    put_le(out, length as u64, 4);
    put_bytes(out, utf8);
    assert(out@ =~= old(out)@ + text_bytes(text@));
    true
}

/// Copies the `N` bytes of `bytes` from `start` on into an array.
pub fn take_array<const N: usize>(bytes: &[u8], start: usize) -> (array: [u8; N])
    requires
        start + N <= bytes@.len(),
    ensures
        array@ == bytes@.subrange(start as int, start + N),
{
    let total: usize = bytes.len();
    let mut array: [u8; N] = [0u8; N];
    let mut i: usize = 0;
    while i < N
        invariant
            i <= N,
            start + N <= bytes@.len() == total,
            forall|j: int| 0 <= j < i ==> array@[j] == bytes@[start + j],
        decreases N - i,
    {
        array[i] = bytes[start + i];
        i = i + 1;
    }
    assert(array@ =~= bytes@.subrange(start as int, start + N));
    array
}

/// `String::from_utf8` of the standard library: the text whose UTF-8 form is
/// `bytes`, and `None` exactly when `bytes` are not well-formed UTF-8.
#[verifier::external_body]
fn string_from_utf8(bytes: Vec<u8>) -> (text: Option<String>)
    ensures
        text is Some <==> valid_utf8(bytes@),
        text matches Some(t) ==> encode_utf8(t@) == bytes@,
{
    String::from_utf8(bytes).ok()
}

/// Reads the `length` bytes of `bytes` from `start` on as UTF-8 text; `None`
/// exactly when they are not well-formed UTF-8.
pub fn take_text(bytes: &[u8], start: usize, length: usize) -> (text: Option<String>)
    requires
        start + length <= bytes@.len(),
    ensures
        text is Some <==> valid_utf8(bytes@.subrange(start as int, start + length)),
        text matches Some(t) ==> t@ == decode_utf8(
            bytes@.subrange(start as int, start + length),
        ),
{
    let total: usize = bytes.len();
    assert(start + length <= total);
    let run: &[u8] = vstd::slice::slice_subrange(bytes, start, start + length);
    let mut owned: Vec<u8> = Vec::new();
    put_bytes(&mut owned, run);
    assert(owned@ =~= run@);
    let text: Option<String> = string_from_utf8(owned);
    proof {
        if text is Some {
            vstd::utf8::encode_utf8_decode_utf8(text->0@);
        }
    }
    text
}

} // verus!
