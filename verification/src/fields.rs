//! The five fields that an oracle asserts of a signal, and their layout. A
//! push command carries them and a stored record keeps them, byte for byte
//! the same.

use vstd::prelude::*;
use vstd::utf8::{decode_utf8, encode_utf8, valid_utf8};
use crate::wire::{
    flag_byte, get_le, le_bytes, le_value, lemma_le_bytes_len, lemma_le_bytes_of_le_value,
    lemma_le_value_bound, lemma_le_value_of_le_bytes, lemma_radix_pow_values, put_bytes, put_flag,
    put_le, put_text, take_array, take_text, text_bytes, text_fits,
};

verus! {

/// The bytes that follow the text in the layout: direction, amount,
/// timestamp and signature.
pub const FIXED_LEN: usize = 81;

/// The fields of a signal as mathematical values.
pub struct SignalFields {
    pub trading_pair: Seq<char>,
    pub is_buy: bool,
    pub amount: u64,
    pub timestamp: u64,
    pub signature: Seq<u8>,
}

impl SignalFields {
    /// Fields that can be laid out: the pair fits its length prefix and the
    /// signature has its 64 bytes.
    pub open spec fn wf(self) -> bool {
        &&& text_fits(self.trading_pair)
        &&& self.signature.len() == 64
    }

    /// The layout: the pair as length-prefixed text, the direction as one
    /// byte, amount and timestamp as eight little-endian bytes each, and the
    /// signature as it is.
    pub open spec fn encoding(self) -> Seq<u8> {
        text_bytes(self.trading_pair) + seq![flag_byte(self.is_buy)] + le_bytes(
            self.amount as nat,
            8,
        ) + le_bytes(self.timestamp as nat, 8) + self.signature
    }

    /// The fields that `bytes` lay out, if they lay out any: nothing may be
    /// missing and nothing may follow.
    pub open spec fn parse(bytes: Seq<u8>) -> Option<SignalFields> {
        if bytes.len() < 4 {
            None
        } else {
            let n = le_value(bytes.subrange(0, 4)) as int;
            if bytes.len() != 4 + n + FIXED_LEN {
                None
            } else if !valid_utf8(bytes.subrange(4, 4 + n)) || bytes[4 + n] > 1 {
                None
            } else {
                Some(
                    SignalFields {
                        trading_pair: decode_utf8(bytes.subrange(4, 4 + n)),
                        is_buy: bytes[4 + n] == 1,
                        amount: le_value(bytes.subrange(5 + n, 13 + n)) as u64,
                        timestamp: le_value(bytes.subrange(13 + n, 21 + n)) as u64,
                        signature: bytes.subrange(21 + n, 85 + n),
                    },
                )
            }
        }
    }

    /// Reading a layout gives back the fields that were laid out.
    pub proof fn lemma_parse_encoding(self)
        requires
            self.wf(),
        ensures
            SignalFields::parse(self.encoding()) == Some(self),
    {
        let utf8 = encode_utf8(self.trading_pair);
        let n = utf8.len() as int;
        let bytes = self.encoding();
        lemma_radix_pow_values();
        lemma_le_bytes_len(n as nat, 4);
        lemma_le_bytes_len(self.amount as nat, 8);
        lemma_le_bytes_len(self.timestamp as nat, 8);
        lemma_le_value_of_le_bytes(n as nat, 4);
        lemma_le_value_of_le_bytes(self.amount as nat, 8);
        lemma_le_value_of_le_bytes(self.timestamp as nat, 8);
        vstd::utf8::encode_utf8_valid_utf8(self.trading_pair);
        vstd::utf8::encode_utf8_decode_utf8(self.trading_pair);
        assert(bytes.subrange(0, 4) =~= le_bytes(n as nat, 4));
        assert(bytes.subrange(4, 4 + n) =~= utf8);
        assert(bytes[4 + n] == flag_byte(self.is_buy));
        assert(bytes.subrange(5 + n, 13 + n) =~= le_bytes(self.amount as nat, 8));
        assert(bytes.subrange(13 + n, 21 + n) =~= le_bytes(self.timestamp as nat, 8));
        assert(bytes.subrange(21 + n, 85 + n) =~= self.signature);
    }

    /// Whatever is read from bytes can be laid out, and its layout is those
    /// bytes again.
    pub proof fn lemma_encoding_parse(bytes: Seq<u8>)
        requires
            SignalFields::parse(bytes) is Some,
        ensures
            SignalFields::parse(bytes)->0.wf(),
            SignalFields::parse(bytes)->0.encoding() == bytes,
    {
        let fields = SignalFields::parse(bytes)->0;
        let n = le_value(bytes.subrange(0, 4)) as int;
        let text = bytes.subrange(4, 4 + n);
        lemma_radix_pow_values();
        lemma_le_value_bound(bytes.subrange(0, 4));
        lemma_le_value_bound(bytes.subrange(5 + n, 13 + n));
        lemma_le_value_bound(bytes.subrange(13 + n, 21 + n));
        lemma_le_bytes_of_le_value(bytes.subrange(0, 4));
        lemma_le_bytes_of_le_value(bytes.subrange(5 + n, 13 + n));
        lemma_le_bytes_of_le_value(bytes.subrange(13 + n, 21 + n));
        vstd::utf8::decode_utf8_encode_utf8(text);
        assert(encode_utf8(fields.trading_pair) == text);
        assert(seq![flag_byte(fields.is_buy)] =~= bytes.subrange(4 + n, 5 + n));
        assert(fields.encoding() =~= bytes);
    }
}

/// Appends the layout of the five fields to `out`, or leaves `out` alone and
/// answers `false` when the pair is too long to lay out.
pub fn put_signal_fields(
    out: &mut Vec<u8>,
    trading_pair: &str,
    is_buy: bool,
    amount: u64,
    timestamp: u64,
    signature: &[u8; 64],
) -> (fits: bool)
    ensures
        fits == text_fits(trading_pair@),
        fits ==> final(out)@ == old(out)@ + (SignalFields {
            trading_pair: trading_pair@,
            is_buy,
            amount,
            timestamp,
            signature: signature@,
        }).encoding(),
        !fits ==> final(out)@ == old(out)@,
{
    if !put_text(out, trading_pair) {
        return false;
    }
    put_flag(out, is_buy);
    put_le(out, amount, 8);
    put_le(out, timestamp, 8);
    put_bytes(out, signature.as_slice());
    assert(out@ =~= old(out)@ + (SignalFields {
        trading_pair: trading_pair@,
        is_buy,
        amount,
        timestamp,
        signature: signature@,
    }).encoding());
    true
}

/// Reads the five fields that `bytes` lay out between `start` and `end`;
/// `None` exactly when those bytes are no layout of any fields.
pub fn take_signal_fields(bytes: &[u8], start: usize, end: usize) -> (fields: Option<
    (String, bool, u64, u64, [u8; 64]),
>)
    requires
        start <= end <= bytes@.len(),
    ensures
        match SignalFields::parse(bytes@.subrange(start as int, end as int)) {
            Some(parsed) => fields matches Some(read) && read.0@ == parsed.trading_pair && read.1
                == parsed.is_buy && read.2 == parsed.amount && read.3 == parsed.timestamp
                && read.4@ == parsed.signature,
            None => fields is None,
        },
{
    let ghost window = bytes@.subrange(start as int, end as int);
    let room: usize = end - start;
    if room < 4 {
        return None;
    }
    let prefix: u64 = get_le(bytes, start, 4);
    assert(bytes@.subrange(start as int, start + 4) =~= window.subrange(0, 4));
    proof {
        lemma_radix_pow_values();
        lemma_le_value_bound(window.subrange(0, 4));
    }
    if room - 4 < FIXED_LEN || prefix != (room - 4 - FIXED_LEN) as u64 {
        return None;
    }
    let n: usize = room - 4 - FIXED_LEN;
    let at: usize = start + 4;
    assert(bytes@.subrange(at as int, at + n) =~= window.subrange(4, 4 + n));
    let trading_pair: String = match take_text(bytes, at, n) {
        Some(text) => text,
        None => {
            return None;
        },
    };
    let flag: u8 = bytes[at + n];
    if flag > 1 {
        return None;
    }
    let amount: u64 = get_le(bytes, at + n + 1, 8);
    let timestamp: u64 = get_le(bytes, at + n + 9, 8);
    let signature: [u8; 64] = take_array::<64>(bytes, at + n + 17);
    assert(bytes@.subrange(at + n + 1, at + n + 9) =~= window.subrange(5 + n, 13 + n));
    assert(bytes@.subrange(at + n + 9, at + n + 17) =~= window.subrange(13 + n, 21 + n));
    assert(bytes@.subrange(at + n + 17, at + n + 17 + 64) =~= window.subrange(21 + n, 85 + n));
    Some((trading_pair, flag == 1, amount, timestamp, signature))
}

} // verus!
