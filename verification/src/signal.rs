//! The record that a signal account holds, and its binary form.

use vstd::prelude::*;
use vstd::utf8::encode_utf8;
use crate::error::ProgramError;
use crate::fields::{put_signal_fields, take_signal_fields, SignalFields};
use crate::pubkey::Pubkey;
use crate::wire::{
    flag_byte, get_le, le_bytes, le_value, lemma_le_bytes_len, lemma_le_value_bound,
    lemma_le_value_of_le_bytes, lemma_radix_pow_values, put_bytes, put_flag, take_array,
};

verus! {

/// The length of a record's binary form without its pair's UTF-8 form.
pub const RECORD_FIXED_LEN: usize = 118;

/// `storage` with `form` written over its start: what follows stays.
pub open spec fn written_over(storage: Seq<u8>, form: Seq<u8>) -> Seq<u8> {
    form + storage.skip(form.len() as int)
}

/// `form` followed by zero bytes, `length` bytes in all.
pub open spec fn zero_filled(form: Seq<u8>, length: nat) -> Seq<u8> {
    form + Seq::new((length - form.len()) as nat, |i: int| 0u8)
}

/// A recorded signal.
#[derive(Debug)]
pub struct SignalData {
    /// The oracle that pushed the signal.
    pub oracle: Pubkey,
    /// The asset pair, such as "SOL/USDC".
    pub trading_pair: String,
    /// `true` to buy, `false` to sell.
    pub is_buy: bool,
    /// How much to trade.
    pub amount: u64,
    /// When the oracle says the signal was made.
    pub timestamp: u64,
    /// The oracle's signature over the signal; kept, not checked.
    pub signature: [u8; 64],
    /// Whether the trade of this signal has been executed.
    pub executed: bool,
}

/// A recorded signal as mathematical values.
pub struct SignalDataView {
    pub oracle: Seq<u8>,
    pub fields: SignalFields,
    pub executed: bool,
}

impl SignalDataView {
    /// A record that has a binary form.
    pub open spec fn wf(self) -> bool {
        &&& self.oracle.len() == 32
        &&& self.fields.wf()
    }

    /// The binary form: the oracle's 32 bytes, the signal's fields, and one
    /// byte that says whether the signal was executed.
    pub open spec fn encoding(self) -> Seq<u8> {
        self.oracle + self.fields.encoding() + seq![flag_byte(self.executed)]
    }

    /// The record that `bytes` are the binary form of, if there is one.
    pub open spec fn parse(bytes: Seq<u8>) -> Option<SignalDataView> {
        if bytes.len() < 33 {
            None
        } else {
            match SignalFields::parse(bytes.subrange(32, bytes.len() - 1)) {
                Some(fields) => if bytes[bytes.len() - 1] > 1 {
                    None
                } else {
                    Some(
                        SignalDataView {
                            oracle: bytes.subrange(0, 32),
                            fields,
                            executed: bytes[bytes.len() - 1] == 1,
                        },
                    )
                },
                None => None,
            }
        }
    }

    /// The record that `bytes` start with, and the length of its binary form.
    /// What follows the record is not looked at.
    pub open spec fn parse_start(bytes: Seq<u8>) -> Option<(SignalDataView, int)> {
        if bytes.len() < 36 {
            None
        } else {
            let length = RECORD_FIXED_LEN + le_value(bytes.subrange(32, 36));
            if bytes.len() < length {
                None
            } else {
                match SignalDataView::parse(bytes.subrange(0, length)) {
                    Some(record) => Some((record, length)),
                    None => None,
                }
            }
        }
    }

    /// This record once its trade has been executed.
    pub open spec fn mark_executed(self) -> SignalDataView {
        SignalDataView { executed: true, ..self }
    }

    /// A binary form is 118 bytes and the pair's UTF-8 form long.
    pub proof fn lemma_encoding_len(self)
        requires
            self.wf(),
        ensures
            self.encoding().len() == RECORD_FIXED_LEN + encode_utf8(self.fields.trading_pair).len(),
    {
        lemma_le_bytes_len(encode_utf8(self.fields.trading_pair).len(), 4);
        lemma_le_bytes_len(self.fields.amount as nat, 8);
        lemma_le_bytes_len(self.fields.timestamp as nat, 8);
    }

    /// Storage that starts with a record's binary form reads as that record,
    /// whatever follows.
    pub proof fn lemma_parse_start_of_encoding(self, rest: Seq<u8>)
        requires
            self.wf(),
        ensures
            SignalDataView::parse_start(self.encoding() + rest) == Some(
                (self, self.encoding().len() as int),
            ),
    {
        let form = self.encoding();
        let bytes = form + rest;
        let n = encode_utf8(self.fields.trading_pair).len();
        self.lemma_encoding_len();
        self.lemma_parse_encoding();
        lemma_radix_pow_values();
        lemma_le_bytes_len(n, 4);
        lemma_le_value_of_le_bytes(n, 4);
        assert(bytes.subrange(32, 36) =~= le_bytes(n, 4));
        assert(bytes.subrange(0, form.len() as int) =~= form);
    }

    /// What is read from the start of storage is a record with a binary
    /// form, and the storage starts with that form.
    pub proof fn lemma_parse_start(bytes: Seq<u8>)
        requires
            SignalDataView::parse_start(bytes) is Some,
        ensures
            ({
                let (record, length) = SignalDataView::parse_start(bytes)->0;
                &&& record.wf()
                &&& length == record.encoding().len() <= bytes.len()
                &&& record.encoding() == bytes.subrange(0, length)
                &&& record.mark_executed().wf()
                &&& record.mark_executed().encoding().len() == length
            }),
    {
        let (record, length) = SignalDataView::parse_start(bytes)->0;
        SignalDataView::lemma_encoding_parse(bytes.subrange(0, length));
        record.lemma_encoding_len();
        record.mark_executed().lemma_encoding_len();
    }

    /// Decoding a record's binary form gives the record back.
    pub proof fn lemma_parse_encoding(self)
        requires
            self.wf(),
        ensures
            SignalDataView::parse(self.encoding()) == Some(self),
    {
        let bytes = self.encoding();
        self.fields.lemma_parse_encoding();
        assert(bytes.subrange(32, bytes.len() - 1) =~= self.fields.encoding());
        assert(bytes.subrange(0, 32) =~= self.oracle);
    }

    /// Whatever decodes is a record with a binary form, and that form is the
    /// bytes it was decoded from.
    pub proof fn lemma_encoding_parse(bytes: Seq<u8>)
        requires
            SignalDataView::parse(bytes) is Some,
        ensures
            SignalDataView::parse(bytes)->0.wf(),
            SignalDataView::parse(bytes)->0.encoding() == bytes,
    {
        let record = SignalDataView::parse(bytes)->0;
        SignalFields::lemma_encoding_parse(bytes.subrange(32, bytes.len() - 1));
        assert(record.encoding() =~= bytes);
    }
}

impl View for SignalData {
    type V = SignalDataView;

    open spec fn view(&self) -> SignalDataView {
        SignalDataView {
            oracle: self.oracle@,
            fields: SignalFields {
                trading_pair: self.trading_pair@,
                is_buy: self.is_buy,
                amount: self.amount,
                timestamp: self.timestamp,
                signature: self.signature@,
            },
            executed: self.executed,
        }
    }
}

impl Clone for SignalData {
    fn clone(&self) -> (copy: SignalData)
        ensures
            copy@ == self@,
    {
        SignalData {
            oracle: self.oracle,
            trading_pair: self.trading_pair.clone(),
            is_buy: self.is_buy,
            amount: self.amount,
            timestamp: self.timestamp,
            signature: self.signature,
            executed: self.executed,
        }
    }
}

impl SignalData {
    /// Appends the record's binary form to `out`. A record whose pair is too
    /// long to lay out has none: `out` is then left as it was.
    pub fn serialize(&self, out: &mut Vec<u8>) -> (done: Result<(), ProgramError>)
        ensures
            done is Ok <==> self@.wf(),
            done is Ok ==> final(out)@ == old(out)@ + self@.encoding(),
            done matches Err(error) ==> error == ProgramError::BorshIoError && final(out)@
                == old(out)@,
    {
        let start: usize = out.len();
        put_bytes(out, self.oracle.bytes.as_slice());
        if !put_signal_fields(
            out,
            self.trading_pair.as_str(),
            self.is_buy,
            self.amount,
            self.timestamp,
            &self.signature,
        ) {
            out.truncate(start);
            assert(out@ =~= old(out)@);
            return Err(ProgramError::BorshIoError);
        }
        put_flag(out, self.executed);
        assert(out@ =~= old(out)@ + self@.encoding());
        Ok(())
    }

    /// Decodes a record from the whole of `bytes`: it fails on missing or
    /// malformed fields and on bytes left over.
    pub fn try_from_slice(bytes: &[u8]) -> (decoded: Result<SignalData, ProgramError>)
        ensures
            match SignalDataView::parse(bytes@) {
                Some(record) => decoded matches Ok(signal) && signal@ == record,
                None => decoded matches Err(error) && error == ProgramError::BorshIoError,
            },
    {
        let total: usize = bytes.len();
        if total < 33 {
            return Err(ProgramError::BorshIoError);
        }
        let (trading_pair, is_buy, amount, timestamp, signature) = match take_signal_fields(
            bytes,
            32,
            total - 1,
        ) {
            Some(fields) => fields,
            None => {
                return Err(ProgramError::BorshIoError);
            },
        };
        let flag: u8 = bytes[total - 1];
        if flag > 1 {
            return Err(ProgramError::BorshIoError);
        }
        let oracle: Pubkey = Pubkey::new_from_array(take_array::<32>(bytes, 0));
        Ok(
            SignalData {
                oracle,
                trading_pair,
                is_buy,
                amount,
                timestamp,
                signature,
                executed: flag == 1,
            },
        )
    }
}

/// Reads the record that `bytes` start with and says how many bytes it
/// takes. It fails when the bytes run out before the record is whole or a
/// field is malformed; what follows the record is not looked at.
pub fn read_record(bytes: &[u8]) -> (read: Result<(SignalData, usize), ProgramError>)
    ensures
        match SignalDataView::parse_start(bytes@) {
            Some((record, length)) => read matches Ok(found) && found.0@ == record && found.1
                == length,
            None => read matches Err(error) && error == ProgramError::BorshIoError,
        },
{
    let total: usize = bytes.len();
    if total < 36 {
        return Err(ProgramError::BorshIoError);
    }
    let n: u64 = get_le(bytes, 32, 4);
    proof {
        lemma_radix_pow_values();
        lemma_le_value_bound(bytes@.subrange(32, 36));
    }
    if total < RECORD_FIXED_LEN || n > (total - RECORD_FIXED_LEN) as u64 {
        return Err(ProgramError::BorshIoError);
    }
    let length: usize = RECORD_FIXED_LEN + n as usize;
    match SignalData::try_from_slice(vstd::slice::slice_subrange(bytes, 0, length)) {
        Ok(record) => Ok((record, length)),
        Err(error) => Err(error),
    }
}

/// Writes the record's binary form over the start of `storage`; the length
/// of the storage and what follows the record stay. It fails, and leaves the
/// storage as it was, when the record has no binary form or the storage is
/// too short for it.
pub fn write_record(record: &SignalData, storage: &mut Vec<u8>) -> (done: Result<
    (),
    ProgramError,
>)
    ensures
        done is Ok <==> record@.wf() && record@.encoding().len() <= old(storage)@.len(),
        done is Ok ==> final(storage)@ == written_over(old(storage)@, record@.encoding()),
        done matches Err(error) ==> error == ProgramError::BorshIoError && final(storage)@ == old(
            storage,
        )@,
{
    let mut form: Vec<u8> = Vec::new();
    match record.serialize(&mut form) {
        Ok(()) => {},
        Err(error) => {
            return Err(error);
        },
    }
    assert(form@ =~= record@.encoding());
    let taken: usize = form.len();
    let total: usize = storage.len();
    if taken > total {
        return Err(ProgramError::BorshIoError);
    }
    put_bytes(&mut form, vstd::slice::slice_subrange(storage.as_slice(), taken, total));
    assert(form@ =~= written_over(storage@, record@.encoding()));
    *storage = form;
    Ok(())
}

} // verus!
