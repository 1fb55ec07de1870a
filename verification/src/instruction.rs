//! The two commands of the program and their binary form: one tag byte, then
//! the command's fields.

use vstd::prelude::*;
use crate::error::TradingError;
use crate::fields::{put_signal_fields, take_signal_fields, SignalFields};
use crate::wire::{
    get_le, le_bytes, le_value, lemma_le_bytes_len, lemma_le_bytes_of_le_value,
    lemma_le_value_bound, lemma_le_value_of_le_bytes, lemma_radix_pow_values, put_le,
};

verus! {

/// A command to the program.
#[derive(Debug)]
pub enum TradingInstruction {
    /// Record a signal.
    ///
    /// Accounts, in this order: the oracle that signs the signal, the signal
    /// account that will hold the record, the trader that may execute it.
    PushSignal {
        /// The asset pair, such as "SOL/USDC".
        trading_pair: String,
        /// `true` to buy, `false` to sell.
        is_buy: bool,
        /// How much to trade.
        amount: u64,
        /// When the oracle says the signal was made.
        timestamp: u64,
        /// The oracle's signature over the signal; kept, not checked.
        signature: [u8; 64],
    },
    /// Execute the trade of a recorded signal.
    ///
    /// Accounts, in this order: the trader that signs, the signal account,
    /// the trader's source and destination token accounts, the swap venue's
    /// program, then whatever the venue needs.
    ExecuteTrade {
        /// The price deviation that the trader accepts, in basis points.
        slippage_bps: u16,
    },
}

/// A command as mathematical values.
pub enum InstructionView {
    PushSignal { fields: SignalFields },
    ExecuteTrade { slippage_bps: u16 },
}

impl InstructionView {
    /// A command that has a binary form.
    pub open spec fn wf(self) -> bool {
        match self {
            InstructionView::PushSignal { fields } => fields.wf(),
            InstructionView::ExecuteTrade { slippage_bps } => true,
        }
    }

    /// The binary form: tag 0 and the signal's fields, or tag 1 and the
    /// slippage as two little-endian bytes.
    pub open spec fn encoding(self) -> Seq<u8> {
        match self {
            InstructionView::PushSignal { fields } => seq![0u8] + fields.encoding(),
            InstructionView::ExecuteTrade { slippage_bps } => seq![1u8] + le_bytes(
                slippage_bps as nat,
                2,
            ),
        }
    }

    /// The command that `bytes` are the binary form of, if there is one.
    pub open spec fn parse(bytes: Seq<u8>) -> Option<InstructionView> {
        if bytes.len() == 0 {
            None
        } else if bytes[0] == 0 {
            match SignalFields::parse(bytes.skip(1)) {
                Some(fields) => Some(InstructionView::PushSignal { fields }),
                None => None,
            }
        } else if bytes[0] == 1 && bytes.len() == 3 {
            Some(InstructionView::ExecuteTrade { slippage_bps: le_value(bytes.skip(1)) as u16 })
        } else {
            None
        }
    }

    /// Decoding a command's binary form gives the command back.
    pub proof fn lemma_parse_encoding(self)
        requires
            self.wf(),
        ensures
            InstructionView::parse(self.encoding()) == Some(self),
    {
        match self {
            InstructionView::PushSignal { fields } => {
                fields.lemma_parse_encoding();
                assert(self.encoding().skip(1) =~= fields.encoding());
            },
            InstructionView::ExecuteTrade { slippage_bps } => {
                lemma_radix_pow_values();
                lemma_le_bytes_len(slippage_bps as nat, 2);
                lemma_le_value_of_le_bytes(slippage_bps as nat, 2);
                assert(self.encoding().skip(1) =~= le_bytes(slippage_bps as nat, 2));
            },
        }
    }

    /// Whatever decodes is a command with a binary form, and that form is the
    /// bytes it was decoded from.
    pub proof fn lemma_encoding_parse(bytes: Seq<u8>)
        requires
            InstructionView::parse(bytes) is Some,
        ensures
            InstructionView::parse(bytes)->0.wf(),
            InstructionView::parse(bytes)->0.encoding() == bytes,
    {
        let rest = bytes.skip(1);
        if bytes[0] == 0 {
            SignalFields::lemma_encoding_parse(rest);
            assert(seq![0u8] + rest =~= bytes);
        } else {
            lemma_radix_pow_values();
            lemma_le_value_bound(rest);
            lemma_le_bytes_of_le_value(rest);
            assert(seq![1u8] + rest =~= bytes);
        }
    }
}

impl View for TradingInstruction {
    type V = InstructionView;

    open spec fn view(&self) -> InstructionView {
        match self {
            TradingInstruction::PushSignal {
                trading_pair,
                is_buy,
                amount,
                timestamp,
                signature,
            } => InstructionView::PushSignal {
                fields: SignalFields {
                    trading_pair: trading_pair@,
                    is_buy: *is_buy,
                    amount: *amount,
                    timestamp: *timestamp,
                    signature: signature@,
                },
            },
            TradingInstruction::ExecuteTrade { slippage_bps } => InstructionView::ExecuteTrade {
                slippage_bps: *slippage_bps,
            },
        }
    }
}

impl Clone for TradingInstruction {
    fn clone(&self) -> (copy: TradingInstruction)
        ensures
            copy@ == self@,
    {
        match self {
            TradingInstruction::PushSignal {
                trading_pair,
                is_buy,
                amount,
                timestamp,
                signature,
            } => TradingInstruction::PushSignal {
                trading_pair: trading_pair.clone(),
                is_buy: *is_buy,
                amount: *amount,
                timestamp: *timestamp,
                signature: *signature,
            },
            TradingInstruction::ExecuteTrade { slippage_bps } => TradingInstruction::ExecuteTrade {
                slippage_bps: *slippage_bps,
            },
        }
    }
}

impl TradingInstruction {
    /// Appends the command's binary form to `out`. A push command whose pair
    /// is too long to lay out has none: `out` is then left as it was.
    pub fn serialize(&self, out: &mut Vec<u8>) -> (done: Result<(), TradingError>)
        ensures
            done is Ok <==> self@.wf(),
            done is Ok ==> final(out)@ == old(out)@ + self@.encoding(),
            done matches Err(error) ==> error == TradingError::InvalidInstruction && final(out)@
                == old(out)@,
    {
        match self {
            TradingInstruction::PushSignal {
                trading_pair,
                is_buy,
                amount,
                timestamp,
                signature,
            } => {
                out.push(0);
                if !put_signal_fields(
                    out,
                    trading_pair.as_str(),
                    *is_buy,
                    *amount,
                    *timestamp,
                    signature,
                ) {
                    out.pop();
                    assert(out@ =~= old(out)@);
                    return Err(TradingError::InvalidInstruction);
                }
                assert(out@ =~= old(out)@ + self@.encoding());
                Ok(())
            },
            TradingInstruction::ExecuteTrade { slippage_bps } => {
                out.push(1);
                put_le(out, *slippage_bps as u64, 2);
                assert(out@ =~= old(out)@ + self@.encoding());
                Ok(())
            },
        }
    }

    /// Decodes a command from the whole of `bytes`: it fails on an unknown
    /// tag, on missing or malformed fields and on bytes left over.
    pub fn try_from_slice(bytes: &[u8]) -> (decoded: Result<TradingInstruction, TradingError>)
        ensures
            match InstructionView::parse(bytes@) {
                Some(command) => decoded matches Ok(instruction) && instruction@ == command,
                None => decoded matches Err(error) && error == TradingError::InvalidInstruction,
            },
    {
        let total: usize = bytes.len();
        if total == 0 {
            return Err(TradingError::InvalidInstruction);
        }
        let tag: u8 = bytes[0];
        assert(bytes@.subrange(1, total as int) =~= bytes@.skip(1));
        if tag == 0 {
            match take_signal_fields(bytes, 1, total) {
                Some((trading_pair, is_buy, amount, timestamp, signature)) => Ok(
                    TradingInstruction::PushSignal {
                        trading_pair,
                        is_buy,
                        amount,
                        timestamp,
                        signature,
                    },
                ),
                None => Err(TradingError::InvalidInstruction),
            }
        } else if tag == 1 && total == 3 {
            let slippage: u64 = get_le(bytes, 1, 2);
            proof {
                lemma_radix_pow_values();
                lemma_le_value_bound(bytes@.skip(1));
            }
            Ok(TradingInstruction::ExecuteTrade { slippage_bps: slippage as u16 })
        } else {
            Err(TradingError::InvalidInstruction)
        }
    }
}

} // verus!
