//! The life of a signal: pushed once by an oracle, executed once by a trader.

use vstd::prelude::*;
use crate::account::{account_views, Account, AccountView};
use crate::error::{ProgramError, TradingError};
use crate::fields::SignalFields;
use crate::instruction::{InstructionView, TradingInstruction};
use crate::pubkey::Pubkey;
use crate::signal::{
    read_record, write_record, written_over, zero_filled, SignalData, SignalDataView,
};
use crate::wire::{put_bytes, put_zeros};

verus! {

/// The trade that a trader asks the swap venue for when executing a signal.
#[derive(Debug)]
pub struct ExecutionIntent {
    /// The asset pair of the signal.
    pub trading_pair: String,
    /// `true` to buy, `false` to sell.
    pub is_buy: bool,
    /// How much to trade.
    pub amount: u64,
    /// The price deviation that the trader accepts, in basis points.
    pub slippage_bps: u16,
}

/// An execution intent as mathematical values.
pub struct ExecutionIntentView {
    pub trading_pair: Seq<char>,
    pub is_buy: bool,
    pub amount: u64,
    pub slippage_bps: u16,
}

impl View for ExecutionIntent {
    type V = ExecutionIntentView;

    open spec fn view(&self) -> ExecutionIntentView {
        ExecutionIntentView {
            trading_pair: self.trading_pair@,
            is_buy: self.is_buy,
            amount: self.amount,
            slippage_bps: self.slippage_bps,
        }
    }
}

/// What an instruction did when it succeeded.
#[derive(Debug)]
pub enum Outcome {
    /// A signal was recorded in the signal account.
    SignalRecorded { trading_pair: String, is_buy: bool },
    /// The signal in the signal account was marked as executed.
    TradeExecuted { intent: ExecutionIntent },
}

/// An outcome as mathematical values.
pub enum OutcomeView {
    SignalRecorded { trading_pair: Seq<char>, is_buy: bool },
    TradeExecuted { intent: ExecutionIntentView },
}

impl View for Outcome {
    type V = OutcomeView;

    open spec fn view(&self) -> OutcomeView {
        match self {
            Outcome::SignalRecorded { trading_pair, is_buy } => OutcomeView::SignalRecorded {
                trading_pair: trading_pair@,
                is_buy: *is_buy,
            },
            Outcome::TradeExecuted { intent } => OutcomeView::TradeExecuted { intent: intent@ },
        }
    }
}

/// The trade that executing `record` with `slippage_bps` asks for.
pub open spec fn intent_of(record: SignalDataView, slippage_bps: u16) -> ExecutionIntentView {
    ExecutionIntentView {
        trading_pair: record.fields.trading_pair,
        is_buy: record.fields.is_buy,
        amount: record.fields.amount,
        slippage_bps,
    }
}

/// Where the signal account stands among the accounts of either command. It
/// is the only account whose storage an instruction reads or writes.
pub const SIGNAL_ACCOUNT: usize = 1;

/// What pushing a signal does. The accounts are the oracle, the signal
/// account and the trader. The oracle has to sign, the signal account has to
/// be owned by the program, and its storage has to be long enough for the
/// record. The storage then holds the record, with the oracle as its author
/// and not yet executed, and zeros after it: nothing of what it held before
/// is left, and its length is as it was. No other account changes.
pub open spec fn push_signal_spec(
    program_id: Seq<u8>,
    accounts: Seq<AccountView>,
    fields: SignalFields,
) -> Result<Seq<AccountView>, ProgramError> {
    if accounts.len() < 3 {
        Err(ProgramError::NotEnoughAccountKeys)
    } else if !accounts[0].is_signer {
        Err(ProgramError::of(TradingError::Unauthorized))
    } else if accounts[1].owner != program_id {
        Err(ProgramError::IncorrectProgramId)
    } else {
        let record = SignalDataView { oracle: accounts[0].key, fields, executed: false };
        let storage = accounts[1].data;
        if record.wf() && record.encoding().len() <= storage.len() {
            Ok(
                accounts.update(
                    1,
                    accounts[1].with_data(zero_filled(record.encoding(), storage.len())),
                ),
            )
        } else {
            Err(ProgramError::BorshIoError)
        }
    }
}

/// What executing a trade does. The accounts are the trader, the signal
/// account, the trader's two token accounts and the swap venue's program.
/// The trader has to sign, the signal account has to be owned by the program
/// and its storage has to start with a record that was not executed yet. The
/// record is then written over the same bytes, marked as executed, and the
/// trade to ask for is handed back. What follows the record in the storage
/// stays, and no other account changes.
pub open spec fn execute_trade_spec(
    program_id: Seq<u8>,
    accounts: Seq<AccountView>,
    slippage_bps: u16,
) -> Result<(Seq<AccountView>, ExecutionIntentView), ProgramError> {
    if accounts.len() < 5 {
        Err(ProgramError::NotEnoughAccountKeys)
    } else if !accounts[0].is_signer {
        Err(ProgramError::of(TradingError::Unauthorized))
    } else if accounts[1].owner != program_id {
        Err(ProgramError::IncorrectProgramId)
    } else {
        match SignalDataView::parse_start(accounts[1].data) {
            None => Err(ProgramError::BorshIoError),
            Some((record, length)) => if record.executed {
                Err(ProgramError::of(TradingError::InvalidSignal))
            } else {
                Ok(
                    (
                        accounts.update(
                            1,
                            accounts[1].with_data(
                                written_over(accounts[1].data, record.mark_executed().encoding()),
                            ),
                        ),
                        intent_of(record, slippage_bps),
                    ),
                )
            },
        }
    }
}

/// How many accounts a command names.
pub open spec fn accounts_needed(command: InstructionView) -> nat {
    match command {
        InstructionView::PushSignal { fields } => 3,
        InstructionView::ExecuteTrade { slippage_bps } => 5,
    }
}

/// What an instruction does: its bytes are decoded into a command, and the
/// command is carried out on the accounts.
pub open spec fn process_instruction_spec(
    program_id: Seq<u8>,
    accounts: Seq<AccountView>,
    instruction_data: Seq<u8>,
) -> Result<(Seq<AccountView>, OutcomeView), ProgramError> {
    match InstructionView::parse(instruction_data) {
        None => Err(ProgramError::of(TradingError::InvalidInstruction)),
        Some(InstructionView::PushSignal { fields }) => match push_signal_spec(
            program_id,
            accounts,
            fields,
        ) {
            Ok(after) => Ok(
                (
                    after,
                    OutcomeView::SignalRecorded {
                        trading_pair: fields.trading_pair,
                        is_buy: fields.is_buy,
                    },
                ),
            ),
            Err(error) => Err(error),
        },
        Some(InstructionView::ExecuteTrade { slippage_bps }) => match execute_trade_spec(
            program_id,
            accounts,
            slippage_bps,
        ) {
            Ok((after, intent)) => Ok((after, OutcomeView::TradeExecuted { intent })),
            Err(error) => Err(error),
        },
    }
}

/// The accounts as an instruction leaves them: changed as the command says
/// when it succeeds, untouched when it fails.
pub open spec fn accounts_after(
    program_id: Seq<u8>,
    accounts: Seq<AccountView>,
    instruction_data: Seq<u8>,
) -> Seq<AccountView> {
    match process_instruction_spec(program_id, accounts, instruction_data) {
        Ok((after, outcome)) => after,
        Err(error) => accounts,
    }
}

/// Decodes `instruction_data` and carries the command out on `accounts`.
/// When it fails, no account has changed.
pub fn process_instruction(
    program_id: &Pubkey,
    accounts: &mut Vec<Account>,
    instruction_data: &[u8],
) -> (done: Result<Outcome, ProgramError>)
    ensures
        match process_instruction_spec(
            program_id@,
            account_views(old(accounts)@),
            instruction_data@,
        ) {
            Ok((after, outcome)) => done matches Ok(reported) && reported@ == outcome
                && account_views(final(accounts)@) == after,
            Err(error) => done matches Err(reported) && reported == error && account_views(
                final(accounts)@,
            ) == account_views(old(accounts)@),
        },
{
    let instruction: TradingInstruction = match TradingInstruction::try_from_slice(
        instruction_data,
    ) {
        Ok(instruction) => instruction,
        Err(_) => {
            return Err(ProgramError::from(TradingError::InvalidInstruction));
        },
    };
    match instruction {
        TradingInstruction::PushSignal { trading_pair, is_buy, amount, timestamp, signature } => {
            let pushed: String = trading_pair.clone();
            match process_push_signal(
                program_id,
                accounts,
                trading_pair,
                is_buy,
                amount,
                timestamp,
                signature,
            ) {
                Ok(()) => Ok(Outcome::SignalRecorded { trading_pair: pushed, is_buy }),
                Err(error) => Err(error),
            }
        },
        TradingInstruction::ExecuteTrade { slippage_bps } => {
            match process_execute_trade(program_id, accounts, slippage_bps) {
                Ok(intent) => Ok(Outcome::TradeExecuted { intent }),
                Err(error) => Err(error),
            }
        },
    }
}

/// Records a signal of the oracle over the storage of the signal account,
/// which keeps its length. When it fails, as it does on storage too short for
/// the record, no account has changed.
pub fn process_push_signal(
    program_id: &Pubkey,
    accounts: &mut Vec<Account>,
    trading_pair: String,
    is_buy: bool,
    amount: u64,
    timestamp: u64,
    signature: [u8; 64],
) -> (done: Result<(), ProgramError>)
    ensures
        match push_signal_spec(
            program_id@,
            account_views(old(accounts)@),
            SignalFields {
                trading_pair: trading_pair@,
                is_buy,
                amount,
                timestamp,
                signature: signature@,
            },
        ) {
            Ok(after) => done is Ok && account_views(final(accounts)@) == after,
            Err(error) => done matches Err(reported) && reported == error && account_views(
                final(accounts)@,
            ) == account_views(old(accounts)@),
        },
{
    if accounts.len() < 3 {
        return Err(ProgramError::NotEnoughAccountKeys);
    }
    if !accounts[0].is_signer {
        return Err(ProgramError::from(TradingError::Unauthorized));
    }
    if accounts[1].owner != *program_id {
        return Err(ProgramError::IncorrectProgramId);
    }
    let record: SignalData = SignalData {
        oracle: accounts[0].key,
        trading_pair,
        is_buy,
        amount,
        timestamp,
        signature,
        executed: false,
    };
    let room: usize = accounts[1].data.len();
    let mut storage: Vec<u8> = Vec::new();
    match record.serialize(&mut storage) {
        Ok(()) => {},
        Err(error) => {
            return Err(error);
        },
    }
    assert(storage@ =~= record@.encoding());
    let taken: usize = storage.len();
    if taken > room {
        return Err(ProgramError::BorshIoError);
    }
    put_zeros(&mut storage, room - taken);
    assert(storage@ =~= zero_filled(record@.encoding(), room as nat));
    accounts[1].data = storage;
    assert(account_views(accounts@) =~= account_views(old(accounts)@).update(
        1,
        account_views(old(accounts)@)[1].with_data(
            zero_filled(record@.encoding(), room as nat),
        ),
    ));
    Ok(())
}

/// Marks the record at the start of the signal account's storage as executed
/// and hands back the trade to ask the swap venue for. A signal is executed
/// once: on a record that is marked already this fails. When it fails, no
/// account has changed.
pub fn process_execute_trade(
    program_id: &Pubkey,
    accounts: &mut Vec<Account>,
    slippage_bps: u16,
) -> (done: Result<ExecutionIntent, ProgramError>)
    ensures
        match execute_trade_spec(program_id@, account_views(old(accounts)@), slippage_bps) {
            Ok((after, intent)) => done matches Ok(asked) && asked@ == intent && account_views(
                final(accounts)@,
            ) == after,
            Err(error) => done matches Err(reported) && reported == error && account_views(
                final(accounts)@,
            ) == account_views(old(accounts)@),
        },
{
    if accounts.len() < 5 {
        return Err(ProgramError::NotEnoughAccountKeys);
    }
    if !accounts[0].is_signer {
        return Err(ProgramError::from(TradingError::Unauthorized));
    }
    if accounts[1].owner != *program_id {
        return Err(ProgramError::IncorrectProgramId);
    }
    let (mut record, length) = match read_record(accounts[1].data.as_slice()) {
        Ok(found) => found,
        Err(error) => {
            return Err(error);
        },
    };
    if record.executed {
        return Err(ProgramError::from(TradingError::InvalidSignal));
    }
    let ghost read = record@;
    let intent: ExecutionIntent = ExecutionIntent {
        trading_pair: record.trading_pair.clone(),
        is_buy: record.is_buy,
        amount: record.amount,
        slippage_bps,
    };
    record.executed = true;
    assert(record@ == read.mark_executed());
    proof {
        SignalDataView::lemma_parse_start(old(accounts)@[1].data@);
    }
    let mut storage: Vec<u8> = Vec::new();
    put_bytes(&mut storage, accounts[1].data.as_slice());
    assert(storage@ =~= old(accounts)@[1].data@);
    match write_record(&record, &mut storage) {
        Ok(()) => {},
        Err(error) => {
            return Err(error);
        },
    }
    accounts[1].data = storage;
    assert(account_views(accounts@) =~= account_views(old(accounts)@).update(
        1,
        account_views(old(accounts)@)[1].with_data(
            written_over(old(accounts)@[1].data@, record@.encoding()),
        ),
    ));
    Ok(intent)
}

} // verus!
