//! What holds of the program as a whole, proved from the definitions of what
//! each instruction does.

use vstd::prelude::*;
use vstd::utf8::encode_utf8;
use crate::account::AccountView;
use crate::error::{ProgramError, TradingError};
use crate::instruction::InstructionView;
use crate::processor::{
    accounts_after, accounts_needed, intent_of, process_instruction_spec, OutcomeView,
    SIGNAL_ACCOUNT,
};
use crate::signal::{written_over, zero_filled, SignalDataView, RECORD_FIXED_LEN};

verus! {

/// A signal is executed once. Where the signal account's storage starts with
/// a record that was not executed, a signed execute instruction succeeds: it
/// asks for the record's trade and writes the record over the same bytes,
/// marked as executed. Any execute instruction after it fails with
/// `InvalidSignal` and leaves the accounts as the first one left them.
pub proof fn law_executed_once(
    program_id: Seq<u8>,
    accounts: Seq<AccountView>,
    record: SignalDataView,
    first: Seq<u8>,
    second: Seq<u8>,
)
    requires
        InstructionView::parse(first) is Some,
        InstructionView::parse(first)->0 is ExecuteTrade,
        InstructionView::parse(second) is Some,
        InstructionView::parse(second)->0 is ExecuteTrade,
        accounts.len() >= 5,
        accounts[0].is_signer,
        accounts[1].owner == program_id,
        record.wf(),
        !record.executed,
        record.encoding().len() <= accounts[1].data.len(),
        accounts[1].data.subrange(0, record.encoding().len() as int) == record.encoding(),
    ensures
        process_instruction_spec(program_id, accounts, first) == Ok::<
            (Seq<AccountView>, OutcomeView),
            ProgramError,
        >(
            (
                accounts.update(
                    1,
                    accounts[1].with_data(
                        written_over(accounts[1].data, record.mark_executed().encoding()),
                    ),
                ),
                OutcomeView::TradeExecuted {
                    intent: intent_of(
                        record,
                        InstructionView::parse(first)->0->slippage_bps,
                    ),
                },
            ),
        ),
        process_instruction_spec(
            program_id,
            accounts_after(program_id, accounts, first),
            second,
        ) == Err::<(Seq<AccountView>, OutcomeView), ProgramError>(
            ProgramError::of(TradingError::InvalidSignal),
        ),
        accounts_after(program_id, accounts_after(program_id, accounts, first), second)
            == accounts_after(program_id, accounts, first),
{
    let storage = accounts[1].data;
    let form = record.encoding();
    let marked = record.mark_executed();
    let rest = storage.skip(form.len() as int);
    record.lemma_encoding_len();
    marked.lemma_encoding_len();
    assert(storage =~= form + rest);
    record.lemma_parse_start_of_encoding(rest);
    marked.lemma_parse_start_of_encoding(rest);
    assert(written_over(storage, marked.encoding()) =~= marked.encoding() + rest);
}

/// Without the signature of the account in the first position, the oracle of
/// a push or the trader of an execute, an instruction that names enough
/// accounts fails with `Unauthorized`, whatever else it holds.
pub proof fn law_signer_required(
    program_id: Seq<u8>,
    accounts: Seq<AccountView>,
    instruction_data: Seq<u8>,
)
    requires
        InstructionView::parse(instruction_data) is Some,
        accounts.len() >= accounts_needed(InstructionView::parse(instruction_data)->0),
        !accounts[0].is_signer,
    ensures
        process_instruction_spec(program_id, accounts, instruction_data) == Err::<
            (Seq<AccountView>, OutcomeView),
            ProgramError,
        >(ProgramError::of(TradingError::Unauthorized)),
{
}

/// An instruction never succeeds on a signal account that the program does
/// not own; where the instruction decodes, names enough accounts and is
/// signed, it fails with `IncorrectProgramId`.
pub proof fn law_owner_required(
    program_id: Seq<u8>,
    accounts: Seq<AccountView>,
    instruction_data: Seq<u8>,
)
    requires
        accounts.len() >= 2,
        accounts[1].owner != program_id,
    ensures
        process_instruction_spec(program_id, accounts, instruction_data) is Err,
        InstructionView::parse(instruction_data) is Some && accounts.len() >= accounts_needed(
            InstructionView::parse(instruction_data)->0,
        ) && accounts[0].is_signer ==> process_instruction_spec(
            program_id,
            accounts,
            instruction_data,
        ) == Err::<(Seq<AccountView>, OutcomeView), ProgramError>(
            ProgramError::IncorrectProgramId,
        ),
{
}

/// Bytes that do not start with the tag of a command decode to nothing: the
/// instruction fails with `InvalidInstruction` and leaves the accounts alone.
pub proof fn law_unknown_tag_rejected(
    program_id: Seq<u8>,
    accounts: Seq<AccountView>,
    instruction_data: Seq<u8>,
)
    requires
        instruction_data.len() == 0 || instruction_data[0] > 1,
    ensures
        InstructionView::parse(instruction_data) is None,
        process_instruction_spec(program_id, accounts, instruction_data) == Err::<
            (Seq<AccountView>, OutcomeView),
            ProgramError,
        >(ProgramError::of(TradingError::InvalidInstruction)),
        accounts_after(program_id, accounts, instruction_data) == accounts,
{
}

/// A push that names its three accounts succeeds exactly when the oracle
/// signed, the program owns the signal account and the storage of the signal
/// account is long enough for the record. The storage then starts with the
/// record of the pushed fields, with the signing oracle as its author and not
/// yet executed, zeros follow, and it reads back as that record. Where the
/// storage is too short the push fails with the ledger's I/O error.
pub proof fn law_push_records_signal(
    program_id: Seq<u8>,
    accounts: Seq<AccountView>,
    instruction_data: Seq<u8>,
)
    requires
        InstructionView::parse(instruction_data) is Some,
        InstructionView::parse(instruction_data)->0 is PushSignal,
        accounts.len() >= 3,
        accounts[0].key.len() == 32,
    ensures
        ({
            let fields = InstructionView::parse(instruction_data)->0->fields;
            let record = SignalDataView { oracle: accounts[0].key, fields, executed: false };
            let storage = accounts[1].data;
            let done = process_instruction_spec(program_id, accounts, instruction_data);
            let stored = zero_filled(record.encoding(), storage.len());
            &&& record.encoding().len() == RECORD_FIXED_LEN + encode_utf8(fields.trading_pair).len()
            &&& done is Ok <==> accounts[0].is_signer && accounts[1].owner == program_id
                && record.encoding().len() <= storage.len()
            &&& done is Ok ==> done == Ok::<(Seq<AccountView>, OutcomeView), ProgramError>(
                (
                    accounts.update(1, accounts[1].with_data(stored)),
                    OutcomeView::SignalRecorded {
                        trading_pair: fields.trading_pair,
                        is_buy: fields.is_buy,
                    },
                ),
            ) && stored.len() == storage.len() && SignalDataView::parse_start(stored) == Some(
                (record, record.encoding().len() as int),
            )
            &&& accounts[0].is_signer && accounts[1].owner == program_id && record.encoding().len()
                > storage.len() ==> done == Err::<(Seq<AccountView>, OutcomeView), ProgramError>(
                ProgramError::BorshIoError,
            )
        }),
{
    let fields = InstructionView::parse(instruction_data)->0->fields;
    let record = SignalDataView { oracle: accounts[0].key, fields, executed: false };
    let storage = accounts[1].data;
    InstructionView::lemma_encoding_parse(instruction_data);
    record.lemma_encoding_len();
    if record.encoding().len() <= storage.len() {
        let zeros = Seq::new((storage.len() - record.encoding().len()) as nat, |i: int| 0u8);
        record.lemma_parse_start_of_encoding(zeros);
    }
}

/// A signal that was pushed can be executed: after a push that succeeded, a
/// signed execute instruction with its five accounts succeeds and asks for
/// the trade of the pushed fields.
pub proof fn law_pushed_signal_can_be_executed(
    program_id: Seq<u8>,
    accounts: Seq<AccountView>,
    push: Seq<u8>,
    execute: Seq<u8>,
)
    requires
        InstructionView::parse(push) is Some,
        InstructionView::parse(push)->0 is PushSignal,
        InstructionView::parse(execute) is Some,
        InstructionView::parse(execute)->0 is ExecuteTrade,
        accounts.len() >= 5,
        process_instruction_spec(program_id, accounts, push) is Ok,
    ensures
        ({
            let fields = InstructionView::parse(push)->0->fields;
            let record = SignalDataView { oracle: accounts[0].key, fields, executed: false };
            let pushed = accounts_after(program_id, accounts, push);
            process_instruction_spec(program_id, pushed, execute) == Ok::<
                (Seq<AccountView>, OutcomeView),
                ProgramError,
            >(
                (
                    pushed.update(
                        1,
                        pushed[1].with_data(
                            written_over(pushed[1].data, record.mark_executed().encoding()),
                        ),
                    ),
                    OutcomeView::TradeExecuted {
                        intent: intent_of(record, InstructionView::parse(execute)->0->slippage_bps),
                    },
                ),
            )
        }),
{
    let fields = InstructionView::parse(push)->0->fields;
    let record = SignalDataView { oracle: accounts[0].key, fields, executed: false };
    let room = accounts[1].data.len();
    let zeros = Seq::new((room - record.encoding().len()) as nat, |i: int| 0u8);
    record.lemma_parse_start_of_encoding(zeros);
}

/// An instruction changes nothing but what the storage of the signal account
/// holds: every account keeps its key, its owner, its signer flag and the
/// length of its storage, and every account but the signal account keeps its
/// storage.
pub proof fn law_only_signal_storage_changes(
    program_id: Seq<u8>,
    accounts: Seq<AccountView>,
    instruction_data: Seq<u8>,
)
    ensures
        ({
            let after = accounts_after(program_id, accounts, instruction_data);
            &&& after.len() == accounts.len()
            &&& forall|i: int|
                0 <= i < accounts.len() ==> (#[trigger] after[i]).key == accounts[i].key
                    && after[i].owner == accounts[i].owner && after[i].is_signer
                    == accounts[i].is_signer && after[i].data.len() == accounts[i].data.len()
            &&& forall|i: int|
                0 <= i < accounts.len() && i != SIGNAL_ACCOUNT ==> (#[trigger] after[i]).data
                    == accounts[i].data
        }),
{
    if process_instruction_spec(program_id, accounts, instruction_data) is Ok {
        match InstructionView::parse(instruction_data)->0 {
            InstructionView::PushSignal { fields } => {},
            InstructionView::ExecuteTrade { slippage_bps } => {
                SignalDataView::lemma_parse_start(accounts[1].data);
            },
        }
    }
}

/// What an instruction does depends on no storage but the signal account's:
/// two lists of accounts that agree in everything but the storage of the
/// other accounts get the same answer and the same storage of the signal
/// account.
pub proof fn law_only_signal_storage_read(
    program_id: Seq<u8>,
    accounts: Seq<AccountView>,
    others: Seq<AccountView>,
    instruction_data: Seq<u8>,
)
    requires
        accounts.len() == others.len(),
        forall|i: int|
            0 <= i < accounts.len() ==> (#[trigger] others[i]).key == accounts[i].key
                && others[i].owner == accounts[i].owner && others[i].is_signer
                == accounts[i].is_signer,
        accounts.len() > SIGNAL_ACCOUNT ==> others[SIGNAL_ACCOUNT as int].data
            == accounts[SIGNAL_ACCOUNT as int].data,
    ensures
        ({
            let done = process_instruction_spec(program_id, accounts, instruction_data);
            let other = process_instruction_spec(program_id, others, instruction_data);
            &&& done is Ok <==> other is Ok
            &&& done is Err ==> done->Err_0 == other->Err_0
            &&& done is Ok ==> done->Ok_0.1 == other->Ok_0.1
                && done->Ok_0.0[SIGNAL_ACCOUNT as int].data
                == other->Ok_0.0[SIGNAL_ACCOUNT as int].data
        }),
{
}

/// The ways an instruction can fail: as an invalid instruction, an invalid
/// signal or an unauthorized one, for want of accounts, on a signal account
/// of another program, or with the ledger's I/O error on the storage. No
/// instruction fails with `TradeExecutionFailed`, which is kept for the swap
/// venue.
pub proof fn law_failures(
    program_id: Seq<u8>,
    accounts: Seq<AccountView>,
    instruction_data: Seq<u8>,
)
    requires
        process_instruction_spec(program_id, accounts, instruction_data) is Err,
    ensures
        ({
            let error = process_instruction_spec(program_id, accounts, instruction_data)->Err_0;
            ||| error == ProgramError::of(TradingError::InvalidInstruction)
            ||| error == ProgramError::of(TradingError::InvalidSignal)
            ||| error == ProgramError::of(TradingError::Unauthorized)
            ||| error == ProgramError::NotEnoughAccountKeys
            ||| error == ProgramError::IncorrectProgramId
            ||| error == ProgramError::BorshIoError
        }),
        process_instruction_spec(program_id, accounts, instruction_data)->Err_0 != ProgramError::of(
            TradingError::TradeExecutionFailed,
        ),
{
}

} // verus!
