//! The ways an instruction can fail.

use vstd::prelude::*;

verus! {

/// A failure of the trading rules themselves.
#[derive(Clone, Copy, Debug, PartialEq, Eq, Structural)]
pub enum TradingError {
    /// The instruction bytes are not one of the known commands.
    InvalidInstruction,
    /// The signal cannot be acted on: it was executed before.
    InvalidSignal,
    /// A required signer did not sign.
    Unauthorized,
    /// The trade itself failed at the swap venue.
    TradeExecutionFailed,
}

impl TradingError {
    /// The number under which the ledger reports this error.
    pub open spec fn spec_code(self) -> u32 {
        match self {
            TradingError::InvalidInstruction => 0,
            TradingError::InvalidSignal => 1,
            TradingError::Unauthorized => 2,
            TradingError::TradeExecutionFailed => 3,
        }
    }

    /// The number under which the ledger reports this error.
    #[verifier::when_used_as_spec(spec_code)]
    pub fn code(self) -> (code: u32)
        ensures
            code == self.spec_code(),
    {
        match self {
            TradingError::InvalidInstruction => 0,
            TradingError::InvalidSignal => 1,
            TradingError::Unauthorized => 2,
            TradingError::TradeExecutionFailed => 3,
        }
    }

    /// The text shown for this error.
    pub open spec fn spec_message(self) -> Seq<char> {
        match self {
            TradingError::InvalidInstruction => "Invalid instruction"@,
            TradingError::InvalidSignal => "Invalid signal"@,
            TradingError::Unauthorized => "Unauthorized"@,
            TradingError::TradeExecutionFailed => "Trade execution failed"@,
        }
    }

    /// The text shown for this error.
    pub fn message(&self) -> (text: String)
        ensures
            text@ == self.spec_message(),
    {
        match self {
            TradingError::InvalidInstruction => "Invalid instruction".to_owned(),
            TradingError::InvalidSignal => "Invalid signal".to_owned(),
            TradingError::Unauthorized => "Unauthorized".to_owned(),
            TradingError::TradeExecutionFailed => "Trade execution failed".to_owned(),
        }
    }
}

/// What the ledger is told when an instruction fails.
#[derive(Clone, Copy, Debug, PartialEq, Eq, Structural)]
pub enum ProgramError {
    /// A [`TradingError`], by its code.
    Custom(u32),
    /// The instruction came with fewer accounts than it names.
    NotEnoughAccountKeys,
    /// The signal account is not owned by this program.
    IncorrectProgramId,
    /// Reading or writing the record in the signal account's storage failed:
    /// the storage does not start with a record, it is too short for the
    /// record, or the record has no binary form.
    BorshIoError,
}

impl ProgramError {
    /// How a failure of the trading rules is reported to the ledger.
    pub open spec fn of(error: TradingError) -> ProgramError {
        ProgramError::Custom(error.spec_code())
    }
}

impl From<TradingError> for ProgramError {
    fn from(error: TradingError) -> (reported: ProgramError) {
        ProgramError::Custom(error.code())
    }
}

impl vstd::std_specs::convert::FromSpecImpl<TradingError> for ProgramError {
    open spec fn obeys_from_spec() -> bool {
        true
    }

    open spec fn from_spec(error: TradingError) -> ProgramError {
        ProgramError::of(error)
    }
}

} // verus!
