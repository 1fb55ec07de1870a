//! Trading signals on a ledger: an oracle records a signal in an account that
//! this program owns, and a trader later executes a trade against it, once.
//!
//! What an instruction does is defined in [`processor`] over mathematical
//! values, and the functions that carry it out are proved against that
//! definition. [`instruction`] and [`signal`] define the binary forms of the
//! commands and of the stored record, built from the pieces in [`wire`] and
//! [`fields`]; [`laws`] holds what follows for the program as a whole.

pub mod account;
pub mod error;
pub mod fields;
pub mod instruction;
pub mod laws;
pub mod processor;
pub mod pubkey;
pub mod signal;
pub mod wire;

pub use account::{account_views, Account, AccountView};
pub use error::{ProgramError, TradingError};
pub use instruction::{InstructionView, TradingInstruction};
pub use processor::{
    process_execute_trade, process_instruction, process_push_signal, ExecutionIntent,
    ExecutionIntentView, Outcome, OutcomeView, SIGNAL_ACCOUNT,
};
pub use pubkey::Pubkey;
pub use signal::{read_record, write_record, SignalData, SignalDataView};
