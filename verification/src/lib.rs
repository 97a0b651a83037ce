//! Greeting state for an owner-gated account: one text record, its wire
//! format, and the instruction handler that replaces it.

pub mod account;
pub mod processor;
pub mod pubkey;
pub mod state;
pub mod wire;

pub use account::{Account, AccountView, WriteError};
pub use processor::{process_instruction, HandlerError};
pub use pubkey::Pubkey;
pub use state::{decode_or_default, init_greeting_account, GreetingAccount, RecordError};
