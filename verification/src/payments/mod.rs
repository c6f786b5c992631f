//! The payments domain: accounts with a balance and a nonce, transfers
//! between two of them, and the state machine that runs transfers against
//! the ledger.

pub mod state_machine;
pub mod state_transition;
pub mod types;
