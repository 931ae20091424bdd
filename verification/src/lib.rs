//! An escrow-based, single-lot English auction: one seller offers a fixed
//! quantity of a sale token for the highest bid in a second token, and the
//! auction itself holds both in custody until it is closed.
//!
//! The crate is the auction's state machine: every operation
//! takes the stored state and the bid ledger and says which transfers to
//! request and what to answer. Moving tokens, persisting the store and the
//! wire format are the embedding contract's business.

pub mod contract;
pub mod error;
pub mod laws;
pub mod msg;
pub mod order;
pub mod state;
pub mod text;
