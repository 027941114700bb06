//! What holds of the contract as a whole, whichever calls are made.

pub mod calls;
pub mod cascade;
pub mod commitments;
pub mod effects;
pub mod facts;
pub mod funds;
pub mod history;
pub mod lifecycle;
pub mod order;
pub mod outcomes;
pub mod refusals;
pub mod structure;
