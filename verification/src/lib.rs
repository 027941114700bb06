//! The rules of an escrow contract.
//!
//! A depositor puts funds into an escrow for a beneficiary. The depositor can
//! release them once the release time has been reached; the beneficiary can raise
//! a dispute; the administrator can refund. An escrow can be the child of another
//! one and wait for it to have a certain status; it is then released by itself as
//! soon as its parent gets there. In a commitment escrow the amount stays hidden
//! behind a SHA-256 commitment until it is revealed.
//!
//! The rules are calls of [`EscrowContract`] on an [`Invocation`], which holds what
//! they may read and collects what they want done; they do no input or output
//! themselves. [`model`] says what each call comes to, and [`laws`] states what
//! holds of them all.

pub mod commitment;
pub mod contract;
pub mod invocation;
pub mod laws;
pub mod model;
pub mod types;

pub use contract::EscrowContract;
pub use invocation::{Action, EscrowError, Event, Halt, Holder, Invocation};
pub use types::{
    Address, CommitmentEscrow, CommitmentEscrowStatus, DataKey, Escrow, EscrowStatus,
    ParentStatusRequirement,
};
