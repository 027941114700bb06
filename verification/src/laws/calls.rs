//! All calls that change something, as one type.

use vstd::prelude::*;

use crate::invocation::{Halt, InvocationView};
use crate::types::{Address, EscrowStatus};

verus! {

/// A call of the contract that changes something.
pub enum Call {
    Initialize { admin: Address },
    CreateEscrow {
        depositor: Address,
        beneficiary: Address,
        token: Address,
        amount: i128,
        release_time: u64,
    },
    CreateChildEscrow {
        depositor: Address,
        beneficiary: Address,
        token: Address,
        amount: i128,
        release_time: u64,
        parent_id: u64,
        required_status: EscrowStatus,
    },
    Release { id: u64 },
    Refund { id: u64 },
    Dispute { id: u64 },
    TriggerChildren { parent_id: u64 },
    CreateCommitmentEscrow {
        depositor: Address,
        beneficiary: Address,
        token: Address,
        commitment: [u8; 32],
        release_time: u64,
    },
    RevealAndRelease { depositor: Address, id: u64, amount: i128, digest: Seq<u8> },
    RefundCommitmentEscrow { id: u64 },
}

impl InvocationView {
    /// What the call comes to.
    pub open spec fn apply(self, call: Call) -> Result<Self, Halt> {
        match call {
            Call::Initialize { admin } => self.initialize(admin),
            Call::CreateEscrow { depositor, beneficiary, token, amount, release_time } => {
                match self.create_escrow(depositor, beneficiary, token, amount, release_time) {
                    Ok((next, _)) => Ok(next),
                    Err(halt) => Err(halt),
                }
            },
            Call::CreateChildEscrow {
                depositor,
                beneficiary,
                token,
                amount,
                release_time,
                parent_id,
                required_status,
            } => {
                match self.create_child_escrow(
                    depositor,
                    beneficiary,
                    token,
                    amount,
                    release_time,
                    parent_id,
                    required_status,
                ) {
                    Ok((next, _)) => Ok(next),
                    Err(halt) => Err(halt),
                }
            },
            Call::Release { id } => self.release(id),
            Call::Refund { id } => self.refund(id),
            Call::Dispute { id } => self.dispute(id),
            Call::TriggerChildren { parent_id } => self.trigger_children(parent_id),
            Call::CreateCommitmentEscrow {
                depositor,
                beneficiary,
                token,
                commitment,
                release_time,
            } => {
                match self.create_commitment_escrow(
                    depositor,
                    beneficiary,
                    token,
                    commitment,
                    release_time,
                ) {
                    Ok((next, _)) => Ok(next),
                    Err(halt) => Err(halt),
                }
            },
            Call::RevealAndRelease { depositor, id, amount, digest } => self.open_commitment(
                depositor,
                id,
                amount,
                digest,
            ),
            Call::RefundCommitmentEscrow { id } => self.refund_commitment_escrow(id),
        }
    }

    /// The escrow `id`, if it is loaded and stored.
    pub open spec fn stored(self, id: u64) -> Option<crate::types::Escrow> {
        if self.escrows.contains_key(id) {
            self.escrows[id]
        } else {
            None
        }
    }

    /// The commitment escrow `id`, if it is loaded and stored.
    pub open spec fn stored_commitment(self, id: u64) -> Option<crate::types::CommitmentEscrow> {
        if self.commitments.contains_key(id) {
            self.commitments[id]
        } else {
            None
        }
    }

    /// The call creates no escrow under an id that is taken. Ids are taken from
    /// the counters, so only a counter that was set back can make this fail.
    pub open spec fn ids_free_for(self, call: Call) -> bool {
        match call {
            Call::CreateEscrow { .. } | Call::CreateChildEscrow { .. } => self.count() < u64::MAX
                ==> self.stored((self.count() + 1) as u64) is None,
            Call::CreateCommitmentEscrow { .. } => self.commitments_made() < u64::MAX
                ==> self.stored_commitment((self.commitments_made() + 1) as u64) is None,
            _ => true,
        }
    }
}

} // verus!
