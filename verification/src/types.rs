//! The records that the contract keeps and the keys it keeps them under.

use vstd::prelude::*;

verus! {

/// An account or a contract on the network, in the 56-character text form
/// ("strkey") in which addresses are written.
#[derive(Clone, Copy, Debug, Eq)]
pub struct Address(pub [u8; 56]);

impl PartialEq for Address {
    fn eq(&self, other: &Self) -> (same: bool) {
        let mut i: usize = 0;
        while i < 56
            invariant
                i <= 56,
                forall|j: int| 0 <= j < i ==> self.0@[j] == other.0@[j],
            decreases 56 - i,
        {
            if self.0[i] != other.0[i] {
                return false;
            }
            i += 1;
        }
        assert(self.0 =~= other.0);
        true
    }
}

impl vstd::std_specs::cmp::PartialEqSpecImpl for Address {
    open spec fn obeys_eq_spec() -> bool {
        true
    }

    open spec fn eq_spec(&self, other: &Self) -> bool {
        *self == *other
    }
}

/// Where an escrow stands.
#[derive(Clone, Copy, Debug, PartialEq, Eq, Structural)]
pub enum EscrowStatus {
    Active,
    Released,
    Refunded,
    Disputed,
}

/// Where a commitment escrow stands.
#[derive(Clone, Copy, Debug, PartialEq, Eq, Structural)]
pub enum CommitmentEscrowStatus {
    Active,
    Revealed,
    Refunded,
}

/// The optional gate on the parent's status.
/// `Unconstrained` means that there is no parent requirement (a root escrow).
#[derive(Clone, Copy, Debug, PartialEq, Eq, Structural)]
pub enum ParentStatusRequirement {
    Unconstrained,
    Status(EscrowStatus),
}

/// Funds that the contract holds for a depositor until they go to the
/// beneficiary or back.
#[derive(Clone, Copy, Debug, PartialEq, Eq)]
pub struct Escrow {
    pub depositor: Address,
    pub beneficiary: Address,
    pub token: Address,
    pub amount: i128,
    pub status: EscrowStatus,
    pub release_time: u64,
    /// The id of the parent escrow, or 0 if this is a root escrow.
    pub parent_escrow_id: u64,
    /// The status that the parent must have before this child can be released.
    pub required_parent_status: ParentStatusRequirement,
}

/// An escrow whose amount is hidden behind a commitment: the record holds the
/// SHA-256 digest of the amount and a blinding factor, and no amount.
#[derive(Clone, Copy, Debug, PartialEq, Eq)]
pub struct CommitmentEscrow {
    pub depositor: Address,
    pub beneficiary: Address,
    pub token: Address,
    /// SHA-256 of the amount followed by the blinding factor.
    pub commitment: [u8; 32],
    pub status: CommitmentEscrowStatus,
    pub release_time: u64,
}

/// The keys of the contract's storage.
#[derive(Clone, Copy, Debug, PartialEq, Eq, Structural)]
pub enum DataKey {
    Escrow(u64),
    EscrowCount,
    Admin,
    /// The ids of the child escrows of the given parent.
    ChildEscrows(u64),
    CommitmentEscrow(u64),
    CommitmentEscrowCount,
}

} // verus!
