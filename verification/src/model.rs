//! What each call of the contract comes to: the state after it, or the reason
//! why it stops.

use vstd::prelude::*;

use crate::invocation::{EscrowError, Event, Halt, Holder, InvocationView};
use crate::types::{
    Address, CommitmentEscrow, CommitmentEscrowStatus, DataKey, Escrow, EscrowStatus,
    ParentStatusRequirement,
};

verus! {

/// How many parents are looked at when a new child is checked for a cycle.
pub const MAX_HOPS: u32 = 64;

/// A child that is waiting to be looked at, and the status that its parent has.
#[derive(Clone, Copy, Debug, PartialEq, Eq, Structural)]
pub struct Pending {
    pub id: u64,
    pub parent_status: EscrowStatus,
}

/// The given children, waiting under a parent with the given status.
pub open spec fn waiting(ids: Seq<u64>, parent_status: EscrowStatus) -> Seq<Pending> {
    Seq::new(ids.len(), |i: int| Pending { id: ids[i], parent_status })
}

/// Looking up entries.
impl InvocationView {
    /// The escrow `id`; `missing` is the refusal where there is none.
    pub open spec fn find_escrow(self, id: u64, missing: EscrowError) -> Result<Escrow, Halt> {
        if !self.escrows.contains_key(id) {
            Err(Halt::Load(DataKey::Escrow(id)))
        } else {
            match self.escrows[id] {
                Some(escrow) => Ok(escrow),
                None => Err(Halt::Reject(missing)),
            }
        }
    }

    /// The commitment escrow `id`.
    pub open spec fn find_commitment(self, id: u64) -> Result<CommitmentEscrow, Halt> {
        if !self.commitments.contains_key(id) {
            Err(Halt::Load(DataKey::CommitmentEscrow(id)))
        } else {
            match self.commitments[id] {
                Some(escrow) => Ok(escrow),
                None => Err(Halt::Reject(EscrowError::CommitmentEscrowNotFound)),
            }
        }
    }

    /// The number of escrows created so far.
    pub open spec fn count(self) -> u64 {
        match self.escrow_count {
            Some(count) => count,
            None => 0,
        }
    }

    /// The number of commitment escrows created so far.
    pub open spec fn commitments_made(self) -> u64 {
        match self.commitment_count {
            Some(count) => count,
            None => 0,
        }
    }

    /// Whether the escrow `id` is loaded, stored and Active.
    pub open spec fn is_active(self, id: u64) -> bool {
        self.escrows.contains_key(id) && match self.escrows[id] {
            Some(escrow) => escrow.status == EscrowStatus::Active,
            None => false,
        }
    }

    pub open spec fn active_ids(self) -> Set<u64> {
        self.escrows.dom().filter(|id: u64| self.is_active(id))
    }
}

/// Escrows.
impl InvocationView {
    /// Whether `ancestor_id` is among the first `hops` parents of `start_id`.
    pub open spec fn is_ancestor(self, start_id: u64, ancestor_id: u64, hops: nat) -> Result<
        bool,
        Halt,
    >
        decreases hops,
    {
        if hops == 0 {
            Ok(false)
        } else if !self.escrows.contains_key(start_id) {
            Err(Halt::Load(DataKey::Escrow(start_id)))
        } else {
            match self.escrows[start_id] {
                None => Ok(false),
                Some(escrow) => if escrow.parent_escrow_id == 0 {
                    Ok(false)
                } else if escrow.parent_escrow_id == ancestor_id {
                    Ok(true)
                } else {
                    self.is_ancestor(escrow.parent_escrow_id, ancestor_id, (hops - 1) as nat)
                },
            }
        }
    }

    /// Whether the way up from `parent_id` meets `id`, so that a child `id` of
    /// `parent_id` would depend on itself: `parent_id` is `id`, or has it among
    /// its first parents.
    pub open spec fn closes_a_cycle(self, parent_id: u64, id: u64) -> Result<bool, Halt> {
        if parent_id == id {
            Ok(true)
        } else {
            self.is_ancestor(parent_id, id, MAX_HOPS as nat)
        }
    }

    /// Allocates the next escrow id.
    pub open spec fn next_id(self) -> Result<(Self, u64), Halt> {
        if self.count() == u64::MAX {
            Err(Halt::Reject(EscrowError::IdsExhausted))
        } else {
            let id = (self.count() + 1) as u64;
            Ok((self.store_escrow_count(id), id))
        }
    }

    pub open spec fn initialize(self, admin: Address) -> Result<Self, Halt> {
        if !self.authorized.contains(admin) {
            Err(Halt::Authorize(admin))
        } else {
            Ok(self.store_admin(admin).store_escrow_count(0))
        }
    }

    pub open spec fn create_escrow(
        self,
        depositor: Address,
        beneficiary: Address,
        token: Address,
        amount: i128,
        release_time: u64,
    ) -> Result<(Self, u64), Halt> {
        if !self.authorized.contains(depositor) {
            Err(Halt::Authorize(depositor))
        } else if amount <= 0 {
            Err(Halt::Reject(EscrowError::AmountNotPositive))
        } else {
            match self.transfer(token, Holder::Other(depositor), Holder::Contract, amount).next_id() {
                Err(halt) => Err(halt),
                Ok((paid, id)) => {
                    let escrow = Escrow {
                        depositor,
                        beneficiary,
                        token,
                        amount,
                        status: EscrowStatus::Active,
                        release_time,
                        parent_escrow_id: 0,
                        required_parent_status: ParentStatusRequirement::Unconstrained,
                    };
                    Ok((paid.store_escrow(id, escrow).publish(Event::EscrowCreated(id)), id))
                },
            }
        }
    }

    pub open spec fn create_child_escrow(
        self,
        depositor: Address,
        beneficiary: Address,
        token: Address,
        amount: i128,
        release_time: u64,
        parent_id: u64,
        required_status: EscrowStatus,
    ) -> Result<(Self, u64), Halt> {
        if !self.authorized.contains(depositor) {
            Err(Halt::Authorize(depositor))
        } else if amount <= 0 {
            Err(Halt::Reject(EscrowError::AmountNotPositive))
        } else {
            match self.find_escrow(parent_id, EscrowError::ParentNotFound) {
                Err(halt) => Err(halt),
                Ok(_) => match self.next_id() {
                    Err(halt) => Err(halt),
                    Ok((counted, id)) => match counted.closes_a_cycle(parent_id, id) {
                        Err(halt) => Err(halt),
                        Ok(true) => Err(Halt::Reject(EscrowError::CircularDependency)),
                        Ok(false) => if !self.children.contains_key(parent_id) {
                            Err(Halt::Load(DataKey::ChildEscrows(parent_id)))
                        } else {
                            let escrow = Escrow {
                                depositor,
                                beneficiary,
                                token,
                                amount,
                                status: EscrowStatus::Active,
                                release_time,
                                parent_escrow_id: parent_id,
                                required_parent_status: ParentStatusRequirement::Status(
                                    required_status,
                                ),
                            };
                            Ok(
                                (
                                    counted.transfer(
                                        token,
                                        Holder::Other(depositor),
                                        Holder::Contract,
                                        amount,
                                    ).store_escrow(id, escrow).store_child(parent_id, id).publish(
                                        Event::ChildEscrowCreated(id, parent_id),
                                    ),
                                    id,
                                ),
                            )
                        },
                    },
                },
            }
        }
    }

    /// Pays the whole amount of escrow `id` out to `to` and closes the escrow
    /// with the given status.
    pub open spec fn close(self, id: u64, to: Address, status: EscrowStatus, event: Event) -> Self {
        let escrow = self.escrows[id]->Some_0;
        self.transfer(escrow.token, Holder::Contract, Holder::Other(to), escrow.amount).store_escrow(
            id,
            Escrow { status, ..escrow },
        ).publish(event)
    }

    /// Pays escrow `id` out to its beneficiary.
    pub open spec fn pay_out(self, id: u64) -> Self {
        self.close(
            id,
            self.escrows[id]->Some_0.beneficiary,
            EscrowStatus::Released,
            Event::EscrowReleased(id),
        )
    }

    /// Whether a waiting child is released: it is Active, its parent has the
    /// status that it requires, and its release time has been reached.
    pub open spec fn is_due(self, child: Pending) -> bool {
        match self.escrows[child.id] {
            Some(escrow) => escrow.status == EscrowStatus::Active && escrow.required_parent_status
                == ParentStatusRequirement::Status(child.parent_status) && escrow.release_time
                <= self.now,
            None => false,
        }
    }

    /// Goes through the waiting children in order: pays out each one that is due,
    /// its own children coming next, ahead of the others that wait.
    pub open spec fn cascade(self, pending: Seq<Pending>) -> Result<Self, Halt>
        decreases self.active_ids().len(), pending.len(),
        when self.finite()
    {
        if pending.len() == 0 {
            Ok(self)
        } else {
            let child = pending.first();
            let rest = pending.drop_first();
            if !self.escrows.contains_key(child.id) {
                Err(Halt::Load(DataKey::Escrow(child.id)))
            } else if !self.is_due(child) {
                self.cascade(rest)
            } else if !self.children.contains_key(child.id) {
                Err(Halt::Load(DataKey::ChildEscrows(child.id)))
            } else {
                proof {
                    self.lemma_pay_out_ends_activity(child.id);
                }
                self.pay_out(child.id).cascade(
                    waiting(self.children[child.id], EscrowStatus::Released) + rest,
                )
            }
        }
    }

    /// Paying an Active escrow out leaves one Active escrow fewer.
    pub proof fn lemma_pay_out_ends_activity(self, id: u64)
        requires
            self.finite(),
            self.is_active(id),
        ensures
            self.pay_out(id).finite(),
            self.pay_out(id).active_ids() == self.active_ids().remove(id),
            self.active_ids().finite(),
            self.pay_out(id).active_ids().len() < self.active_ids().len(),
    {
        let after = self.pay_out(id);
        assert(after.escrows.dom() =~= self.escrows.dom());
        self.escrows.dom().lemma_len_filter(|i: u64| self.is_active(i));
        assert(after.active_ids() =~= self.active_ids().remove(id));
        assert(self.active_ids().contains(id));
    }

    /// Releases the due children of `parent_id`, whose status is `status`, and in
    /// turn theirs.
    pub open spec fn trigger(self, parent_id: u64, status: EscrowStatus) -> Result<Self, Halt> {
        if !self.children.contains_key(parent_id) {
            Err(Halt::Load(DataKey::ChildEscrows(parent_id)))
        } else {
            self.cascade(waiting(self.children[parent_id], status))
        }
    }

    pub open spec fn trigger_children(self, parent_id: u64) -> Result<Self, Halt> {
        if !self.escrows.contains_key(parent_id) {
            Err(Halt::Load(DataKey::Escrow(parent_id)))
        } else {
            match self.escrows[parent_id] {
                None => Ok(self),
                Some(parent) => self.trigger(parent_id, parent.status),
            }
        }
    }

    /// The parent's status lets `escrow` be released.
    pub open spec fn parent_allows(self, escrow: Escrow) -> Result<(), Halt> {
        match escrow.required_parent_status {
            ParentStatusRequirement::Unconstrained => Ok(()),
            ParentStatusRequirement::Status(required) => match self.find_escrow(
                escrow.parent_escrow_id,
                EscrowError::ParentNotFound,
            ) {
                Err(halt) => Err(halt),
                Ok(parent) => if parent.status != required {
                    Err(Halt::Reject(EscrowError::ParentStatusNotReached))
                } else {
                    Ok(())
                },
            },
        }
    }

    pub open spec fn release(self, escrow_id: u64) -> Result<Self, Halt> {
        match self.find_escrow(escrow_id, EscrowError::EscrowNotFound) {
            Err(halt) => Err(halt),
            Ok(escrow) => if !self.authorized.contains(escrow.depositor) {
                Err(Halt::Authorize(escrow.depositor))
            } else if escrow.status != EscrowStatus::Active {
                Err(Halt::Reject(EscrowError::EscrowNotActive))
            } else if self.now < escrow.release_time {
                Err(Halt::Reject(EscrowError::ReleaseTimeNotReached))
            } else {
                match self.parent_allows(escrow) {
                    Err(halt) => Err(halt),
                    Ok(_) => self.pay_out(escrow_id).trigger(escrow_id, EscrowStatus::Released),
                }
            },
        }
    }

    pub open spec fn refund(self, escrow_id: u64) -> Result<Self, Halt> {
        match self.find_escrow(escrow_id, EscrowError::EscrowNotFound) {
            Err(halt) => Err(halt),
            Ok(escrow) => match self.admin {
                None => Err(Halt::Reject(EscrowError::AdminNotSet)),
                Some(admin) => if !self.authorized.contains(admin) {
                    Err(Halt::Authorize(admin))
                } else if escrow.status != EscrowStatus::Active && escrow.status
                    != EscrowStatus::Disputed {
                    Err(Halt::Reject(EscrowError::NotRefundable))
                } else {
                    self.close(
                        escrow_id,
                        escrow.depositor,
                        EscrowStatus::Refunded,
                        Event::EscrowRefunded(escrow_id),
                    ).trigger(escrow_id, EscrowStatus::Refunded)
                },
            },
        }
    }

    pub open spec fn dispute(self, escrow_id: u64) -> Result<Self, Halt> {
        match self.find_escrow(escrow_id, EscrowError::EscrowNotFound) {
            Err(halt) => Err(halt),
            Ok(escrow) => if !self.authorized.contains(escrow.beneficiary) {
                Err(Halt::Authorize(escrow.beneficiary))
            } else if escrow.status != EscrowStatus::Active {
                Err(Halt::Reject(EscrowError::EscrowNotActive))
            } else {
                Ok(
                    self.store_escrow(
                        escrow_id,
                        Escrow { status: EscrowStatus::Disputed, ..escrow },
                    ).publish(Event::EscrowDisputed(escrow_id)),
                )
            },
        }
    }

    /// The child ids of `parent_id`.
    pub open spec fn find_children(self, parent_id: u64) -> Result<Seq<u64>, Halt> {
        if !self.children.contains_key(parent_id) {
            Err(Halt::Load(DataKey::ChildEscrows(parent_id)))
        } else {
            Ok(self.children[parent_id])
        }
    }
}

/// Commitment escrows.
impl InvocationView {
    /// Allocates the next commitment escrow id.
    pub open spec fn next_commitment_id(self) -> Result<(Self, u64), Halt> {
        if self.commitments_made() == u64::MAX {
            Err(Halt::Reject(EscrowError::IdsExhausted))
        } else {
            let id = (self.commitments_made() + 1) as u64;
            Ok((self.store_commitment_count(id), id))
        }
    }

    pub open spec fn create_commitment_escrow(
        self,
        depositor: Address,
        beneficiary: Address,
        token: Address,
        commitment: [u8; 32],
        release_time: u64,
    ) -> Result<(Self, u64), Halt> {
        if !self.authorized.contains(depositor) {
            Err(Halt::Authorize(depositor))
        } else {
            match self.next_commitment_id() {
                Err(halt) => Err(halt),
                Ok((counted, id)) => {
                    let escrow = CommitmentEscrow {
                        depositor,
                        beneficiary,
                        token,
                        commitment,
                        status: CommitmentEscrowStatus::Active,
                        release_time,
                    };
                    Ok(
                        (
                            counted.store_commitment(id, escrow).publish(
                                Event::CommitmentEscrowCreated(id),
                            ),
                            id,
                        ),
                    )
                },
            }
        }
    }

    /// Revealing `amount`, where `digest` is the digest of the amount and the
    /// blinding factor that are revealed with it.
    pub open spec fn open_commitment(
        self,
        depositor: Address,
        escrow_id: u64,
        amount: i128,
        digest: Seq<u8>,
    ) -> Result<Self, Halt> {
        if !self.authorized.contains(depositor) {
            Err(Halt::Authorize(depositor))
        } else {
            match self.find_commitment(escrow_id) {
                Err(halt) => Err(halt),
                Ok(escrow) => if amount <= 0 {
                    Err(Halt::Reject(EscrowError::AmountNotPositive))
                } else if escrow.status != CommitmentEscrowStatus::Active {
                    Err(Halt::Reject(EscrowError::CommitmentEscrowNotActive))
                } else if self.now < escrow.release_time {
                    Err(Halt::Reject(EscrowError::ReleaseTimeNotReached))
                } else if digest != escrow.commitment@ {
                    Err(Halt::Reject(EscrowError::CommitmentMismatch))
                } else {
                    match self.balance_of(escrow.token) {
                        None => Err(Halt::Balance(escrow.token)),
                        Some(balance) => if balance < amount {
                            Err(Halt::Reject(EscrowError::InsufficientBalance))
                        } else {
                            Ok(
                                self.transfer(
                                    escrow.token,
                                    Holder::Contract,
                                    Holder::Other(escrow.beneficiary),
                                    amount,
                                ).store_commitment(
                                    escrow_id,
                                    CommitmentEscrow {
                                        status: CommitmentEscrowStatus::Revealed,
                                        ..escrow
                                    },
                                ).publish(Event::CommitmentEscrowRevealed(escrow_id)),
                            )
                        },
                    }
                },
            }
        }
    }

    pub open spec fn refund_commitment_escrow(self, escrow_id: u64) -> Result<Self, Halt> {
        match self.find_commitment(escrow_id) {
            Err(halt) => Err(halt),
            Ok(escrow) => match self.admin {
                None => Err(Halt::Reject(EscrowError::AdminNotSet)),
                Some(admin) => if !self.authorized.contains(admin) {
                    Err(Halt::Authorize(admin))
                } else if escrow.status != CommitmentEscrowStatus::Active {
                    Err(Halt::Reject(EscrowError::CommitmentEscrowNotActive))
                } else {
                    match self.balance_of(escrow.token) {
                        None => Err(Halt::Balance(escrow.token)),
                        Some(balance) => {
                            let paid = if balance > 0 {
                                self.transfer(
                                    escrow.token,
                                    Holder::Contract,
                                    Holder::Other(escrow.depositor),
                                    balance,
                                )
                            } else {
                                self
                            };
                            Ok(
                                paid.store_commitment(
                                    escrow_id,
                                    CommitmentEscrow {
                                        status: CommitmentEscrowStatus::Refunded,
                                        ..escrow
                                    },
                                ).publish(Event::CommitmentEscrowRefunded(escrow_id)),
                            )
                        },
                    }
                },
            },
        }
    }
}

} // verus!
