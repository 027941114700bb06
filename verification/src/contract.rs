//! The calls of the escrow contract.
//!
//! Every call either is decided in the caller's favour, in which case the
//! invocation holds the new entries and the actions to perform, or stops, in
//! which case the invocation is as it was. [`crate::model`] says which.

use soroban_sdk::Env;
use vstd::prelude::*;

use crate::commitment::{commitment_to, preimage, same_bytes, sha256_digest};
use crate::invocation::{EscrowError, Event, Halt, Holder, Invocation};
use crate::model::{waiting, Pending, MAX_HOPS};
use crate::types::{
    Address, CommitmentEscrow, CommitmentEscrowStatus, DataKey, Escrow, EscrowStatus,
    ParentStatusRequirement,
};

verus! {

/// An escrow contract with parent-gated escrows and commitment escrows.
pub struct EscrowContract;

impl EscrowContract {
    /// Pays escrow `id` out to its beneficiary.
    fn pay_out(inv: &mut Invocation, id: u64, escrow: Escrow)
        requires
            old(inv)@.escrows.contains_key(id),
            old(inv)@.escrows[id] == Some(escrow),
        ensures
            final(inv)@ == old(inv)@.pay_out(id),
    {
        inv.transfer(
            escrow.token,
            Holder::Contract,
            Holder::Other(escrow.beneficiary),
            escrow.amount,
        );
        inv.store_escrow(id, Escrow { status: EscrowStatus::Released, ..escrow });
        inv.publish(Event::EscrowReleased(id));
    }

    /// Puts the children of `parent_id` on top of the stack, the first child
    /// topmost.
    fn push_children(
        inv: &Invocation,
        stack: &mut Vec<Pending>,
        parent_id: u64,
        status: EscrowStatus,
    ) -> (found: Result<(), Halt>)
        ensures
            match inv@.find_children(parent_id) {
                Ok(ids) => found is Ok && final(stack)@.reverse() == waiting(ids, status) + old(
                    stack,
                )@.reverse(),
                Err(halt) => found == Err::<(), Halt>(halt),
            },
    {
        match inv.children(parent_id) {
            None => Err(Halt::Load(DataKey::ChildEscrows(parent_id))),
            Some(ids) => {
                let ghost below = stack@;
                let mut left: usize = ids.len();
                while left > 0
                    invariant
                        left <= ids@.len(),
                        stack@ =~= below + waiting(ids@.skip(left as int), status).reverse(),
                    decreases left,
                {
                    left -= 1;
                    stack.push(Pending { id: ids[left], parent_status: status });
                }
                assert(ids@.skip(0) =~= ids@);
                assert(stack@.reverse() =~= waiting(ids@, status) + below.reverse());
                Ok(())
            },
        }
    }

    /// Releases the due children of `parent_id`, whose status is `status`, and in
    /// turn theirs. Where it stops, some of them may have been released.
    fn trigger(inv: &mut Invocation, parent_id: u64, status: EscrowStatus) -> (done: Result<
        (),
        Halt,
    >)
        ensures
            match old(inv)@.trigger(parent_id, status) {
                Ok(next) => done is Ok && final(inv)@ == next,
                Err(halt) => done == Err::<(), Halt>(halt),
            },
    {
        proof {
            inv.lemma_finite();
        }
        let ghost goal = inv@.trigger(parent_id, status);
        let mut stack: Vec<Pending> = Vec::new();
        let found = Self::push_children(inv, &mut stack, parent_id, status);
        if found.is_err() {
            return found;
        }
        assert(stack@.reverse() =~= waiting(inv@.children[parent_id], status));
        while stack.len() > 0
            invariant
                inv@.finite(),
                inv@.cascade(stack@.reverse()) == goal,
                goal == old(inv)@.trigger(parent_id, status),
            decreases inv@.active_ids().len(), stack@.len(),
        {
            let ghost pending = stack@.reverse();
            let ghost before = inv@;
            let child = match stack.pop() {
                Some(child) => child,
                None => {
                    return Ok(());
                },
            };
            assert(pending.first() == child);
            assert(pending.drop_first() =~= stack@.reverse());
            let escrow = match inv.escrow(child.id) {
                None => {
                    return Err(Halt::Load(DataKey::Escrow(child.id)));
                },
                Some(None) => {
                    continue ;
                },
                Some(Some(escrow)) => escrow,
            };
            if escrow.status != EscrowStatus::Active {
                continue ;
            }
            let required = match escrow.required_parent_status {
                ParentStatusRequirement::Unconstrained => {
                    continue ;
                },
                ParentStatusRequirement::Status(required) => required,
            };
            if required != child.parent_status {
                continue ;
            }
            if inv.now() < escrow.release_time {
                continue ;
            }
            let found = Self::push_children(inv, &mut stack, child.id, EscrowStatus::Released);
            if found.is_err() {
                return found;
            }
            proof {
                before.lemma_pay_out_ends_activity(child.id);
            }
            Self::pay_out(inv, child.id, escrow);
        }
        assert(stack@.reverse() =~= Seq::<Pending>::empty());
        Ok(())
    }

    /// Auto-releases all Active children of `parent_id` whose required parent
    /// status is the parent's current status and whose release time has been
    /// reached. Children of children follow.
    pub fn trigger_children(inv: &mut Invocation, parent_id: u64) -> (done: Result<(), Halt>)
        ensures
            match old(inv)@.trigger_children(parent_id) {
                Ok(next) => done is Ok && final(inv)@ == next,
                Err(halt) => done == Err::<(), Halt>(halt) && final(inv)@ == old(inv)@,
            },
    {
        let parent = match inv.escrow(parent_id) {
            None => {
                return Err(Halt::Load(DataKey::Escrow(parent_id)));
            },
            Some(None) => {
                return Ok(());
            },
            Some(Some(parent)) => parent,
        };
        let mut next = inv.fork();
        let done = Self::trigger(&mut next, parent_id, parent.status);
        if done.is_ok() {
            *inv = next;
        }
        done
    }

    /// The escrow `id`; `missing` is the refusal where there is none.
    fn find_escrow(inv: &Invocation, id: u64, missing: EscrowError) -> (found: Result<Escrow, Halt>)
        ensures
            found == inv@.find_escrow(id, missing),
    {
        match inv.escrow(id) {
            None => Err(Halt::Load(DataKey::Escrow(id))),
            Some(None) => Err(Halt::Reject(missing)),
            Some(Some(escrow)) => Ok(escrow),
        }
    }

    /// Whether `ancestor_id` appears in the chain of parents above `start_id`,
    /// which is not itself part of it. Looks at 64 parents at most, to guard
    /// against cycles already in storage.
    pub fn is_ancestor(inv: &Invocation, start_id: u64, ancestor_id: u64) -> (found: Result<
        bool,
        Halt,
    >)
        ensures
            found == inv@.is_ancestor(start_id, ancestor_id, MAX_HOPS as nat),
    {
        let mut current: u64 = start_id;
        let mut left: u32 = MAX_HOPS;
        while left > 0
            invariant
                inv@.is_ancestor(start_id, ancestor_id, MAX_HOPS as nat) == inv@.is_ancestor(
                    current,
                    ancestor_id,
                    left as nat,
                ),
            decreases left,
        {
            let escrow = match inv.escrow(current) {
                None => {
                    return Err(Halt::Load(DataKey::Escrow(current)));
                },
                Some(None) => {
                    return Ok(false);
                },
                Some(Some(escrow)) => escrow,
            };
            if escrow.parent_escrow_id == 0 {
                return Ok(false);
            }
            if escrow.parent_escrow_id == ancestor_id {
                return Ok(true);
            }
            current = escrow.parent_escrow_id;
            left -= 1;
        }
        Ok(false)
    }

    /// Whether a child `id` of `parent_id` would depend on itself: walks up from
    /// `parent_id`, counted in, and looks for `id`.
    fn closes_a_cycle(inv: &Invocation, parent_id: u64, id: u64) -> (found: Result<bool, Halt>)
        ensures
            found == inv@.closes_a_cycle(parent_id, id),
    {
        if parent_id == id {
            return Ok(true);
        }
        Self::is_ancestor(inv, parent_id, id)
    }

    /// Allocates and returns the next escrow id.
    pub fn next_id(inv: &mut Invocation) -> (id: Result<u64, Halt>)
        ensures
            match old(inv)@.next_id() {
                Ok((next, new_id)) => id == Ok::<u64, Halt>(new_id) && final(inv)@ == next,
                Err(halt) => id == Err::<u64, Halt>(halt) && final(inv)@ == old(inv)@,
            },
    {
        let count = Self::get_count(inv);
        if count == u64::MAX {
            return Err(Halt::Reject(EscrowError::IdsExhausted));
        }
        let id: u64 = count + 1;
        inv.store_escrow_count(id);
        Ok(id)
    }

    /// The number of escrows created so far.
    pub fn get_count(inv: &Invocation) -> (count: u64)
        ensures
            count == inv@.count(),
    {
        match inv.escrow_count() {
            Some(count) => count,
            None => 0,
        }
    }

    /// Creates a child escrow that is gated on its parent having
    /// `required_status`. One that would be its own parent, or that the way up
    /// from its parent leads back to, is refused.
    pub fn create_child_escrow(
        inv: &mut Invocation,
        depositor: Address,
        beneficiary: Address,
        token: Address,
        amount: i128,
        release_time: u64,
        parent_id: u64,
        required_status: EscrowStatus,
    ) -> (created: Result<u64, Halt>)
        ensures
            match old(inv)@.create_child_escrow(
                depositor,
                beneficiary,
                token,
                amount,
                release_time,
                parent_id,
                required_status,
            ) {
                Ok((next, id)) => created == Ok::<u64, Halt>(id) && final(inv)@ == next,
                Err(halt) => created == Err::<u64, Halt>(halt) && final(inv)@ == old(inv)@,
            },
    {
        if !inv.is_authorized(&depositor) {
            return Err(Halt::Authorize(depositor));
        }
        if amount <= 0 {
            return Err(Halt::Reject(EscrowError::AmountNotPositive));
        }
        match Self::find_escrow(inv, parent_id, EscrowError::ParentNotFound) {
            Err(halt) => {
                return Err(halt);
            },
            Ok(_) => {},
        }
        // The id is allocated first, so that the check for a cycle can run against it.
        let mut next = inv.fork();
        let escrow_id = match Self::next_id(&mut next) {
            Err(halt) => {
                return Err(halt);
            },
            Ok(id) => id,
        };
        match Self::closes_a_cycle(&next, parent_id, escrow_id) {
            Err(halt) => {
                return Err(halt);
            },
            Ok(circular) => {
                if circular {
                    return Err(Halt::Reject(EscrowError::CircularDependency));
                }
            },
        }
        if next.children(parent_id).is_none() {
            return Err(Halt::Load(DataKey::ChildEscrows(parent_id)));
        }
        next.transfer(token, Holder::Other(depositor), Holder::Contract, amount);
        next.store_escrow(
            escrow_id,
            Escrow {
                depositor,
                beneficiary,
                token,
                amount,
                status: EscrowStatus::Active,
                release_time,
                parent_escrow_id: parent_id,
                required_parent_status: ParentStatusRequirement::Status(required_status),
            },
        );
        next.store_child(parent_id, escrow_id);
        next.publish(Event::ChildEscrowCreated(escrow_id, parent_id));
        *inv = next;
        Ok(escrow_id)
    }

    /// Creates a root escrow, with no parent dependency.
    pub fn create_escrow(
        inv: &mut Invocation,
        depositor: Address,
        beneficiary: Address,
        token: Address,
        amount: i128,
        release_time: u64,
    ) -> (created: Result<u64, Halt>)
        ensures
            match old(inv)@.create_escrow(depositor, beneficiary, token, amount, release_time) {
                Ok((next, id)) => created == Ok::<u64, Halt>(id) && final(inv)@ == next,
                Err(halt) => created == Err::<u64, Halt>(halt) && final(inv)@ == old(inv)@,
            },
    {
        if !inv.is_authorized(&depositor) {
            return Err(Halt::Authorize(depositor));
        }
        if amount <= 0 {
            return Err(Halt::Reject(EscrowError::AmountNotPositive));
        }
        let mut next = inv.fork();
        next.transfer(token, Holder::Other(depositor), Holder::Contract, amount);
        let escrow_id = match Self::next_id(&mut next) {
            Err(halt) => {
                return Err(halt);
            },
            Ok(id) => id,
        };
        next.store_escrow(
            escrow_id,
            Escrow {
                depositor,
                beneficiary,
                token,
                amount,
                status: EscrowStatus::Active,
                release_time,
                parent_escrow_id: 0,
                required_parent_status: ParentStatusRequirement::Unconstrained,
            },
        );
        next.publish(Event::EscrowCreated(escrow_id));
        *inv = next;
        Ok(escrow_id)
    }

    /// Whether the status of its parent lets `escrow` be released.
    fn parent_allows(inv: &Invocation, escrow: &Escrow) -> (allowed: Result<(), Halt>)
        ensures
            allowed == inv@.parent_allows(*escrow),
    {
        match escrow.required_parent_status {
            ParentStatusRequirement::Unconstrained => Ok(()),
            ParentStatusRequirement::Status(required) => {
                match Self::find_escrow(
                    inv,
                    escrow.parent_escrow_id,
                    EscrowError::ParentNotFound,
                ) {
                    Err(halt) => Err(halt),
                    Ok(parent) => if parent.status != required {
                        Err(Halt::Reject(EscrowError::ParentStatusNotReached))
                    } else {
                        Ok(())
                    },
                }
            },
        }
    }

    /// Releases the funds to the beneficiary, once the depositor has authorized
    /// it, the release time has been reached and, for a child escrow, the parent
    /// has the required status. Then triggers the children.
    pub fn release(inv: &mut Invocation, escrow_id: u64) -> (done: Result<(), Halt>)
        ensures
            match old(inv)@.release(escrow_id) {
                Ok(next) => done is Ok && final(inv)@ == next,
                Err(halt) => done == Err::<(), Halt>(halt) && final(inv)@ == old(inv)@,
            },
    {
        let escrow = match Self::find_escrow(inv, escrow_id, EscrowError::EscrowNotFound) {
            Err(halt) => {
                return Err(halt);
            },
            Ok(escrow) => escrow,
        };
        if !inv.is_authorized(&escrow.depositor) {
            return Err(Halt::Authorize(escrow.depositor));
        }
        if escrow.status != EscrowStatus::Active {
            return Err(Halt::Reject(EscrowError::EscrowNotActive));
        }
        if inv.now() < escrow.release_time {
            return Err(Halt::Reject(EscrowError::ReleaseTimeNotReached));
        }
        let allowed = Self::parent_allows(inv, &escrow);
        if allowed.is_err() {
            return allowed;
        }
        let mut next = inv.fork();
        Self::pay_out(&mut next, escrow_id, escrow);
        let done = Self::trigger(&mut next, escrow_id, EscrowStatus::Released);
        if done.is_ok() {
            *inv = next;
        }
        done
    }

    /// Refunds the depositor of an Active or Disputed escrow; for the
    /// administrator only. Then triggers the children that wait for the parent to
    /// be Refunded.
    pub fn refund(inv: &mut Invocation, escrow_id: u64) -> (done: Result<(), Halt>)
        ensures
            match old(inv)@.refund(escrow_id) {
                Ok(next) => done is Ok && final(inv)@ == next,
                Err(halt) => done == Err::<(), Halt>(halt) && final(inv)@ == old(inv)@,
            },
    {
        let escrow = match Self::find_escrow(inv, escrow_id, EscrowError::EscrowNotFound) {
            Err(halt) => {
                return Err(halt);
            },
            Ok(escrow) => escrow,
        };
        let admin = match inv.admin() {
            None => {
                return Err(Halt::Reject(EscrowError::AdminNotSet));
            },
            Some(admin) => admin,
        };
        if !inv.is_authorized(&admin) {
            return Err(Halt::Authorize(admin));
        }
        if escrow.status != EscrowStatus::Active && escrow.status != EscrowStatus::Disputed {
            return Err(Halt::Reject(EscrowError::NotRefundable));
        }
        let mut next = inv.fork();
        next.transfer(
            escrow.token,
            Holder::Contract,
            Holder::Other(escrow.depositor),
            escrow.amount,
        );
        next.store_escrow(escrow_id, Escrow { status: EscrowStatus::Refunded, ..escrow });
        next.publish(Event::EscrowRefunded(escrow_id));
        let done = Self::trigger(&mut next, escrow_id, EscrowStatus::Refunded);
        if done.is_ok() {
            *inv = next;
        }
        done
    }

    /// Raises a dispute; for the beneficiary only.
    pub fn dispute(inv: &mut Invocation, escrow_id: u64) -> (done: Result<(), Halt>)
        ensures
            match old(inv)@.dispute(escrow_id) {
                Ok(next) => done is Ok && final(inv)@ == next,
                Err(halt) => done == Err::<(), Halt>(halt) && final(inv)@ == old(inv)@,
            },
    {
        let escrow = match Self::find_escrow(inv, escrow_id, EscrowError::EscrowNotFound) {
            Err(halt) => {
                return Err(halt);
            },
            Ok(escrow) => escrow,
        };
        if !inv.is_authorized(&escrow.beneficiary) {
            return Err(Halt::Authorize(escrow.beneficiary));
        }
        if escrow.status != EscrowStatus::Active {
            return Err(Halt::Reject(EscrowError::EscrowNotActive));
        }
        inv.store_escrow(escrow_id, Escrow { status: EscrowStatus::Disputed, ..escrow });
        inv.publish(Event::EscrowDisputed(escrow_id));
        Ok(())
    }

    /// Sets the administrator and starts the escrow ids over.
    pub fn initialize(inv: &mut Invocation, admin: Address) -> (done: Result<(), Halt>)
        ensures
            match old(inv)@.initialize(admin) {
                Ok(next) => done is Ok && final(inv)@ == next,
                Err(halt) => done == Err::<(), Halt>(halt) && final(inv)@ == old(inv)@,
            },
    {
        if !inv.is_authorized(&admin) {
            return Err(Halt::Authorize(admin));
        }
        inv.store_admin(admin);
        inv.store_escrow_count(0);
        Ok(())
    }

    /// The escrow `escrow_id`.
    pub fn get_escrow(inv: &Invocation, escrow_id: u64) -> (found: Result<Escrow, Halt>)
        ensures
            found == inv@.find_escrow(escrow_id, EscrowError::EscrowNotFound),
    {
        Self::find_escrow(inv, escrow_id, EscrowError::EscrowNotFound)
    }

    /// The ids of the children of `parent_id`, oldest first.
    pub fn get_child_escrows(inv: &Invocation, parent_id: u64) -> (found: Result<Vec<u64>, Halt>)
        ensures
            match inv@.find_children(parent_id) {
                Ok(ids) => found matches Ok(list) && list@ == ids,
                Err(halt) => found == Err::<Vec<u64>, Halt>(halt),
            },
    {
        match inv.children(parent_id) {
            None => Err(Halt::Load(DataKey::ChildEscrows(parent_id))),
            Some(ids) => {
                let list = ids.clone();
                assert(list@ =~= ids@);
                Ok(list)
            },
        }
    }

    /// The commitment escrow `escrow_id`.
    pub fn get_commitment_escrow(inv: &Invocation, escrow_id: u64) -> (found: Result<
        CommitmentEscrow,
        Halt,
    >)
        ensures
            found == inv@.find_commitment(escrow_id),
    {
        match inv.commitment_escrow(escrow_id) {
            None => Err(Halt::Load(DataKey::CommitmentEscrow(escrow_id))),
            Some(None) => Err(Halt::Reject(EscrowError::CommitmentEscrowNotFound)),
            Some(Some(escrow)) => Ok(escrow),
        }
    }

    /// Allocates and returns the next commitment escrow id.
    pub fn next_commitment_id(inv: &mut Invocation) -> (id: Result<u64, Halt>)
        ensures
            match old(inv)@.next_commitment_id() {
                Ok((next, new_id)) => id == Ok::<u64, Halt>(new_id) && final(inv)@ == next,
                Err(halt) => id == Err::<u64, Halt>(halt) && final(inv)@ == old(inv)@,
            },
    {
        let count: u64 = match inv.commitment_count() {
            Some(count) => count,
            None => 0,
        };
        if count == u64::MAX {
            return Err(Halt::Reject(EscrowError::IdsExhausted));
        }
        let id: u64 = count + 1;
        inv.store_commitment_count(id);
        Ok(id)
    }

    /// Creates an escrow whose amount stays hidden behind `commitment`. The
    /// depositor transfers the funds to the contract separately.
    pub fn create_commitment_escrow(
        inv: &mut Invocation,
        depositor: Address,
        beneficiary: Address,
        token: Address,
        commitment: [u8; 32],
        release_time: u64,
    ) -> (created: Result<u64, Halt>)
        ensures
            match old(inv)@.create_commitment_escrow(
                depositor,
                beneficiary,
                token,
                commitment,
                release_time,
            ) {
                Ok((next, id)) => created == Ok::<u64, Halt>(id) && final(inv)@ == next,
                Err(halt) => created == Err::<u64, Halt>(halt) && final(inv)@ == old(inv)@,
            },
    {
        if !inv.is_authorized(&depositor) {
            return Err(Halt::Authorize(depositor));
        }
        let escrow_id = match Self::next_commitment_id(inv) {
            Err(halt) => {
                return Err(halt);
            },
            Ok(id) => id,
        };
        inv.store_commitment(
            escrow_id,
            CommitmentEscrow {
                depositor,
                beneficiary,
                token,
                commitment,
                status: CommitmentEscrowStatus::Active,
                release_time,
            },
        );
        inv.publish(Event::CommitmentEscrowCreated(escrow_id));
        Ok(escrow_id)
    }

    /// Releases `amount` to the beneficiary, where `digest` is the digest of the
    /// amount and the blinding factor that were revealed.
    pub fn release_opened(
        inv: &mut Invocation,
        depositor: Address,
        escrow_id: u64,
        amount: i128,
        digest: &[u8; 32],
    ) -> (done: Result<(), Halt>)
        ensures
            match old(inv)@.open_commitment(depositor, escrow_id, amount, digest@) {
                Ok(next) => done is Ok && final(inv)@ == next,
                Err(halt) => done == Err::<(), Halt>(halt) && final(inv)@ == old(inv)@,
            },
    {
        if !inv.is_authorized(&depositor) {
            return Err(Halt::Authorize(depositor));
        }
        let escrow = match Self::get_commitment_escrow(inv, escrow_id) {
            Err(halt) => {
                return Err(halt);
            },
            Ok(escrow) => escrow,
        };
        if amount <= 0 {
            return Err(Halt::Reject(EscrowError::AmountNotPositive));
        }
        if escrow.status != CommitmentEscrowStatus::Active {
            return Err(Halt::Reject(EscrowError::CommitmentEscrowNotActive));
        }
        if inv.now() < escrow.release_time {
            return Err(Halt::Reject(EscrowError::ReleaseTimeNotReached));
        }
        if !same_bytes(digest, &escrow.commitment) {
            return Err(Halt::Reject(EscrowError::CommitmentMismatch));
        }
        match inv.balance_of(&escrow.token) {
            None => {
                return Err(Halt::Balance(escrow.token));
            },
            Some(balance) => {
                if balance < amount {
                    return Err(Halt::Reject(EscrowError::InsufficientBalance));
                }
            },
        }
        inv.transfer(
            escrow.token,
            Holder::Contract,
            Holder::Other(escrow.beneficiary),
            amount,
        );
        inv.store_commitment(
            escrow_id,
            CommitmentEscrow { status: CommitmentEscrowStatus::Revealed, ..escrow },
        );
        inv.publish(Event::CommitmentEscrowRevealed(escrow_id));
        Ok(())
    }

    /// Reveals the amount and the blinding factor of a commitment escrow and
    /// releases the amount to the beneficiary, if they match the commitment.
    /// The funds must already be with the contract.
    pub fn reveal_and_release(
        env: &Env,
        inv: &mut Invocation,
        depositor: Address,
        escrow_id: u64,
        amount: i128,
        blinding_factor: [u8; 32],
    ) -> (done: Result<(), Halt>)
        ensures
            match old(inv)@.open_commitment(
                depositor,
                escrow_id,
                amount,
                commitment_to(amount as int, blinding_factor@),
            ) {
                Ok(next) => done is Ok && final(inv)@ == next,
                Err(halt) => done == Err::<(), Halt>(halt) && final(inv)@ == old(inv)@,
            },
    {
        let digest = Self::compute_commitment(env, amount, blinding_factor);
        Self::release_opened(inv, depositor, escrow_id, amount, &digest)
    }

    /// The commitment to an amount: the SHA-256 digest of the amount, as 16
    /// bytes, most significant first, followed by the blinding factor.
    pub fn compute_commitment(env: &Env, amount: i128, blinding_factor: [u8; 32]) -> (digest: [u8;
        32])
        ensures
            digest@ == commitment_to(amount as int, blinding_factor@),
    {
        sha256_digest(env, &preimage(amount, &blinding_factor))
    }

    /// Refunds an Active commitment escrow; for the administrator only. The
    /// depositor gets all that the contract holds of the escrow's token.
    pub fn refund_commitment_escrow(inv: &mut Invocation, escrow_id: u64) -> (done: Result<
        (),
        Halt,
    >)
        ensures
            match old(inv)@.refund_commitment_escrow(escrow_id) {
                Ok(next) => done is Ok && final(inv)@ == next,
                Err(halt) => done == Err::<(), Halt>(halt) && final(inv)@ == old(inv)@,
            },
    {
        let escrow = match Self::get_commitment_escrow(inv, escrow_id) {
            Err(halt) => {
                return Err(halt);
            },
            Ok(escrow) => escrow,
        };
        let admin = match inv.admin() {
            None => {
                return Err(Halt::Reject(EscrowError::AdminNotSet));
            },
            Some(admin) => admin,
        };
        if !inv.is_authorized(&admin) {
            return Err(Halt::Authorize(admin));
        }
        if escrow.status != CommitmentEscrowStatus::Active {
            return Err(Halt::Reject(EscrowError::CommitmentEscrowNotActive));
        }
        let balance = match inv.balance_of(&escrow.token) {
            None => {
                return Err(Halt::Balance(escrow.token));
            },
            Some(balance) => balance,
        };
        if balance > 0 {
            inv.transfer(
                escrow.token,
                Holder::Contract,
                Holder::Other(escrow.depositor),
                balance,
            );
        }
        inv.store_commitment(
            escrow_id,
            CommitmentEscrow { status: CommitmentEscrowStatus::Refunded, ..escrow },
        );
        inv.publish(Event::CommitmentEscrowRefunded(escrow_id));
        Ok(())
    }
}

} // verus!
