//! When the calls on escrows succeed, and what they leave behind.

use vstd::prelude::*;

use crate::invocation::{EscrowError, Event, Halt, InvocationView};
use crate::laws::calls::Call;
use crate::laws::facts::{
    asks_for_unknown, law_calls_ask_for_what_is_missing, lemma_trigger_is_stable,
};
use crate::laws::lifecycle::lemma_cascade_only_releases;
use crate::model::waiting;
use crate::types::{
    Address, CommitmentEscrow, CommitmentEscrowStatus, Escrow, EscrowStatus,
    ParentStatusRequirement,
};

verus! {

/// A call succeeds only if the one whose call it is has authorized it. Creating
/// an escrow is its depositor's call, a release the depositor's, a dispute the
/// beneficiary's, a refund the administrator's; a reveal is the call of whoever
/// it names as depositor. Triggering the children needs nobody's authorization.
pub proof fn law_who_must_authorize(v: InvocationView, call: Call)
    requires
        v.apply(call) is Ok,
    ensures
        match call {
            Call::Initialize { admin } => v.authorized.contains(admin),
            Call::CreateEscrow { depositor, .. } => v.authorized.contains(depositor),
            Call::CreateChildEscrow { depositor, .. } => v.authorized.contains(depositor),
            Call::Release { id } => v.authorized.contains(v.escrows[id]->Some_0.depositor),
            Call::Refund { .. } => v.admin is Some && v.authorized.contains(v.admin->Some_0),
            Call::Dispute { id } => v.authorized.contains(v.escrows[id]->Some_0.beneficiary),
            Call::TriggerChildren { .. } => true,
            Call::CreateCommitmentEscrow { depositor, .. } => v.authorized.contains(depositor),
            Call::RevealAndRelease { depositor, .. } => v.authorized.contains(depositor),
            Call::RefundCommitmentEscrow { .. } => v.admin is Some && v.authorized.contains(
                v.admin->Some_0,
            ),
        },
{
}

/// The escrow may be released now: its depositor agrees, it is Active, its
/// release time has been reached, and its parent has the status that it requires.
pub open spec fn releasable(v: InvocationView, id: u64) -> bool {
    &&& v.stored(id) matches Some(escrow)
    &&& v.authorized.contains(escrow.depositor)
    &&& escrow.status == EscrowStatus::Active
    &&& escrow.release_time <= v.now
    &&& escrow.required_parent_status matches ParentStatusRequirement::Status(required) ==> (
    v.stored(escrow.parent_escrow_id) matches Some(parent) && parent.status == required)
}

/// A release succeeds only if the escrow may be released, and then leaves it
/// Released; and if it may be released, nothing stands in the way but entries
/// that are not loaded.
pub proof fn law_release_succeeds_exactly_when_due(v: InvocationView, id: u64)
    requires
        v.finite(),
    ensures
        v.release(id) is Ok ==> releasable(v, id),
        releasable(v, id) ==> match v.release(id) {
            Ok(_) => true,
            Err(halt) => halt is Load && asks_for_unknown(v, halt),
        },
        v.release(id) matches Ok(w) ==> w.stored(id) == Some(
            Escrow { status: EscrowStatus::Released, ..v.stored(id)->Some_0 },
        ),
{
    if releasable(v, id) {
        let start = v.pay_out(id);
        law_calls_ask_for_what_is_missing(v, Call::Release { id });
        lemma_trigger_is_stable(start, start, id, EscrowStatus::Released);
        if v.release(id) is Ok {
            lemma_cascade_only_releases(
                start,
                waiting(v.children[id], EscrowStatus::Released),
            );
            assert(start.escrows.contains_key(id));
        }
    }
}

/// A refund succeeds only if the escrow is Active or Disputed and the
/// administrator has authorized it, and then leaves it Refunded; and if so,
/// nothing stands in the way but entries that are not loaded.
pub proof fn law_refund_succeeds_exactly_when_due(v: InvocationView, id: u64)
    requires
        v.finite(),
    ensures
        v.refund(id) is Ok ==> refundable(v, id),
        refundable(v, id) ==> match v.refund(id) {
            Ok(_) => true,
            Err(halt) => halt is Load && asks_for_unknown(v, halt),
        },
        v.refund(id) matches Ok(w) ==> w.stored(id) == Some(
            Escrow { status: EscrowStatus::Refunded, ..v.stored(id)->Some_0 },
        ),
{
    if refundable(v, id) {
        let start = v.close(
            id,
            v.escrows[id]->Some_0.depositor,
            EscrowStatus::Refunded,
            Event::EscrowRefunded(id),
        );
        law_calls_ask_for_what_is_missing(v, Call::Refund { id });
        lemma_trigger_is_stable(start, start, id, EscrowStatus::Refunded);
        if v.refund(id) is Ok {
            lemma_cascade_only_releases(
                start,
                waiting(v.children[id], EscrowStatus::Refunded),
            );
            assert(start.escrows.contains_key(id));
        }
    }
}

/// The escrow may be refunded: it is Active or Disputed, and the administrator
/// agrees.
pub open spec fn refundable(v: InvocationView, id: u64) -> bool {
    &&& v.stored(id) matches Some(escrow)
    &&& escrow.status == EscrowStatus::Active || escrow.status == EscrowStatus::Disputed
    &&& v.admin matches Some(admin)
    &&& v.authorized.contains(admin)
}

/// A dispute succeeds exactly if the escrow is Active and its beneficiary has
/// authorized it. From then on the escrow cannot be released, but it can still be
/// refunded.
pub proof fn law_a_dispute_leaves_only_the_refund(v: InvocationView, id: u64)
    requires
        v.finite(),
    ensures
        v.dispute(id) is Ok <==> {
            &&& v.stored(id) matches Some(escrow)
            &&& escrow.status == EscrowStatus::Active
            &&& v.authorized.contains(escrow.beneficiary)
        },
        v.dispute(id) matches Ok(w) ==> {
            &&& w.stored(id) == Some(
                Escrow { status: EscrowStatus::Disputed, ..v.stored(id)->Some_0 },
            )
            &&& !(w.release(id) is Ok)
            &&& v.admin matches Some(admin) ==> v.authorized.contains(admin) ==> refundable(w, id)
        },
{
}

/// An escrow that is Released or Refunded is answered with a refusal whatever is
/// asked of it.
pub proof fn law_a_closed_escrow_refuses_everything(v: InvocationView, id: u64)
    requires
        v.stored(id) matches Some(escrow) && (escrow.status == EscrowStatus::Released
            || escrow.status == EscrowStatus::Refunded),
    ensures
        v.authorized.contains(v.stored(id)->Some_0.depositor) ==> v.release(id) == Err::<
            InvocationView,
            Halt,
        >(Halt::Reject(EscrowError::EscrowNotActive)),
        v.authorized.contains(v.stored(id)->Some_0.beneficiary) ==> v.dispute(id) == Err::<
            InvocationView,
            Halt,
        >(Halt::Reject(EscrowError::EscrowNotActive)),
        v.admin matches Some(admin) ==> v.authorized.contains(admin) ==> v.refund(id) == Err::<
            InvocationView,
            Halt,
        >(Halt::Reject(EscrowError::NotRefundable)),
        v.release(id) is Err,
        v.dispute(id) is Err,
        v.refund(id) is Err,
{
}

/// A root escrow can be read back as it was created, under the next id.
pub proof fn law_a_created_escrow_can_be_read(
    v: InvocationView,
    depositor: Address,
    beneficiary: Address,
    token: Address,
    amount: i128,
    release_time: u64,
)
    ensures
        v.create_escrow(depositor, beneficiary, token, amount, release_time) is Ok
            <==> v.authorized.contains(depositor) && amount > 0 && v.count() < u64::MAX,
        v.create_escrow(depositor, beneficiary, token, amount, release_time) matches Ok((w, id))
            ==> id == v.count() + 1 && w.count() == id && w.find_escrow(
            id,
            EscrowError::EscrowNotFound,
        ) == Ok::<Escrow, Halt>(
            Escrow {
                depositor,
                beneficiary,
                token,
                amount,
                status: EscrowStatus::Active,
                release_time,
                parent_escrow_id: 0,
                required_parent_status: ParentStatusRequirement::Unconstrained,
            },
        ),
{
}

/// A child escrow can be read back as it was created, under the next id, and is
/// the last in the list of its parent's children.
pub proof fn law_a_created_child_can_be_read(
    v: InvocationView,
    depositor: Address,
    beneficiary: Address,
    token: Address,
    amount: i128,
    release_time: u64,
    parent_id: u64,
    required_status: EscrowStatus,
)
    ensures
        v.create_child_escrow(
            depositor,
            beneficiary,
            token,
            amount,
            release_time,
            parent_id,
            required_status,
        ) matches Ok((w, id)) ==> id == v.count() + 1 && w.count() == id && w.find_escrow(
            id,
            EscrowError::EscrowNotFound,
        ) == Ok::<Escrow, Halt>(
            Escrow {
                depositor,
                beneficiary,
                token,
                amount,
                status: EscrowStatus::Active,
                release_time,
                parent_escrow_id: parent_id,
                required_parent_status: ParentStatusRequirement::Status(required_status),
            },
        ) && w.find_children(parent_id) == Ok::<Seq<u64>, Halt>(v.children[parent_id].push(id)),
{
}

/// A commitment escrow can be read back as it was created, under the next id.
pub proof fn law_a_created_commitment_can_be_read(
    v: InvocationView,
    depositor: Address,
    beneficiary: Address,
    token: Address,
    commitment: [u8; 32],
    release_time: u64,
)
    ensures
        v.create_commitment_escrow(depositor, beneficiary, token, commitment, release_time) is Ok
            <==> v.authorized.contains(depositor) && v.commitments_made() < u64::MAX,
        v.create_commitment_escrow(
            depositor,
            beneficiary,
            token,
            commitment,
            release_time,
        ) matches Ok((w, id)) ==> id == v.commitments_made() + 1 && w.commitments_made() == id
            && w.find_commitment(id) == Ok::<CommitmentEscrow, Halt>(
            CommitmentEscrow {
                depositor,
                beneficiary,
                token,
                commitment,
                status: CommitmentEscrowStatus::Active,
                release_time,
            },
        ),
{
}

} // verus!
