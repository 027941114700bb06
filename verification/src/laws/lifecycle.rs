//! How escrows change over time.

use vstd::prelude::*;

use crate::invocation::{Event, InvocationView};
use crate::laws::calls::Call;
use crate::model::{waiting, Pending};
use crate::types::{CommitmentEscrow, CommitmentEscrowStatus, Escrow, EscrowStatus};

verus! {

/// The moves that an escrow's status can make: from Active to any other status,
/// and from Disputed to Refunded.
pub open spec fn may_become(from: EscrowStatus, to: EscrowStatus) -> bool {
    ||| from == to
    ||| from == EscrowStatus::Active
    ||| from == EscrowStatus::Disputed && to == EscrowStatus::Refunded
}

/// `later` is `earlier` with nothing changed but the status, which made
/// a permitted move.
pub open spec fn escrow_evolves(earlier: Escrow, later: Escrow) -> bool {
    &&& later == Escrow { status: later.status, ..earlier }
    &&& may_become(earlier.status, later.status)
}

/// `later` is `earlier` with nothing changed but the status, and that only if it
/// was Active.
pub open spec fn commitment_evolves(earlier: CommitmentEscrow, later: CommitmentEscrow) -> bool {
    &&& later == CommitmentEscrow { status: later.status, ..earlier }
    &&& earlier.status == later.status || earlier.status == CommitmentEscrowStatus::Active
}

/// What a cascade may do: release Active escrows whose release time has been
/// reached and which are gated on a parent, and nothing else.
pub open spec fn only_releases(v: InvocationView, w: InvocationView) -> bool {
    &&& w == InvocationView {
        escrows: w.escrows,
        balance: w.balance,
        actions: w.actions,
        ..v
    }
    &&& w.escrows.dom() == v.escrows.dom()
    &&& forall|id: u64| #[trigger]
        v.escrows.contains_key(id) ==> w.escrows[id] == v.escrows[id] || (v.is_active(id)
            && w.escrows[id] == Some(
            Escrow { status: EscrowStatus::Released, ..v.escrows[id]->Some_0 },
        ) && v.escrows[id]->Some_0.release_time <= v.now
            && v.escrows[id]->Some_0.required_parent_status is Status)
}

/// A cascade does nothing but release escrows that may be released.
pub proof fn lemma_cascade_only_releases(v: InvocationView, pending: Seq<Pending>)
    requires
        v.finite(),
        v.cascade(pending) is Ok,
    ensures
        only_releases(v, v.cascade(pending)->Ok_0),
    decreases v.active_ids().len(), pending.len(),
{
    if pending.len() > 0 {
        let child = pending.first();
        let rest = pending.drop_first();
        if !v.is_due(child) {
            lemma_cascade_only_releases(v, rest);
        } else {
            v.lemma_pay_out_ends_activity(child.id);
            let next = v.pay_out(child.id);
            assert(next.escrows.dom() =~= v.escrows.dom());
            assert(only_releases(v, next));
            lemma_cascade_only_releases(
                next,
                waiting(v.children[child.id], EscrowStatus::Released) + rest,
            );
        }
    }
}

/// Nothing of an escrow ever changes but its status; the status moves only from
/// Active to any other, or from Disputed to Refunded. In particular an escrow
/// that is Released or Refunded stays so, and a Disputed one is never released.
pub proof fn law_escrows_only_move_forward(v: InvocationView, call: Call)
    requires
        v.finite(),
        v.ids_free_for(call),
        v.apply(call) is Ok,
    ensures
        forall|id: u64| (#[trigger] v.stored(id)) matches Some(earlier) ==> {
            &&& v.apply(call)->Ok_0.stored(id) matches Some(later)
            &&& escrow_evolves(earlier, later)
        },
{
    lemma_call_cascades(v, call);
}

/// The state from which the call's cascade starts, where it has one.
spec fn cascade_start(v: InvocationView, call: Call) -> InvocationView {
    match call {
        Call::Release { id } => v.pay_out(id),
        Call::Refund { id } => v.close(
            id,
            v.escrows[id]->Some_0.depositor,
            EscrowStatus::Refunded,
            Event::EscrowRefunded(id),
        ),
        _ => v,
    }
}

/// A successful call that triggers children ends in a state that differs from
/// the one before the cascade only by releases.
proof fn lemma_call_cascades(v: InvocationView, call: Call)
    requires
        v.finite(),
        v.apply(call) is Ok,
    ensures
        call is Release || call is Refund || call is TriggerChildren ==> only_releases(
            cascade_start(v, call),
            v.apply(call)->Ok_0,
        ),
{
    match call {
        Call::Release { id } => {
            lemma_cascade_only_releases(
                v.pay_out(id),
                waiting(v.children[id], EscrowStatus::Released),
            );
        },
        Call::Refund { id } => {
            lemma_cascade_only_releases(
                cascade_start(v, call),
                waiting(v.children[id], EscrowStatus::Refunded),
            );
        },
        Call::TriggerChildren { parent_id } => {
            if v.escrows[parent_id] is Some {
                lemma_cascade_only_releases(
                    v,
                    waiting(
                        v.children[parent_id],
                        v.escrows[parent_id]->Some_0.status,
                    ),
                );
            }
        },
        _ => {},
    }
}

/// Nothing of a commitment escrow ever changes but its status, and that only
/// from Active. In particular one that is Revealed or Refunded stays so.
pub proof fn law_commitments_only_move_forward(v: InvocationView, call: Call)
    requires
        v.finite(),
        v.ids_free_for(call),
        v.apply(call) is Ok,
    ensures
        forall|id: u64| (#[trigger] v.stored_commitment(id)) matches Some(earlier) ==> {
            &&& v.apply(call)->Ok_0.stored_commitment(id) matches Some(later)
            &&& commitment_evolves(earlier, later)
        },
{
    lemma_call_cascades(v, call);
}

/// No escrow is released before its release time, by whatever call.
pub proof fn law_no_early_release(v: InvocationView, call: Call, id: u64)
    requires
        v.finite(),
        v.ids_free_for(call),
        v.apply(call) is Ok,
        v.stored(id) matches Some(escrow) && escrow.status == EscrowStatus::Active,
        v.apply(call)->Ok_0.stored(id) matches Some(escrow) && escrow.status
            == EscrowStatus::Released,
    ensures
        v.stored(id)->Some_0.release_time <= v.now,
        call is Release || call is Refund || call is TriggerChildren,
{
    lemma_call_cascades(v, call);
}

/// The calls on escrows leave the commitment escrows alone, and the calls on
/// commitment escrows leave the escrows alone.
pub proof fn law_books_are_separate(v: InvocationView, call: Call)
    requires
        v.finite(),
        v.apply(call) is Ok,
    ensures
        call is CreateCommitmentEscrow || call is RevealAndRelease || call
            is RefundCommitmentEscrow ==> {
            &&& v.apply(call)->Ok_0.escrows == v.escrows
            &&& v.apply(call)->Ok_0.children == v.children
            &&& v.apply(call)->Ok_0.escrow_count == v.escrow_count
        },
        !(call is CreateCommitmentEscrow || call is RevealAndRelease || call
            is RefundCommitmentEscrow) ==> {
            &&& v.apply(call)->Ok_0.commitments == v.commitments
            &&& v.apply(call)->Ok_0.commitment_count == v.commitment_count
        },
        !(call is Initialize) ==> v.apply(call)->Ok_0.admin == v.admin,
{
    lemma_call_cascades(v, call);
}

} // verus!
