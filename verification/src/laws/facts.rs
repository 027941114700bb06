//! What an answer owes to the facts that were supplied.

use vstd::prelude::*;

use crate::invocation::{Event, Halt, InvocationView};
use crate::laws::calls::Call;
use crate::model::{waiting, Pending, MAX_HOPS};
use crate::types::{DataKey, EscrowStatus};

verus! {

/// Every entry of `a` is in `b`.
pub open spec fn part_of<V>(a: Map<u64, V>, b: Map<u64, V>) -> bool {
    forall|id: u64| #[trigger] a.contains_key(id) ==> b.contains_key(id) && b[id] == a[id]
}

/// `w` knows all that `v` knows, and maybe more.
pub open spec fn knows_all_of(v: InvocationView, w: InvocationView) -> bool {
    &&& w.now == v.now
    &&& w.admin == v.admin
    &&& w.escrow_count == v.escrow_count
    &&& w.commitment_count == v.commitment_count
    &&& part_of(v.escrows, w.escrows)
    &&& part_of(v.children, w.children)
    &&& part_of(v.commitments, w.commitments)
    &&& v.authorized.subset_of(w.authorized)
    &&& v.balance is Some ==> w.balance == v.balance
    &&& w.actions == v.actions
}

/// The entry under this key is loaded.
pub open spec fn loaded(v: InvocationView, key: DataKey) -> bool {
    match key {
        DataKey::Escrow(id) => v.escrows.contains_key(id),
        DataKey::ChildEscrows(id) => v.children.contains_key(id),
        DataKey::CommitmentEscrow(id) => v.commitments.contains_key(id),
        DataKey::EscrowCount | DataKey::Admin | DataKey::CommitmentEscrowCount => true,
    }
}

/// The call stopped for want of a fact that `v` does not know.
pub open spec fn asks_for_unknown(v: InvocationView, halt: Halt) -> bool {
    match halt {
        Halt::Load(key) => !loaded(v, key),
        Halt::Authorize(address) => !v.authorized.contains(address),
        Halt::Balance(token) => v.balance_of(token) is None,
        Halt::Reject(_) => false,
    }
}

/// A cascade that runs to its end does the same where more is known.
proof fn lemma_cascade_is_stable(v: InvocationView, w: InvocationView, pending: Seq<Pending>)
    requires
        v.finite(),
        w.finite(),
        knows_all_of(v, w),
        v.cascade(pending) is Ok,
    ensures
        w.cascade(pending) is Ok,
        knows_all_of(v.cascade(pending)->Ok_0, w.cascade(pending)->Ok_0),
    decreases v.active_ids().len(), pending.len(),
{
    if pending.len() > 0 {
        let child = pending.first();
        let rest = pending.drop_first();
        assert(w.escrows.contains_key(child.id) && w.escrows[child.id] == v.escrows[child.id]);
        if !v.is_due(child) {
            lemma_cascade_is_stable(v, w, rest);
        } else {
            assert(w.children.contains_key(child.id) && w.children[child.id]
                == v.children[child.id]);
            v.lemma_pay_out_ends_activity(child.id);
            w.lemma_pay_out_ends_activity(child.id);
            lemma_cascade_is_stable(
                v.pay_out(child.id),
                w.pay_out(child.id),
                waiting(v.children[child.id], EscrowStatus::Released) + rest,
            );
        }
    }
}

/// A cascade stops only for want of an entry.
proof fn lemma_cascade_only_loads(v: InvocationView, pending: Seq<Pending>)
    requires
        v.finite(),
    ensures
        v.cascade(pending) matches Err(halt) ==> halt is Load && asks_for_unknown(v, halt),
    decreases v.active_ids().len(), pending.len(),
{
    if pending.len() > 0 {
        let child = pending.first();
        let rest = pending.drop_first();
        if v.escrows.contains_key(child.id) {
            if !v.is_due(child) {
                lemma_cascade_only_loads(v, rest);
            } else if v.children.contains_key(child.id) {
                v.lemma_pay_out_ends_activity(child.id);
                lemma_cascade_only_loads(
                    v.pay_out(child.id),
                    waiting(v.children[child.id], EscrowStatus::Released) + rest,
                );
            }
        }
    }
}

/// The search for an ancestor finds the same where more is known, and stops only
/// for want of an entry.
proof fn lemma_search_is_stable(
    v: InvocationView,
    w: InvocationView,
    start_id: u64,
    ancestor_id: u64,
    hops: nat,
)
    requires
        part_of(v.escrows, w.escrows),
    ensures
        v.is_ancestor(start_id, ancestor_id, hops) is Ok ==> w.is_ancestor(
            start_id,
            ancestor_id,
            hops,
        ) == v.is_ancestor(start_id, ancestor_id, hops),
        v.is_ancestor(start_id, ancestor_id, hops) matches Err(halt) ==> halt is Load
            && asks_for_unknown(v, halt),
    decreases hops,
{
    if hops > 0 && v.escrows.contains_key(start_id) {
        assert(w.escrows.contains_key(start_id) && w.escrows[start_id] == v.escrows[start_id]);
        if v.escrows[start_id] is Some {
            lemma_search_is_stable(
                v,
                w,
                v.escrows[start_id]->Some_0.parent_escrow_id,
                ancestor_id,
                (hops - 1) as nat,
            );
        }
    }
}

/// Once a call is decided, more facts do not change the decision: a call that is
/// refused stays refused for the same reason, and one that succeeds still
/// succeeds, with the same actions and the same entries. So it is enough to load
/// what the calls ask for.
pub proof fn law_answers_are_stable(v: InvocationView, w: InvocationView, call: Call)
    requires
        v.finite(),
        w.finite(),
        knows_all_of(v, w),
    ensures
        match v.apply(call) {
            Ok(after) => w.apply(call) is Ok && knows_all_of(after, w.apply(call)->Ok_0),
            Err(Halt::Reject(error)) => w.apply(call) == Err::<InvocationView, Halt>(
                Halt::Reject(error),
            ),
            Err(_) => true,
        },
{
    match call {
        Call::CreateChildEscrow { parent_id, .. } => {
            if v.count() < u64::MAX {
                let id = (v.count() + 1) as u64;
                lemma_search_is_stable(
                    v.store_escrow_count(id),
                    w.store_escrow_count(id),
                    parent_id,
                    id,
                    MAX_HOPS as nat,
                );
            }
        },
        Call::Release { id } => {
            if v.stored(id) is Some {
                lemma_trigger_is_stable(v.pay_out(id), w.pay_out(id), id, EscrowStatus::Released);
            }
        },
        Call::Refund { id } => {
            if v.stored(id) is Some {
                let to = v.escrows[id]->Some_0.depositor;
                let event = Event::EscrowRefunded(id);
                lemma_trigger_is_stable(
                    v.close(id, to, EscrowStatus::Refunded, event),
                    w.close(id, to, EscrowStatus::Refunded, event),
                    id,
                    EscrowStatus::Refunded,
                );
            }
        },
        Call::TriggerChildren { parent_id } => {
            if v.stored(parent_id) is Some {
                lemma_trigger_is_stable(v, w, parent_id, v.escrows[parent_id]->Some_0.status);
            }
        },
        _ => {},
    }
}

/// A trigger does the same where more is known, and stops only for want of an
/// entry.
pub proof fn lemma_trigger_is_stable(
    v: InvocationView,
    w: InvocationView,
    parent_id: u64,
    status: EscrowStatus,
)
    requires
        v.finite(),
        w.finite(),
        knows_all_of(v, w),
    ensures
        match v.trigger(parent_id, status) {
            Ok(after) => w.trigger(parent_id, status) is Ok && knows_all_of(
                after,
                w.trigger(parent_id, status)->Ok_0,
            ),
            Err(halt) => halt is Load && asks_for_unknown(v, halt),
        },
{
    if v.children.contains_key(parent_id) {
        let pending = waiting(v.children[parent_id], status);
        assert(w.children.contains_key(parent_id) && w.children[parent_id]
            == v.children[parent_id]);
        lemma_cascade_only_loads(v, pending);
        if v.cascade(pending) is Ok {
            lemma_cascade_is_stable(v, w, pending);
        }
    }
}

/// A call asks only for facts that it does not have. So a call that is repeated
/// with what it asked for gets on.
pub proof fn law_calls_ask_for_what_is_missing(v: InvocationView, call: Call)
    requires
        v.finite(),
    ensures
        v.apply(call) matches Err(halt) ==> halt is Reject || asks_for_unknown(v, halt),
{
    match call {
        Call::CreateChildEscrow { parent_id, .. } => {
            if v.count() < u64::MAX {
                let id = (v.count() + 1) as u64;
                let counted = v.store_escrow_count(id);
                lemma_search_is_stable(counted, counted, parent_id, id, MAX_HOPS as nat);
            }
        },
        Call::Release { id } => {
            if v.stored(id) is Some {
                lemma_trigger_is_stable(v.pay_out(id), v.pay_out(id), id, EscrowStatus::Released);
            }
        },
        Call::Refund { id } => {
            if v.stored(id) is Some {
                let to = v.escrows[id]->Some_0.depositor;
                let event = Event::EscrowRefunded(id);
                let start = v.close(id, to, EscrowStatus::Refunded, event);
                lemma_trigger_is_stable(start, start, id, EscrowStatus::Refunded);
            }
        },
        Call::TriggerChildren { parent_id } => {
            if v.stored(parent_id) is Some {
                lemma_trigger_is_stable(v, v, parent_id, v.escrows[parent_id]->Some_0.status);
            }
        },
        _ => {},
    }
}

} // verus!
