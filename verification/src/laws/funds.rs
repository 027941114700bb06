//! Where the money is.

use vstd::prelude::*;

use crate::invocation::{Action, Event, Halt, Holder, InvocationView};
use crate::laws::calls::Call;
use crate::laws::cascade::newly_released;
use crate::laws::lifecycle::lemma_cascade_only_releases;
use crate::laws::structure::well_formed;
use crate::model::{waiting, Pending};
use crate::types::{Address, Escrow, EscrowStatus};

verus! {

/// The escrow has not been paid out yet.
pub open spec fn is_open(escrow: Escrow) -> bool {
    escrow.status == EscrowStatus::Active || escrow.status == EscrowStatus::Disputed
}

/// What the contract owes of `token` for this entry.
pub open spec fn owed(entry: Option<Escrow>, token: Address) -> int {
    match entry {
        Some(escrow) => if is_open(escrow) && escrow.token == token {
            escrow.amount as int
        } else {
            0
        },
        None => 0,
    }
}

/// What the contract owes of `token` for all the given entries.
pub open spec fn total_owed(escrows: Map<u64, Option<Escrow>>, token: Address) -> int
    decreases escrows.dom().len(),
    when escrows.dom().finite()
{
    if escrows.dom().len() == 0 {
        0
    } else {
        let id = escrows.dom().choose();
        owed(escrows[id], token) + total_owed(escrows.remove(id), token)
    }
}

/// What an action adds to the contract's holdings of `token`, or takes from them.
pub open spec fn flow(action: Action, token: Address) -> int {
    match action {
        Action::Transfer { token: moved, from, to, amount } => if moved != token {
            0
        } else {
            (if to == Holder::Contract { amount as int } else { 0 }) - (if from == Holder::Contract {
                amount as int
            } else {
                0
            })
        },
        _ => 0,
    }
}

/// What the actions together add to the contract's holdings of `token`.
pub open spec fn net_flow(actions: Seq<Action>, token: Address) -> int
    decreases actions.len(),
{
    if actions.len() == 0 {
        0
    } else {
        net_flow(actions.drop_last(), token) + flow(actions.last(), token)
    }
}

/// The total is what is owed for one entry and for the others.
proof fn lemma_total_without(escrows: Map<u64, Option<Escrow>>, token: Address, id: u64)
    requires
        escrows.dom().finite(),
        escrows.contains_key(id),
    ensures
        total_owed(escrows, token) == owed(escrows[id], token) + total_owed(
            escrows.remove(id),
            token,
        ),
    decreases escrows.dom().len(),
{
    let first = escrows.dom().choose();
    assert(escrows.dom().contains(id));
    assert(escrows.dom().len() > 0);
    if first != id {
        let rest = escrows.remove(first);
        lemma_total_without(rest, token, id);
        lemma_total_without(escrows.remove(id), token, first);
        assert(rest.remove(id) =~= escrows.remove(id).remove(first));
    }
}

/// How the total changes when one entry is written.
proof fn lemma_total_after_write(
    escrows: Map<u64, Option<Escrow>>,
    token: Address,
    id: u64,
    entry: Option<Escrow>,
)
    requires
        escrows.dom().finite(),
    ensures
        total_owed(escrows.insert(id, entry), token) == total_owed(escrows, token) + owed(
            entry,
            token,
        ) - (if escrows.contains_key(id) {
            owed(escrows[id], token)
        } else {
            0
        }),
{
    let after = escrows.insert(id, entry);
    lemma_total_without(after, token, id);
    if escrows.contains_key(id) {
        lemma_total_without(escrows, token, id);
        assert(after.remove(id) =~= escrows.remove(id));
    } else {
        assert(after.remove(id) =~= escrows);
    }
}

/// What the contract owes for escrows, less what its actions have brought in.
pub open spec fn uncovered(v: InvocationView, token: Address) -> int {
    total_owed(v.escrows, token) - net_flow(v.actions, token)
}

/// One more action.
proof fn lemma_flow_of_one_more(actions: Seq<Action>, action: Action, token: Address)
    ensures
        net_flow(actions.push(action), token) == net_flow(actions, token) + flow(action, token),
{
    assert(actions.push(action).drop_last() =~= actions);
}

/// Closing an open escrow pays out what was owed for it.
proof fn lemma_closing_balances(
    v: InvocationView,
    id: u64,
    to: Address,
    status: EscrowStatus,
    event: Event,
    token: Address,
)
    requires
        v.finite(),
        v.stored(id) matches Some(escrow) && is_open(escrow),
        status == EscrowStatus::Released || status == EscrowStatus::Refunded,
    ensures
        v.close(id, to, status, event).finite(),
        uncovered(v.close(id, to, status, event), token) == uncovered(v, token),
{
    let escrow = v.escrows[id]->Some_0;
    let paid = v.transfer(escrow.token, Holder::Contract, Holder::Other(to), escrow.amount);
    let stored = paid.store_escrow(id, Escrow { status, ..escrow });
    lemma_flow_of_one_more(v.actions, paid.actions.last(), token);
    lemma_flow_of_one_more(paid.actions, stored.actions.last(), token);
    lemma_flow_of_one_more(stored.actions, Action::Publish(event), token);
    lemma_total_after_write(v.escrows, token, id, Some(Escrow { status, ..escrow }));
}

/// A cascade pays out what was owed for the escrows that it releases.
proof fn lemma_cascade_balances(v: InvocationView, pending: Seq<Pending>, token: Address)
    requires
        v.finite(),
        v.cascade(pending) is Ok,
    ensures
        v.cascade(pending)->Ok_0.finite(),
        uncovered(v.cascade(pending)->Ok_0, token) == uncovered(v, token),
    decreases v.active_ids().len(), pending.len(),
{
    if pending.len() > 0 {
        let child = pending.first();
        let rest = pending.drop_first();
        if !v.is_due(child) {
            lemma_cascade_balances(v, rest, token);
        } else {
            v.lemma_pay_out_ends_activity(child.id);
            lemma_closing_balances(
                v,
                child.id,
                v.escrows[child.id]->Some_0.beneficiary,
                EscrowStatus::Released,
                Event::EscrowReleased(child.id),
                token,
            );
            lemma_cascade_balances(
                v.pay_out(child.id),
                waiting(v.children[child.id], EscrowStatus::Released) + rest,
                token,
            );
        }
    }
}

/// Creating an escrow brings in what is then owed for it.
proof fn lemma_creating_balances(v: InvocationView, call: Call, token: Address)
    requires
        v.finite(),
        v.ids_free_for(call),
        v.apply(call) is Ok,
        call is CreateEscrow || call is CreateChildEscrow,
    ensures
        v.apply(call)->Ok_0.finite(),
        uncovered(v.apply(call)->Ok_0, token) == uncovered(v, token),
{
    let w = v.apply(call)->Ok_0;
    let id = (v.count() + 1) as u64;
    let n = v.actions.len() as int;
    assert(v.stored(id) is None);
    lemma_total_after_write(v.escrows, token, id, w.escrows[id]);
    let one = v.actions.push(w.actions[n]);
    let two = one.push(w.actions[n + 1]);
    let three = two.push(w.actions[n + 2]);
    let four = three.push(w.actions[n + 3]);
    lemma_flow_of_one_more(v.actions, w.actions[n], token);
    lemma_flow_of_one_more(one, w.actions[n + 1], token);
    lemma_flow_of_one_more(two, w.actions[n + 2], token);
    lemma_flow_of_one_more(three, w.actions[n + 3], token);
    if call is CreateEscrow {
        assert(w.actions =~= four);
        assert(w.escrows =~= v.escrows.insert(id, w.escrows[id]));
    } else {
        lemma_flow_of_one_more(four, w.actions[n + 4], token);
        assert(w.actions =~= four.push(w.actions[n + 4]));
        assert(w.escrows =~= v.escrows.insert(id, w.escrows[id]));
    }
}

/// The call pays a commitment escrow out of whatever the contract holds of
/// `token`.
pub open spec fn draws_on(v: InvocationView, call: Call, token: Address) -> bool {
    match call {
        Call::RevealAndRelease { id, .. } => v.stored_commitment(id) matches Some(escrow)
            && escrow.token == token,
        Call::RefundCommitmentEscrow { id } => v.stored_commitment(id) matches Some(escrow)
            && escrow.token == token && (v.balance_of(token) matches Some(balance) && balance > 0),
        _ => false,
    }
}

/// The books balance: whatever call is made, what the contract owes for open
/// escrows changes by exactly what the call brings in or pays out, in every token.
/// The one exception is the token of a commitment escrow that the call pays out:
/// that draws on whatever the contract holds.
pub proof fn law_books_balance(v: InvocationView, call: Call, token: Address)
    requires
        v.finite(),
        v.ids_free_for(call),
        v.apply(call) is Ok,
        !draws_on(v, call, token),
    ensures
        total_owed(v.apply(call)->Ok_0.escrows, token) - total_owed(v.escrows, token) == net_flow(
            v.apply(call)->Ok_0.actions,
            token,
        ) - net_flow(v.actions, token),
{
    let w = v.apply(call)->Ok_0;
    let n = v.actions.len() as int;
    match call {
        Call::Initialize { .. } => {
            lemma_flow_of_one_more(v.actions, w.actions[n], token);
            lemma_flow_of_one_more(v.actions.push(w.actions[n]), w.actions[n + 1], token);
        },
        Call::CreateEscrow { .. } | Call::CreateChildEscrow { .. } => {
            lemma_creating_balances(v, call, token);
        },
        Call::Release { id } => {
            lemma_closing_balances(
                v,
                id,
                v.escrows[id]->Some_0.beneficiary,
                EscrowStatus::Released,
                Event::EscrowReleased(id),
                token,
            );
            lemma_cascade_balances(
                v.pay_out(id),
                waiting(v.children[id], EscrowStatus::Released),
                token,
            );
        },
        Call::Refund { id } => {
            let to = v.escrows[id]->Some_0.depositor;
            let event = Event::EscrowRefunded(id);
            lemma_closing_balances(v, id, to, EscrowStatus::Refunded, event, token);
            lemma_cascade_balances(
                v.close(id, to, EscrowStatus::Refunded, event),
                waiting(v.children[id], EscrowStatus::Refunded),
                token,
            );
        },
        Call::Dispute { id } => {
            lemma_flow_of_one_more(v.actions, w.actions[n], token);
            lemma_flow_of_one_more(v.actions.push(w.actions[n]), w.actions[n + 1], token);
            lemma_total_after_write(v.escrows, token, id, w.escrows[id]);
        },
        Call::TriggerChildren { parent_id } => {
            if v.escrows[parent_id] is Some {
                lemma_cascade_balances(
                    v,
                    waiting(
                        v.children[parent_id],
                        v.escrows[parent_id]->Some_0.status,
                    ),
                    token,
                );
            }
        },
        Call::CreateCommitmentEscrow { .. } => {
            let one = v.actions.push(w.actions[n]);
            let two = one.push(w.actions[n + 1]);
            lemma_flow_of_one_more(v.actions, w.actions[n], token);
            lemma_flow_of_one_more(one, w.actions[n + 1], token);
            lemma_flow_of_one_more(two, w.actions[n + 2], token);
        },
        Call::RevealAndRelease { .. } => {
            let one = v.actions.push(w.actions[n]);
            let two = one.push(w.actions[n + 1]);
            lemma_flow_of_one_more(v.actions, w.actions[n], token);
            lemma_flow_of_one_more(one, w.actions[n + 1], token);
            lemma_flow_of_one_more(two, w.actions[n + 2], token);
        },
        Call::RefundCommitmentEscrow { .. } => {
            let one = v.actions.push(w.actions[n]);
            let two = one.push(w.actions[n + 1]);
            lemma_flow_of_one_more(v.actions, w.actions[n], token);
            lemma_flow_of_one_more(one, w.actions[n + 1], token);
            if w.actions.len() == n + 3 {
                lemma_flow_of_one_more(two, w.actions[n + 2], token);
            }
        },
    }
}

/// The contract never owes a negative sum.
pub proof fn law_debts_are_not_negative(v: InvocationView, token: Address)
    requires
        v.finite(),
        well_formed(v),
    ensures
        total_owed(v.escrows, token) >= 0,
{
    lemma_sum_is_not_negative(v, v.escrows, token);
}

proof fn lemma_sum_is_not_negative(
    v: InvocationView,
    escrows: Map<u64, Option<Escrow>>,
    token: Address,
)
    requires
        well_formed(v),
        escrows.dom().finite(),
        forall|id: u64| #[trigger]
            escrows.contains_key(id) ==> v.escrows.contains_key(id) && escrows[id] == v.escrows[id],
    ensures
        total_owed(escrows, token) >= 0,
    decreases escrows.dom().len(),
{
    if escrows.dom().len() > 0 {
        let id = escrows.dom().choose();
        assert(escrows.contains_key(id));
        assert(v.stored(id) == escrows[id]);
        lemma_sum_is_not_negative(v, escrows.remove(id), token);
    }
}

/// The transfer of the whole amount of an escrow to `to`.
pub open spec fn payment(escrow: Escrow, to: Address) -> Action {
    Action::Transfer {
        token: escrow.token,
        from: Holder::Contract,
        to: Holder::Other(to),
        amount: escrow.amount,
    }
}

/// The call that led from `v` to `w` asked for this action.
pub open spec fn asked_for(v: InvocationView, w: InvocationView, action: Action) -> bool {
    exists|i: int| v.actions.len() <= i < w.actions.len() && #[trigger] w.actions[i] == action
}

/// The escrow `id` was open in `v` and is Refunded in `w`.
pub open spec fn newly_refunded(v: InvocationView, w: InvocationView, id: u64) -> bool {
    &&& v.stored(id) matches Some(escrow) && is_open(escrow)
    &&& w.stored(id) matches Some(escrow) && escrow.status == EscrowStatus::Refunded
}

/// The escrow `id` was released or refunded on the way from `v` to `w`, and the
/// action pays it out to the one who is entitled to it.
pub open spec fn pays_for(v: InvocationView, w: InvocationView, action: Action, id: u64) -> bool {
    let escrow = v.escrows[id]->Some_0;
    ||| newly_released(v, w, id) && action == payment(escrow, escrow.beneficiary)
    ||| newly_refunded(v, w, id) && action == payment(escrow, escrow.depositor)
}

/// The action pays out an escrow that was closed on the way from `v` to `w`.
pub open spec fn pays_for_closing(v: InvocationView, w: InvocationView, action: Action) -> bool {
    exists|id: u64| #[trigger] pays_for(v, w, action, id)
}

/// A cascade pays the beneficiary of each escrow that it releases, and pays
/// nothing else.
proof fn lemma_cascade_pays(v: InvocationView, pending: Seq<Pending>)
    requires
        v.finite(),
        v.cascade(pending) is Ok,
    ensures
        v.actions.is_prefix_of(v.cascade(pending)->Ok_0.actions),
        forall|id: u64| #[trigger]
            newly_released(v, v.cascade(pending)->Ok_0, id) ==> asked_for(
                v,
                v.cascade(pending)->Ok_0,
                payment(v.escrows[id]->Some_0, v.escrows[id]->Some_0.beneficiary),
            ),
        forall|i: int|
            v.actions.len() <= i < v.cascade(pending)->Ok_0.actions.len()
                && #[trigger] v.cascade(pending)->Ok_0.actions[i] is Transfer ==> pays_for_closing(
                v,
                v.cascade(pending)->Ok_0,
                v.cascade(pending)->Ok_0.actions[i],
            ),
    decreases v.active_ids().len(), pending.len(),
{
    lemma_cascade_only_releases(v, pending);
    if pending.len() > 0 {
        let child = pending.first();
        let rest = pending.drop_first();
        let w = v.cascade(pending)->Ok_0;
        if !v.is_due(child) {
            lemma_cascade_pays(v, rest);
        } else {
            v.lemma_pay_out_ends_activity(child.id);
            let next = v.pay_out(child.id);
            let then = waiting(v.children[child.id], EscrowStatus::Released) + rest;
            let escrow = v.escrows[child.id]->Some_0;
            let n = v.actions.len() as int;
            lemma_cascade_only_releases(next, then);
            lemma_cascade_pays(next, then);
            assert(next.actions[n] == payment(escrow, escrow.beneficiary));
            assert(w.actions[n] == next.actions[n]);
            assert(w.actions[n + 1] == next.actions[n + 1]);
            assert(w.actions[n + 2] == next.actions[n + 2]);
            assert(newly_released(v, w, child.id));
            assert forall|id: u64| #[trigger] newly_released(v, w, id) implies asked_for(
                v,
                w,
                payment(v.escrows[id]->Some_0, v.escrows[id]->Some_0.beneficiary),
            ) by {
                if id != child.id {
                    assert(newly_released(next, w, id));
                    let action = payment(
                        v.escrows[id]->Some_0,
                        v.escrows[id]->Some_0.beneficiary,
                    );
                    let i = choose|i: int|
                        next.actions.len() <= i < w.actions.len() && #[trigger] w.actions[i]
                            == action;
                    assert(w.actions[i] == action);
                }
            }
            assert forall|i: int|
                n <= i < w.actions.len() && #[trigger] w.actions[i] is Transfer implies pays_for_closing(
                v,
                w,
                w.actions[i],
            ) by {
                if i >= next.actions.len() {
                    assert(pays_for_closing(next, w, w.actions[i]));
                    let id = choose|id: u64| #[trigger] pays_for(next, w, w.actions[i], id);
                    assert(next.escrows.contains_key(id));
                    assert(pays_for(v, w, w.actions[i], id));
                } else {
                    assert(i == n);
                    assert(pays_for(v, w, w.actions[i], child.id));
                }
            }
        }
    }
}

/// Money leaves an escrow only when it is closed, and then all of it, to the one
/// who is entitled to it: whichever call releases an escrow pays its amount to
/// its beneficiary, whichever refunds one pays its amount back to its depositor,
/// and no call on existing escrows transfers anything else.
pub proof fn law_closing_pays_the_right_party(v: InvocationView, call: Call)
    requires
        v.finite(),
        v.apply(call) is Ok,
        call is Release || call is Refund || call is Dispute || call is TriggerChildren,
    ensures
        v.actions.is_prefix_of(v.apply(call)->Ok_0.actions),
        forall|id: u64| #[trigger]
            newly_released(v, v.apply(call)->Ok_0, id) ==> asked_for(
                v,
                v.apply(call)->Ok_0,
                payment(v.escrows[id]->Some_0, v.escrows[id]->Some_0.beneficiary),
            ),
        forall|id: u64| #[trigger]
            newly_refunded(v, v.apply(call)->Ok_0, id) ==> asked_for(
                v,
                v.apply(call)->Ok_0,
                payment(v.escrows[id]->Some_0, v.escrows[id]->Some_0.depositor),
            ),
        forall|i: int|
            v.actions.len() <= i < v.apply(call)->Ok_0.actions.len()
                && #[trigger] v.apply(call)->Ok_0.actions[i] is Transfer ==> pays_for_closing(
                v,
                v.apply(call)->Ok_0,
                v.apply(call)->Ok_0.actions[i],
            ),
{
    let w = v.apply(call)->Ok_0;
    match call {
        Call::Release { id } => {
            let escrow = v.escrows[id]->Some_0;
            lemma_first_payment(
                v,
                w,
                id,
                escrow.beneficiary,
                EscrowStatus::Released,
                Event::EscrowReleased(id),
            );
        },
        Call::Refund { id } => {
            let escrow = v.escrows[id]->Some_0;
            lemma_first_payment(
                v,
                w,
                id,
                escrow.depositor,
                EscrowStatus::Refunded,
                Event::EscrowRefunded(id),
            );
        },
        Call::TriggerChildren { parent_id } => {
            if v.escrows[parent_id] is Some {
                let pending = waiting(
                    v.children[parent_id],
                    v.escrows[parent_id]->Some_0.status,
                );
                lemma_cascade_only_releases(v, pending);
                lemma_cascade_pays(v, pending);
            }
        },
        _ => {},
    }
}

/// The same for a call that closes `id` and then triggers its children.
proof fn lemma_first_payment(
    v: InvocationView,
    w: InvocationView,
    id: u64,
    to: Address,
    status: EscrowStatus,
    event: Event,
)
    requires
        v.finite(),
        v.stored(id) matches Some(escrow) && is_open(escrow) && ((status == EscrowStatus::Released
            && escrow.status == EscrowStatus::Active && to == escrow.beneficiary) || (status
            == EscrowStatus::Refunded && to == escrow.depositor)),
        v.close(id, to, status, event).trigger(id, status) == Ok::<
            InvocationView,
            Halt,
        >(w),
    ensures
        v.actions.is_prefix_of(w.actions),
        forall|i: u64| #[trigger]
            newly_released(v, w, i) ==> asked_for(
                v,
                w,
                payment(v.escrows[i]->Some_0, v.escrows[i]->Some_0.beneficiary),
            ),
        forall|i: u64| #[trigger]
            newly_refunded(v, w, i) ==> asked_for(
                v,
                w,
                payment(v.escrows[i]->Some_0, v.escrows[i]->Some_0.depositor),
            ),
        forall|i: int|
            v.actions.len() <= i < w.actions.len() && #[trigger] w.actions[i] is Transfer
                ==> pays_for_closing(v, w, w.actions[i]),
{
    let start = v.close(id, to, status, event);
    let pending = waiting(v.children[id], status);
    let escrow = v.escrows[id]->Some_0;
    let n = v.actions.len() as int;
    lemma_cascade_only_releases(start, pending);
    lemma_cascade_pays(start, pending);
    assert(start.escrows.contains_key(id));
    assert(start.actions[n] == payment(escrow, to));
    assert(w.actions[n] == start.actions[n]);
    assert(w.actions[n + 1] == start.actions[n + 1]);
    assert(w.actions[n + 2] == start.actions[n + 2]);
    assert(newly_released(v, w, id) || newly_refunded(v, w, id));
    assert forall|i: u64| #[trigger] newly_released(v, w, i) implies asked_for(
        v,
        w,
        payment(v.escrows[i]->Some_0, v.escrows[i]->Some_0.beneficiary),
    ) by {
        if i != id {
            assert(newly_released(start, w, i));
            let action = payment(v.escrows[i]->Some_0, v.escrows[i]->Some_0.beneficiary);
            let k = choose|k: int|
                start.actions.len() <= k < w.actions.len() && #[trigger] w.actions[k] == action;
            assert(w.actions[k] == action);
        }
    }
    assert forall|i: u64| #[trigger] newly_refunded(v, w, i) implies asked_for(
        v,
        w,
        payment(v.escrows[i]->Some_0, v.escrows[i]->Some_0.depositor),
    ) by {
        assert(start.escrows.contains_key(i));
    }
    assert forall|i: int| n <= i < w.actions.len() && #[trigger] w.actions[i] is Transfer implies pays_for_closing(
        v,
        w,
        w.actions[i],
    ) by {
        if i >= start.actions.len() {
            assert(pays_for_closing(start, w, w.actions[i]));
            let k = choose|k: u64| #[trigger] pays_for(start, w, w.actions[i], k);
            assert(start.escrows.contains_key(k));
            assert(pays_for(v, w, w.actions[i], k));
        } else {
            assert(i == n);
            assert(pays_for(v, w, w.actions[i], id));
        }
    }
}

} // verus!
