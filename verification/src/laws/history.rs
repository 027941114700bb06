//! What holds after any number of calls.

use vstd::prelude::*;

use crate::invocation::{Event, InvocationView};
use crate::laws::calls::Call;
use crate::laws::funds::{draws_on, law_books_balance, net_flow, total_owed};
use crate::laws::lifecycle::{
    commitment_evolves, escrow_evolves, law_commitments_only_move_forward,
    law_escrows_only_move_forward, lemma_cascade_only_releases,
};
use crate::laws::structure::{
    is_child, law_calls_keep_well_formed, law_new_ids_are_free, list_in_order, well_formed,
};
use crate::model::waiting;
use crate::types::{Address, EscrowStatus};

verus! {

/// A call, with the time at which it is made, those who authorize it, and the
/// balance that the contract then has of some token, if that is asked for.
pub struct Step {
    pub now: u64,
    pub authorized: Set<Address>,
    pub balance: Option<(Address, i128)>,
    pub call: Call,
}

/// The state in which the call of a step is made.
pub open spec fn at_step(v: InvocationView, step: Step) -> InvocationView {
    InvocationView { now: step.now, authorized: step.authorized, balance: step.balance, ..v }
}

/// The state after one step: a call that does not succeed changes nothing.
pub open spec fn after_step(v: InvocationView, step: Step) -> InvocationView {
    match at_step(v, step).apply(step.call) {
        Ok(next) => next,
        Err(_) => v,
    }
}

/// The state after a history of steps.
pub open spec fn after_history(v: InvocationView, steps: Seq<Step>) -> InvocationView
    decreases steps.len(),
{
    if steps.len() == 0 {
        v
    } else {
        after_step(after_history(v, steps.drop_last()), steps.last())
    }
}

/// The contract is not initialized again once escrows have been created.
pub open spec fn ids_never_start_over(v: InvocationView, steps: Seq<Step>) -> bool {
    forall|i: int|
        0 <= i < steps.len() && (#[trigger] steps[i]).call is Initialize ==> after_history(
            v,
            steps.take(i),
        ).count() == 0
}

/// No commitment escrow is paid out of the contract's holdings of `token`.
pub open spec fn never_draws_on(v: InvocationView, steps: Seq<Step>, token: Address) -> bool {
    forall|i: int|
        0 <= i < steps.len() ==> !draws_on(
            at_step(after_history(v, steps.take(i)), #[trigger] steps[i]),
            steps[i].call,
            token,
        )
}

/// The call creates an escrow, be it a root or a child.
pub open spec fn is_creation(call: Call) -> bool {
    call is CreateEscrow || call is CreateChildEscrow
}

/// A call loads at most one entry more, and counts what it creates.
proof fn lemma_what_calls_count(v: InvocationView, call: Call)
    requires
        v.finite(),
        v.apply(call) is Ok,
    ensures
        v.apply(call)->Ok_0.finite(),
        v.apply(call)->Ok_0.count() == (if call is Initialize {
            0
        } else if is_creation(call) {
            v.count() + 1
        } else {
            v.count() as int
        }),
        v.apply(call)->Ok_0.commitments_made() == (if call is CreateCommitmentEscrow {
            v.commitments_made() + 1
        } else {
            v.commitments_made() as int
        }),
{
    match call {
        Call::Release { id } => {
            lemma_cascade_only_releases(
                v.pay_out(id),
                waiting(v.children[id], EscrowStatus::Released),
            );
        },
        Call::Refund { id } => {
            lemma_cascade_only_releases(
                v.close(
                    id,
                    v.escrows[id]->Some_0.depositor,
                    EscrowStatus::Refunded,
                    Event::EscrowRefunded(id),
                ),
                waiting(v.children[id], EscrowStatus::Refunded),
            );
        },
        Call::TriggerChildren { parent_id } => {
            if v.escrows[parent_id] is Some {
                lemma_cascade_only_releases(
                    v,
                    waiting(v.children[parent_id], v.escrows[parent_id]->Some_0.status),
                );
            }
        },
        _ => {},
    }
}

/// A history that never starts the ids over has a beginning that does not either,
/// and a last step that does not.
proof fn lemma_ids_before_the_last_step(v: InvocationView, steps: Seq<Step>)
    requires
        steps.len() > 0,
        ids_never_start_over(v, steps),
    ensures
        ids_never_start_over(v, steps.drop_last()),
        steps.last().call is Initialize ==> after_history(v, steps.drop_last()).count() == 0,
{
    let earlier = steps.drop_last();
    assert forall|i: int|
        0 <= i < earlier.len() && (#[trigger] earlier[i]).call is Initialize implies after_history(
        v,
        earlier.take(i),
    ).count() == 0 by {
        assert(steps[i] == earlier[i]);
        assert(steps.take(i) =~= earlier.take(i));
    }
    assert(steps[steps.len() - 1] == steps.last());
    assert(steps.take(steps.len() - 1) =~= earlier);
}

/// After any history of calls, at whatever times and by whomever: the entries are
/// still in order, and every escrow and every commitment escrow still has its
/// terms and has made only permitted moves. (The contract must not have been
/// initialized again after escrows were created.)
pub proof fn law_any_history(v: InvocationView, steps: Seq<Step>)
    requires
        v.finite(),
        well_formed(v),
        ids_never_start_over(v, steps),
    ensures
        after_history(v, steps).finite(),
        well_formed(after_history(v, steps)),
        forall|id: u64| (#[trigger] v.stored(id)) matches Some(earlier) ==> {
            &&& after_history(v, steps).stored(id) matches Some(later)
            &&& escrow_evolves(earlier, later)
        },
        forall|id: u64| (#[trigger] v.stored_commitment(id)) matches Some(earlier) ==> {
            &&& after_history(v, steps).stored_commitment(id) matches Some(later)
            &&& commitment_evolves(earlier, later)
        },
    decreases steps.len(),
{
    if steps.len() > 0 {
        let before = after_history(v, steps.drop_last());
        let step = steps.last();
        lemma_ids_before_the_last_step(v, steps);
        law_any_history(v, steps.drop_last());
        let u = at_step(before, step);
        lemma_same_entries(before, u);
        if u.apply(step.call) is Ok {
            let w = u.apply(step.call)->Ok_0;
            law_new_ids_are_free(u, step.call);
            lemma_what_calls_count(u, step.call);
            law_calls_keep_well_formed(u, step.call);
            law_escrows_only_move_forward(u, step.call);
            law_commitments_only_move_forward(u, step.call);
            assert forall|id: u64| (#[trigger] v.stored(id)) is Some implies w.stored(id) is Some
                && escrow_evolves(v.stored(id)->Some_0, w.stored(id)->Some_0) by {
                assert(before.stored(id) is Some);
                assert(u.stored(id) == before.stored(id));
            }
            assert forall|id: u64| (#[trigger] v.stored_commitment(id)) is Some implies w.stored_commitment(
                id,
            ) is Some && commitment_evolves(
                v.stored_commitment(id)->Some_0,
                w.stored_commitment(id)->Some_0,
            ) by {
                assert(before.stored_commitment(id) is Some);
                assert(u.stored_commitment(id) == before.stored_commitment(id));
            }
        }
    }
}

/// After any history of calls, what the contract owes for open escrows has changed
/// by exactly what the calls brought in less what they paid out, in every token
/// out of which no commitment escrow was paid.
pub proof fn law_any_history_balances(v: InvocationView, steps: Seq<Step>, token: Address)
    requires
        v.finite(),
        well_formed(v),
        ids_never_start_over(v, steps),
        never_draws_on(v, steps, token),
    ensures
        total_owed(after_history(v, steps).escrows, token) - total_owed(v.escrows, token)
            == net_flow(after_history(v, steps).actions, token) - net_flow(v.actions, token),
    decreases steps.len(),
{
    if steps.len() > 0 {
        let earlier = steps.drop_last();
        let before = after_history(v, earlier);
        let step = steps.last();
        lemma_ids_before_the_last_step(v, steps);
        assert forall|i: int| 0 <= i < earlier.len() implies !draws_on(
            at_step(after_history(v, earlier.take(i)), #[trigger] earlier[i]),
            earlier[i].call,
            token,
        ) by {
            assert(steps[i] == earlier[i]);
            assert(steps.take(i) =~= earlier.take(i));
        }
        law_any_history(v, earlier);
        law_any_history_balances(v, earlier, token);
        let u = at_step(before, step);
        lemma_same_entries(before, u);
        assert(steps[steps.len() - 1] == step);
        assert(steps.take(steps.len() - 1) =~= earlier);
        if u.apply(step.call) is Ok {
            law_new_ids_are_free(u, step.call);
            law_books_balance(u, step.call, token);
        }
    }
}

/// The id of the escrow that the step creates, if it creates one.
pub open spec fn id_given(v: InvocationView, step: Step) -> Option<u64> {
    match step.call {
        Call::CreateEscrow { depositor, beneficiary, token, amount, release_time } => {
            match at_step(v, step).create_escrow(
                depositor,
                beneficiary,
                token,
                amount,
                release_time,
            ) {
                Ok((_, id)) => Some(id),
                Err(_) => None,
            }
        },
        Call::CreateChildEscrow {
            depositor,
            beneficiary,
            token,
            amount,
            release_time,
            parent_id,
            required_status,
        } => {
            match at_step(v, step).create_child_escrow(
                depositor,
                beneficiary,
                token,
                amount,
                release_time,
                parent_id,
                required_status,
            ) {
                Ok((_, id)) => Some(id),
                Err(_) => None,
            }
        },
        _ => None,
    }
}

/// The step initializes the contract.
pub open spec fn starts_ids_over(v: InvocationView, step: Step) -> bool {
    step.call is Initialize && at_step(v, step).apply(step.call) is Ok
}

/// The ids of the escrows that a history creates, in order: those since the ids
/// last started over.
pub open spec fn ids_given(v: InvocationView, steps: Seq<Step>) -> Seq<u64>
    decreases steps.len(),
{
    if steps.len() == 0 {
        Seq::empty()
    } else {
        let earlier = ids_given(v, steps.drop_last());
        let before = after_history(v, steps.drop_last());
        if starts_ids_over(before, steps.last()) {
            Seq::empty()
        } else {
            match id_given(before, steps.last()) {
                Some(id) => earlier.push(id),
                None => earlier,
            }
        }
    }
}

/// The number of escrows that were there when the ids last started over: none, or
/// those from before the history, if they never did in it.
pub open spec fn ids_given_before(v: InvocationView, steps: Seq<Step>) -> u64
    decreases steps.len(),
{
    if steps.len() == 0 {
        v.count()
    } else if starts_ids_over(after_history(v, steps.drop_last()), steps.last()) {
        0
    } else {
        ids_given_before(v, steps.drop_last())
    }
}

/// A history loads at most one entry more per step.
proof fn lemma_histories_stay_finite(v: InvocationView, steps: Seq<Step>)
    requires
        v.finite(),
    ensures
        after_history(v, steps).finite(),
    decreases steps.len(),
{
    if steps.len() > 0 {
        lemma_histories_stay_finite(v, steps.drop_last());
        let u = at_step(after_history(v, steps.drop_last()), steps.last());
        if u.apply(steps.last().call) is Ok {
            lemma_what_calls_count(u, steps.last().call);
        }
    }
}

/// The count is the number of escrows created since the ids last started over, and
/// their ids are consecutive, roots and children alike. After an `initialize` they
/// run from 1; in a history without one they go on from the count before it.
pub proof fn law_ids_are_consecutive(v: InvocationView, steps: Seq<Step>)
    requires
        v.finite(),
    ensures
        after_history(v, steps).count() == ids_given_before(v, steps) + ids_given(v, steps).len(),
        forall|i: int|
            0 <= i < ids_given(v, steps).len() ==> #[trigger] ids_given(v, steps)[i]
                == ids_given_before(v, steps) + 1 + i,
        (forall|i: int| 0 <= i < steps.len() ==> !((#[trigger] steps[i]).call is Initialize))
            ==> ids_given_before(v, steps) == v.count(),
    decreases steps.len(),
{
    if steps.len() > 0 {
        let earlier = steps.drop_last();
        let before = after_history(v, earlier);
        let step = steps.last();
        let u = at_step(before, step);
        lemma_histories_stay_finite(v, earlier);
        law_ids_are_consecutive(v, earlier);
        if u.apply(step.call) is Ok {
            lemma_what_calls_count(u, step.call);
        }
        if forall|i: int| 0 <= i < steps.len() ==> !((#[trigger] steps[i]).call is Initialize) {
            assert(!(steps[steps.len() - 1].call is Initialize));
            assert forall|i: int| 0 <= i < earlier.len() implies !((
            #[trigger] earlier[i]).call is Initialize) by {
                assert(steps[i] == earlier[i]);
            }
        }
    }
}

/// The id of the commitment escrow that the step creates, if it creates one.
pub open spec fn commitment_id_given(v: InvocationView, step: Step) -> Option<u64> {
    match step.call {
        Call::CreateCommitmentEscrow {
            depositor,
            beneficiary,
            token,
            commitment,
            release_time,
        } => {
            match at_step(v, step).create_commitment_escrow(
                depositor,
                beneficiary,
                token,
                commitment,
                release_time,
            ) {
                Ok((_, id)) => Some(id),
                Err(_) => None,
            }
        },
        _ => None,
    }
}

/// The ids of the commitment escrows that a history creates, in order.
pub open spec fn commitment_ids_given(v: InvocationView, steps: Seq<Step>) -> Seq<u64>
    decreases steps.len(),
{
    if steps.len() == 0 {
        Seq::empty()
    } else {
        let earlier = commitment_ids_given(v, steps.drop_last());
        match commitment_id_given(after_history(v, steps.drop_last()), steps.last()) {
            Some(id) => earlier.push(id),
            None => earlier,
        }
    }
}

/// The number of commitment escrows grows by one with each that is created, and
/// their ids are consecutive; they never start over.
pub proof fn law_commitment_ids_are_consecutive(v: InvocationView, steps: Seq<Step>)
    requires
        v.finite(),
    ensures
        after_history(v, steps).commitments_made() == v.commitments_made() + commitment_ids_given(
            v,
            steps,
        ).len(),
        forall|i: int|
            0 <= i < commitment_ids_given(v, steps).len() ==> #[trigger] commitment_ids_given(
                v,
                steps,
            )[i] == v.commitments_made() + 1 + i,
    decreases steps.len(),
{
    if steps.len() > 0 {
        let step = steps.last();
        let u = at_step(after_history(v, steps.drop_last()), step);
        lemma_histories_stay_finite(v, steps.drop_last());
        law_commitment_ids_are_consecutive(v, steps.drop_last());
        if u.apply(step.call) is Ok {
            lemma_what_calls_count(u, step.call);
        }
    }
}

/// Time, authorizations and balances do not bear on whether the entries are in
/// order.
proof fn lemma_same_entries(v: InvocationView, u: InvocationView)
    requires
        well_formed(v),
        u == (InvocationView { now: u.now, authorized: u.authorized, balance: u.balance, ..v }),
    ensures
        well_formed(u),
{
    assert forall|id: u64| #[trigger] u.stored(id) == v.stored(id) by {}
    assert forall|id: u64| #[trigger] u.stored_commitment(id) == v.stored_commitment(id) by {}
    assert forall|parent_id: u64, id: u64|
        #![trigger u.children[parent_id].contains(id)]
        u.children.contains_key(parent_id) && u.children[parent_id].contains(id)
            && u.escrows.contains_key(id) implies is_child(u, parent_id, id) by {
        assert(v.children[parent_id].contains(id));
        assert(v.stored(id) == u.stored(id));
    }
    assert forall|parent_id: u64| #[trigger] u.children.contains_key(parent_id) implies list_in_order(
        u,
        parent_id,
    ) by {
        assert(v.children.contains_key(parent_id));
    }
}

} // verus!
