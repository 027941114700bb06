//! In which order a trigger releases escrows, and what it does for each.

use vstd::prelude::*;

use crate::invocation::{Action, Event, Halt, Holder, InvocationView};
use crate::laws::cascade::is_ready;
use crate::model::{waiting, Pending};
use crate::types::{DataKey, Escrow, EscrowStatus};

verus! {

/// What is done for an escrow that is released: its amount is paid, in its token,
/// from the contract to its beneficiary; its entry is written; the release is
/// announced.
pub open spec fn release_of(id: u64, escrow: Escrow) -> Seq<Action> {
    seq![
        Action::Transfer {
            token: escrow.token,
            from: Holder::Contract,
            to: Holder::Other(escrow.beneficiary),
            amount: escrow.amount,
        },
        Action::Store(DataKey::Escrow(id)),
        Action::Publish(Event::EscrowReleased(id)),
    ]
}

/// What is done for escrows that are released one after the other.
pub open spec fn releases_of(v: InvocationView, order: Seq<u64>) -> Seq<Action>
    decreases order.len(),
{
    if order.len() == 0 {
        Seq::empty()
    } else {
        releases_of(v, order.drop_last()) + release_of(
            order.last(),
            v.escrows[order.last()]->Some_0,
        )
    }
}

/// `w` is `v` after the escrows in `order` have been released, one after the other
/// and each once, and nothing else has happened.
pub open spec fn after_releasing(v: InvocationView, order: Seq<u64>, w: InvocationView) -> bool {
    &&& order.no_duplicates()
    &&& forall|id: u64| #[trigger]
        order.contains(id) ==> v.escrows.contains_key(id) && (v.escrows[id] matches Some(escrow)
            && escrow.status == EscrowStatus::Active)
    &&& w == (InvocationView {
        escrows: w.escrows,
        balance: if order.len() == 0 {
            v.balance
        } else {
            None
        },
        actions: v.actions + releases_of(v, order),
        ..v
    })
    &&& w.escrows.dom() == v.escrows.dom()
    &&& forall|id: u64| #[trigger]
        v.escrows.contains_key(id) ==> w.escrows[id] == (if order.contains(id) {
            Some(Escrow { status: EscrowStatus::Released, ..v.escrows[id]->Some_0 })
        } else {
            v.escrows[id]
        })
}

/// The order in which the given children of a parent with the given status go with
/// it, after those in `done`: oldest first, each followed at once by its own
/// children, as far down as `depth` generations.
pub open spec fn going_along(
    v: InvocationView,
    done: Seq<u64>,
    ids: Seq<u64>,
    status: EscrowStatus,
    depth: nat,
) -> Seq<u64>
    decreases depth, ids.len(),
{
    if depth == 0 || ids.len() == 0 {
        done
    } else {
        let before = going_along(v, done, ids.drop_last(), status, depth);
        let id = ids.last();
        if is_ready(v, id, status) && !before.contains(id) {
            going_along(
                v,
                before.push(id),
                v.children[id],
                EscrowStatus::Released,
                (depth - 1) as nat,
            )
        } else {
            before
        }
    }
}

/// A cascade over two lists is a cascade over the first and then one over the
/// second.
proof fn lemma_cascade_splits(v: InvocationView, first: Seq<Pending>, second: Seq<Pending>)
    requires
        v.finite(),
    ensures
        v.cascade(first + second) == match v.cascade(first) {
            Ok(w) => w.cascade(second),
            Err(halt) => Err::<InvocationView, Halt>(halt),
        },
    decreases v.active_ids().len(), first.len(),
{
    if first.len() == 0 {
        assert(first + second =~= second);
    } else {
        let child = first.first();
        let rest = first.drop_first();
        assert((first + second).drop_first() =~= rest + second);
        if v.escrows.contains_key(child.id) {
            if !v.is_due(child) {
                lemma_cascade_splits(v, rest, second);
            } else if v.children.contains_key(child.id) {
                v.lemma_pay_out_ends_activity(child.id);
                let kids = waiting(v.children[child.id], EscrowStatus::Released);
                assert(kids + (rest + second) =~= (kids + rest) + second);
                lemma_cascade_splits(v.pay_out(child.id), kids + rest, second);
            }
        }
    }
}

/// One more release.
proof fn lemma_one_more_release(
    v: InvocationView,
    order: Seq<u64>,
    u: InvocationView,
    id: u64,
    status: EscrowStatus,
)
    requires
        after_releasing(v, order, u),
        u.escrows.contains_key(id),
        u.is_due(Pending { id, parent_status: status }),
    ensures
        is_ready(v, id, status),
        !order.contains(id),
        after_releasing(v, order.push(id), u.pay_out(id)),
{
    let w = u.pay_out(id);
    let longer = order.push(id);
    let escrow = v.escrows[id]->Some_0;
    assert(v.escrows.contains_key(id));
    assert(u.escrows[id] == v.escrows[id]);
    assert(longer.drop_last() =~= order);
    assert(longer[order.len() as int] == id);
    assert forall|other: u64| longer.contains(other) <==> order.contains(other) || other == id by {
        if order.contains(other) {
            let i = order.index_of(other);
            assert(longer[i] == other);
        }
    }
    assert(longer.no_duplicates());
    assert(w.actions =~= v.actions + releases_of(v, longer)) by {
        assert(w.actions =~= u.actions + release_of(id, escrow));
    }
    assert(w.escrows.dom() =~= v.escrows.dom());
}

/// A cascade over the children of one parent releases them in order.
proof fn lemma_cascade_goes_in_order(
    v: InvocationView,
    done: Seq<u64>,
    u: InvocationView,
    ids: Seq<u64>,
    status: EscrowStatus,
    depth: nat,
)
    requires
        v.finite(),
        after_releasing(v, done, u),
        u.cascade(waiting(ids, status)) is Ok,
        depth > u.active_ids().len(),
    ensures
        after_releasing(
            v,
            going_along(v, done, ids, status, depth),
            u.cascade(waiting(ids, status))->Ok_0,
        ),
        u.cascade(waiting(ids, status))->Ok_0.active_ids().len() <= u.active_ids().len(),
    decreases depth, ids.len(),
{
    assert(u.finite());
    if ids.len() > 0 {
        let id = ids.last();
        let last = Pending { id, parent_status: status };
        assert(waiting(ids, status) =~= waiting(ids.drop_last(), status) + seq![last]);
        lemma_cascade_splits(u, waiting(ids.drop_last(), status), seq![last]);
        lemma_cascade_goes_in_order(v, done, u, ids.drop_last(), status, depth);
        let before = going_along(v, done, ids.drop_last(), status, depth);
        let m = u.cascade(waiting(ids.drop_last(), status))->Ok_0;
        assert(m.finite());
        assert(seq![last].first() == last);
        assert(seq![last].drop_first() =~= Seq::empty());
        assert(m.escrows.contains_key(id));
        assert(v.escrows.contains_key(id));
        if m.is_due(last) {
            lemma_one_more_release(v, before, m, id, status);
            m.lemma_pay_out_ends_activity(id);
            let kids = waiting(m.children[id], EscrowStatus::Released);
            assert(kids + Seq::<Pending>::empty() =~= kids);
            lemma_cascade_goes_in_order(
                v,
                before.push(id),
                m.pay_out(id),
                v.children[id],
                EscrowStatus::Released,
                (depth - 1) as nat,
            );
            assert(m.cascade(seq![last]) == m.pay_out(id).cascade(kids));
        } else {
            assert(m.cascade(Seq::empty()) == Ok::<InvocationView, Halt>(m));
            assert(m.cascade(seq![last]) == m.cascade(Seq::empty()));
            assert(!is_ready(v, id, status) || before.contains(id));
        }
    }
}

/// A trigger releases in order: the oldest child first, each followed at once by
/// its own children. For each it pays the beneficiary, writes the entry and
/// announces the release, once; and it does nothing else. This fixes the whole
/// state that it leaves.
pub proof fn law_trigger_releases_in_order(
    v: InvocationView,
    parent_id: u64,
    status: EscrowStatus,
    depth: nat,
)
    requires
        v.finite(),
        depth > v.escrows.dom().len(),
    ensures
        v.trigger(parent_id, status) matches Ok(w) ==> after_releasing(
            v,
            going_along(v, Seq::empty(), v.children[parent_id], status, depth),
            w,
        ),
{
    if v.trigger(parent_id, status) is Ok {
        let none = Seq::<u64>::empty();
        v.escrows.dom().lemma_len_filter(|id: u64| v.is_active(id));
        assert(v.actions + releases_of(v, none) =~= v.actions);
        assert(after_releasing(v, none, v));
        lemma_cascade_goes_in_order(v, none, v, v.children[parent_id], status, depth);
    }
}

/// Triggering the children of a stored parent releases those that can go with it,
/// whatever its status is, and in turn theirs: in order, each paid to its
/// beneficiary once, and nothing else happens. Where the parent is stored nowhere,
/// nothing happens at all.
pub proof fn law_triggering_children_releases_in_order(
    v: InvocationView,
    parent_id: u64,
    parent: Escrow,
    depth: nat,
)
    requires
        v.finite(),
        depth > v.escrows.dom().len(),
    ensures
        v.escrows.contains_pair(parent_id, Some(parent)) ==> (v.trigger_children(parent_id)
            matches Ok(w) ==> after_releasing(
            v,
            going_along(v, Seq::empty(), v.children[parent_id], parent.status, depth),
            w,
        )),
        v.escrows.contains_pair(parent_id, None) ==> v.trigger_children(parent_id) == Ok::<
            InvocationView,
            Halt,
        >(v),
{
    law_trigger_releases_in_order(v, parent_id, parent.status, depth);
}

/// The state in which `id` has been closed with the given status, by the actions
/// given.
pub open spec fn closed_with(
    v: InvocationView,
    id: u64,
    escrow: Escrow,
    status: EscrowStatus,
    actions: Seq<Action>,
) -> InvocationView {
    InvocationView {
        escrows: v.escrows.insert(id, Some(Escrow { status, ..escrow })),
        balance: None,
        actions: v.actions + actions,
        ..v
    }
}

/// A release pays the escrow's amount to its beneficiary first, once, and then
/// releases, in order, the children that can go with a Released parent, and in
/// turn theirs. Nothing else happens.
pub proof fn law_release_pays_first_and_then_triggers(
    v: InvocationView,
    id: u64,
    escrow: Escrow,
    depth: nat,
)
    requires
        v.finite(),
        v.escrows.contains_pair(id, Some(escrow)),
        depth > v.escrows.dom().len(),
    ensures
        ({
            let start = closed_with(v, id, escrow, EscrowStatus::Released, release_of(id, escrow));
            v.release(id) matches Ok(w) ==> after_releasing(
                start,
                going_along(start, Seq::empty(), v.children[id], EscrowStatus::Released, depth),
                w,
            )
        }),
{
    let start = closed_with(v, id, escrow, EscrowStatus::Released, release_of(id, escrow));
    if v.release(id) is Ok {
        assert(start.escrows.dom() =~= v.escrows.dom());
        assert(v.pay_out(id) =~= start);
        law_trigger_releases_in_order(start, id, EscrowStatus::Released, depth);
    }
}

/// A refund pays the escrow's amount back to its depositor first, once, and then
/// releases, in order, the children that can go with a Refunded parent, and in
/// turn theirs. Nothing else happens.
pub proof fn law_refund_pays_first_and_then_triggers(
    v: InvocationView,
    id: u64,
    escrow: Escrow,
    depth: nat,
)
    requires
        v.finite(),
        v.escrows.contains_pair(id, Some(escrow)),
        depth > v.escrows.dom().len(),
    ensures
        ({
            let start = closed_with(
                v,
                id,
                escrow,
                EscrowStatus::Refunded,
                seq![
                    Action::Transfer {
                        token: escrow.token,
                        from: Holder::Contract,
                        to: Holder::Other(escrow.depositor),
                        amount: escrow.amount,
                    },
                    Action::Store(DataKey::Escrow(id)),
                    Action::Publish(Event::EscrowRefunded(id)),
                ],
            );
            v.refund(id) matches Ok(w) ==> after_releasing(
                start,
                going_along(start, Seq::empty(), v.children[id], EscrowStatus::Refunded, depth),
                w,
            )
        }),
{
    let start = closed_with(
        v,
        id,
        escrow,
        EscrowStatus::Refunded,
        seq![
            Action::Transfer {
                token: escrow.token,
                from: Holder::Contract,
                to: Holder::Other(escrow.depositor),
                amount: escrow.amount,
            },
            Action::Store(DataKey::Escrow(id)),
            Action::Publish(Event::EscrowRefunded(id)),
        ],
    );
    if v.refund(id) is Ok {
        assert(start.escrows.dom() =~= v.escrows.dom());
        assert(v.close(
            id,
            escrow.depositor,
            EscrowStatus::Refunded,
            Event::EscrowRefunded(id),
        ) =~= start);
        law_trigger_releases_in_order(start, id, EscrowStatus::Refunded, depth);
    }
}

} // verus!
