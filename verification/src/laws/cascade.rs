//! Which escrows a trigger releases.

use vstd::prelude::*;

use crate::invocation::{Event, Halt, InvocationView};
use crate::laws::lifecycle::{lemma_cascade_only_releases, only_releases};
use crate::model::{waiting, Pending};
use crate::types::{DataKey, Escrow, EscrowStatus, ParentStatusRequirement};

verus! {

/// The escrow `id` was Active in `v` and is Released in `w`.
pub open spec fn newly_released(v: InvocationView, w: InvocationView, id: u64) -> bool {
    &&& v.escrows.contains_key(id) && (v.escrows[id] matches Some(escrow) && escrow.status
        == EscrowStatus::Active)
    &&& w.escrows.contains_key(id) && (w.escrows[id] matches Some(escrow) && escrow.status
        == EscrowStatus::Released)
}

/// The stored escrow `id` can go with a parent of the given status: it is Active,
/// requires that status, and its release time is not later than now.
pub open spec fn is_ready(v: InvocationView, id: u64, parent_status: EscrowStatus) -> bool {
    v.escrows.contains_key(id) && (v.escrows[id] matches Some(escrow) && escrow.status
        == EscrowStatus::Active && escrow.required_parent_status == ParentStatusRequirement::Status(
        parent_status,
    ) && escrow.release_time <= v.now)
}

/// `id` is in the list of the children of `parent_id`.
pub open spec fn is_listed(v: InvocationView, parent_id: u64, id: u64) -> bool {
    v.children.contains_key(parent_id) && v.children[parent_id].contains(id)
}

/// All the given children of a parent with the given status are loaded, and none
/// of them can go with it.
pub open spec fn settled(v: InvocationView, ids: Seq<u64>, parent_status: EscrowStatus) -> bool {
    forall|i: int|
        0 <= i < ids.len() ==> v.escrows.contains_key(#[trigger] ids[i]) && !is_ready(
            v,
            ids[i],
            parent_status,
        )
}

/// `id` is listed as a child of `parent_id`, and can go with it where that has the
/// given status.
pub open spec fn is_due_child(
    v: InvocationView,
    parent_id: u64,
    status: EscrowStatus,
    id: u64,
) -> bool {
    &&& is_listed(v, parent_id, id)
    &&& is_ready(v, id, status)
}

/// A chain leads from `parent_id` down to `id`, with `links` escrows between them:
/// its first escrow is due under a parent with the given status, and each other
/// one is due under the one before, once that is Released.
pub open spec fn is_reached(
    v: InvocationView,
    parent_id: u64,
    status: EscrowStatus,
    id: u64,
    links: nat,
) -> bool
    decreases links,
{
    if links == 0 {
        is_due_child(v, parent_id, status, id)
    } else {
        exists|via: u64|
            is_reached(v, parent_id, status, via, (links - 1) as nat) && #[trigger] is_due_child(
                v,
                via,
                EscrowStatus::Released,
                id,
            )
    }
}

/// Some chain of due escrows leads from `parent_id` down to `id`.
pub open spec fn in_due_line(
    v: InvocationView,
    parent_id: u64,
    status: EscrowStatus,
    id: u64,
) -> bool {
    exists|links: nat| is_reached(v, parent_id, status, id, links)
}

/// After a cascade none of the children that waited is due any more, nor is any
/// child of an escrow that the cascade released.
proof fn lemma_cascade_settles(v: InvocationView, pending: Seq<Pending>)
    requires
        v.finite(),
        v.cascade(pending) is Ok,
    ensures
        forall|i: int|
            0 <= i < pending.len() ==> v.cascade(pending)->Ok_0.escrows.contains_key(
                #[trigger] pending[i].id,
            ) && !v.cascade(pending)->Ok_0.is_due(pending[i]),
        forall|id: u64| #[trigger]
            newly_released(v, v.cascade(pending)->Ok_0, id) ==> v.children.contains_key(id)
                && settled(v.cascade(pending)->Ok_0, v.children[id], EscrowStatus::Released),
    decreases v.active_ids().len(), pending.len(),
{
    lemma_cascade_only_releases(v, pending);
    if pending.len() > 0 {
        let child = pending.first();
        let rest = pending.drop_first();
        let w = v.cascade(pending)->Ok_0;
        if !v.is_due(child) {
            lemma_cascade_settles(v, rest);
            assert forall|i: int| 0 <= i < pending.len() implies w.escrows.contains_key(
                #[trigger] pending[i].id,
            ) && !w.is_due(pending[i]) by {
                if i > 0 {
                    assert(rest[i - 1] == pending[i]);
                    assert(w.escrows.contains_key(rest[i - 1].id));
                } else {
                    assert(v.escrows.contains_key(child.id));
                }
            }
        } else {
            v.lemma_pay_out_ends_activity(child.id);
            let next = v.pay_out(child.id);
            let kids = v.children[child.id];
            let then = waiting(kids, EscrowStatus::Released) + rest;
            lemma_cascade_only_releases(next, then);
            lemma_cascade_settles(next, then);
            assert forall|i: int| 0 <= i < pending.len() implies w.escrows.contains_key(
                #[trigger] pending[i].id,
            ) && !w.is_due(pending[i]) by {
                if i > 0 {
                    assert(then[kids.len() + i - 1] == pending[i]);
                    assert(w.escrows.contains_key(then[kids.len() + i - 1].id));
                } else {
                    assert(next.escrows.contains_key(child.id));
                }
            }
            assert forall|id: u64| #[trigger] newly_released(v, w, id) implies v.children.contains_key(
                id,
            ) && settled(w, v.children[id], EscrowStatus::Released) by {
                if id == child.id {
                    assert forall|i: int| 0 <= i < kids.len() implies w.escrows.contains_key(
                        #[trigger] kids[i],
                    ) && !w.is_due(
                        Pending { id: kids[i], parent_status: EscrowStatus::Released },
                    ) by {
                        assert(then[i] == Pending {
                            id: kids[i],
                            parent_status: EscrowStatus::Released,
                        });
                        assert(w.escrows.contains_key(then[i].id));
                    }
                } else {
                    assert(newly_released(next, w, id));
                }
            }
        }
    }
}

/// A cascade over children none of which is due changes nothing.
proof fn lemma_nothing_due_nothing_done(v: InvocationView, pending: Seq<Pending>)
    requires
        v.finite(),
        forall|i: int|
            0 <= i < pending.len() ==> v.escrows.contains_key(#[trigger] pending[i].id)
                && !v.is_due(pending[i]),
    ensures
        v.cascade(pending) == Ok::<InvocationView, Halt>(v),
    decreases pending.len(),
{
    if pending.len() > 0 {
        let rest = pending.drop_first();
        assert(v.escrows.contains_key(pending[0].id));
        assert forall|i: int| 0 <= i < rest.len() implies v.escrows.contains_key(
            #[trigger] rest[i].id,
        ) && !v.is_due(rest[i]) by {
            assert(v.escrows.contains_key(pending[i + 1].id));
        }
        lemma_nothing_due_nothing_done(v, rest);
    }
}

/// A cascade on the way of a trigger that started in `entry` releases only escrows
/// to which a chain leads, if a chain leads to each of those that wait.
proof fn lemma_cascade_stays_in_line(
    entry: InvocationView,
    parent_id: u64,
    status: EscrowStatus,
    v: InvocationView,
    pending: Seq<Pending>,
    id: u64,
)
    requires
        v.finite(),
        v.cascade(pending) is Ok,
        only_releases(entry, v),
        forall|i: int|
            0 <= i < pending.len() && v.escrows.contains_key(#[trigger] pending[i].id) && v.is_due(
                pending[i],
            ) ==> in_due_line(entry, parent_id, status, pending[i].id),
        newly_released(v, v.cascade(pending)->Ok_0, id),
    ensures
        in_due_line(entry, parent_id, status, id),
    decreases v.active_ids().len(), pending.len(),
{
    lemma_cascade_only_releases(v, pending);
    if pending.len() > 0 {
        let child = pending.first();
        let rest = pending.drop_first();
        let w = v.cascade(pending)->Ok_0;
        assert(pending[0] == child);
        assert forall|i: int|
            0 <= i < rest.len() && v.escrows.contains_key(#[trigger] rest[i].id) && v.is_due(
                rest[i],
            ) implies in_due_line(entry, parent_id, status, rest[i].id) by {
            assert(pending[i + 1] == rest[i]);
            assert(v.escrows.contains_key(pending[i + 1].id));
        }
        if !v.is_due(child) {
            lemma_cascade_stays_in_line(entry, parent_id, status, v, rest, id);
        } else if id != child.id {
            v.lemma_pay_out_ends_activity(child.id);
            let next = v.pay_out(child.id);
            let kids = v.children[child.id];
            let then = waiting(kids, EscrowStatus::Released) + rest;
            let links = choose|links: nat| is_reached(entry, parent_id, status, child.id, links);
            assert(entry.escrows.contains_key(child.id));
            assert(only_releases(entry, next)) by {
                assert(next.escrows.dom() =~= entry.escrows.dom());
            }
            assert forall|i: int|
                0 <= i < then.len() && next.escrows.contains_key(#[trigger] then[i].id)
                    && next.is_due(then[i]) implies in_due_line(
                entry,
                parent_id,
                status,
                then[i].id,
            ) by {
                assert(v.escrows[then[i].id] == next.escrows[then[i].id]);
                if i < kids.len() {
                    assert(then[i].id == kids[i]);
                    assert(entry.escrows.contains_key(kids[i]));
                    assert(is_due_child(entry, child.id, EscrowStatus::Released, kids[i]));
                    assert(is_reached(entry, parent_id, status, kids[i], links + 1));
                } else {
                    assert(then[i] == rest[i - kids.len()]);
                    assert(v.escrows.contains_key(rest[i - kids.len()].id));
                }
            }
            assert(newly_released(next, w, id));
            lemma_cascade_stays_in_line(entry, parent_id, status, next, then, id);
        }
    }
}

/// A trigger releases every escrow to which a chain leads.
proof fn lemma_line_is_released(
    v: InvocationView,
    parent_id: u64,
    status: EscrowStatus,
    id: u64,
    links: nat,
)
    requires
        v.finite(),
        v.trigger(parent_id, status) is Ok,
        is_reached(v, parent_id, status, id, links),
    ensures
        newly_released(v, v.trigger(parent_id, status)->Ok_0, id),
    decreases links,
{
    let w = v.trigger(parent_id, status)->Ok_0;
    lemma_cascade_only_releases(v, waiting(v.children[parent_id], status));
    law_trigger_leaves_nothing_due(v, parent_id, status);
    if links == 0 {
        let i = v.children[parent_id].index_of(id);
        assert(v.children[parent_id][i] == id);
    } else {
        let via = choose|via: u64|
            is_reached(v, parent_id, status, via, (links - 1) as nat) && #[trigger] is_due_child(
                v,
                via,
                EscrowStatus::Released,
                id,
            );
        lemma_line_is_released(v, parent_id, status, via, (links - 1) as nat);
        let i = v.children[via].index_of(id);
        assert(v.children[via][i] == id);
    }
}

/// A trigger is complete: afterwards no child of the parent is due, nor is any
/// child of an escrow that the trigger released.
pub proof fn law_trigger_leaves_nothing_due(
    v: InvocationView,
    parent_id: u64,
    status: EscrowStatus,
)
    requires
        v.finite(),
        v.trigger(parent_id, status) is Ok,
    ensures
        settled(v.trigger(parent_id, status)->Ok_0, v.children[parent_id], status),
        forall|id: u64| #[trigger]
            newly_released(v, v.trigger(parent_id, status)->Ok_0, id) ==> settled(
                v.trigger(parent_id, status)->Ok_0,
                v.children[id],
                EscrowStatus::Released,
            ),
{
    let ids = v.children[parent_id];
    let pending = waiting(ids, status);
    let w = v.trigger(parent_id, status)->Ok_0;
    lemma_cascade_settles(v, pending);
    assert forall|i: int| 0 <= i < ids.len() implies w.escrows.contains_key(#[trigger] ids[i])
        && !w.is_due(Pending { id: ids[i], parent_status: status }) by {
        assert(w.escrows.contains_key(pending[i].id));
    }
}

/// Releasing or refunding an escrow leaves no child behind that could go with it:
/// afterwards none of its children is due, nor is any child of another escrow
/// that was released on the way.
pub proof fn law_closing_leaves_nothing_due(v: InvocationView, id: u64)
    requires
        v.finite(),
    ensures
        v.release(id) matches Ok(w) ==> settled(w, v.children[id], EscrowStatus::Released) && forall|
            other: u64,
        | #[trigger]
            newly_released(v, w, other) ==> settled(w, v.children[other], EscrowStatus::Released),
        v.refund(id) matches Ok(w) ==> settled(w, v.children[id], EscrowStatus::Refunded) && forall|
            other: u64,
        | #[trigger]
            newly_released(v, w, other) ==> settled(w, v.children[other], EscrowStatus::Released),
{
    if v.release(id) is Ok {
        let start = v.pay_out(id);
        let w = v.release(id)->Ok_0;
        law_trigger_leaves_nothing_due(start, id, EscrowStatus::Released);
        assert forall|other: u64| #[trigger] newly_released(v, w, other) implies settled(
            w,
            v.children[other],
            EscrowStatus::Released,
        ) by {
            if other != id {
                assert(newly_released(start, w, other));
            }
        }
    }
    if v.refund(id) is Ok {
        let start = v.close(
            id,
            v.escrows[id]->Some_0.depositor,
            EscrowStatus::Refunded,
            Event::EscrowRefunded(id),
        );
        let w = v.refund(id)->Ok_0;
        law_trigger_leaves_nothing_due(start, id, EscrowStatus::Refunded);
        lemma_cascade_only_releases(start, waiting(v.children[id], EscrowStatus::Refunded));
        assert forall|other: u64| #[trigger] newly_released(v, w, other) implies settled(
            w,
            v.children[other],
            EscrowStatus::Released,
        ) by {
            assert(start.escrows.contains_key(other));
            assert(newly_released(start, w, other));
        }
    }
}

/// A trigger releases exactly the escrows to which a chain leads from the parent,
/// each listed as a child of the one before and due when the trigger starts.
pub proof fn law_trigger_releases_exactly_the_due_line(
    v: InvocationView,
    parent_id: u64,
    status: EscrowStatus,
    id: u64,
)
    requires
        v.finite(),
        v.trigger(parent_id, status) is Ok,
    ensures
        newly_released(v, v.trigger(parent_id, status)->Ok_0, id) <==> in_due_line(
            v,
            parent_id,
            status,
            id,
        ),
{
    let w = v.trigger(parent_id, status)->Ok_0;
    let ids = v.children[parent_id];
    let pending = waiting(ids, status);
    if newly_released(v, w, id) {
        assert forall|i: int|
            0 <= i < pending.len() && v.escrows.contains_key(#[trigger] pending[i].id) && v.is_due(
                pending[i],
            ) implies in_due_line(v, parent_id, status, pending[i].id) by {
            assert(pending[i].id == ids[i]);
            assert(is_reached(v, parent_id, status, ids[i], 0));
        }
        lemma_cascade_stays_in_line(v, parent_id, status, v, pending, id);
    }
    if in_due_line(v, parent_id, status, id) {
        let links = choose|links: nat| is_reached(v, parent_id, status, id, links);
        lemma_line_is_released(v, parent_id, status, id, links);
    }
}

/// `id` is listed as a child of `parent_id`, or of an escrow to which a chain leads
/// from it.
pub open spec fn is_below_line(
    v: InvocationView,
    parent_id: u64,
    status: EscrowStatus,
    id: u64,
) -> bool {
    is_listed(v, parent_id, id) || exists|via: u64| #[trigger]
        in_due_line(v, parent_id, status, via) && is_listed(v, via, id)
}

/// All that a trigger has to look at is loaded: the list of `parent_id` and of each
/// escrow to which a chain leads from it, and all escrows in those lists.
pub open spec fn line_is_loaded(v: InvocationView, parent_id: u64, status: EscrowStatus) -> bool {
    &&& v.children.contains_key(parent_id)
    &&& forall|id: u64| #[trigger]
        in_due_line(v, parent_id, status, id) ==> v.children.contains_key(id)
    &&& forall|id: u64| #[trigger]
        is_below_line(v, parent_id, status, id) ==> v.escrows.contains_key(id)
}

/// The trigger stopped for want of something that it has to look at.
pub open spec fn wants_of_line(
    v: InvocationView,
    parent_id: u64,
    status: EscrowStatus,
    halt: Halt,
) -> bool {
    match halt {
        Halt::Load(DataKey::Escrow(id)) => !v.escrows.contains_key(id) && is_below_line(
            v,
            parent_id,
            status,
            id,
        ),
        Halt::Load(DataKey::ChildEscrows(id)) => !v.children.contains_key(id) && (id == parent_id
            || in_due_line(v, parent_id, status, id)),
        _ => false,
    }
}

/// A cascade on the way of a trigger that started in `entry` asks only for what the
/// trigger has to look at.
proof fn lemma_cascade_asks_for_its_line(
    entry: InvocationView,
    parent_id: u64,
    status: EscrowStatus,
    v: InvocationView,
    pending: Seq<Pending>,
)
    requires
        v.finite(),
        only_releases(entry, v),
        forall|i: int|
            0 <= i < pending.len() ==> is_below_line(
                entry,
                parent_id,
                status,
                #[trigger] pending[i].id,
            ),
        forall|i: int|
            0 <= i < pending.len() && v.escrows.contains_key(#[trigger] pending[i].id) && v.is_due(
                pending[i],
            ) ==> in_due_line(entry, parent_id, status, pending[i].id),
    ensures
        v.cascade(pending) matches Err(halt) ==> wants_of_line(entry, parent_id, status, halt),
    decreases v.active_ids().len(), pending.len(),
{
    if pending.len() > 0 {
        let child = pending.first();
        let rest = pending.drop_first();
        assert(pending[0] == child);
        assert(is_below_line(entry, parent_id, status, pending[0].id));
        assert forall|i: int| 0 <= i < rest.len() implies is_below_line(
            entry,
            parent_id,
            status,
            #[trigger] rest[i].id,
        ) && (v.escrows.contains_key(rest[i].id) && v.is_due(rest[i]) ==> in_due_line(
            entry,
            parent_id,
            status,
            rest[i].id,
        )) by {
            assert(pending[i + 1] == rest[i]);
            assert(is_below_line(entry, parent_id, status, pending[i + 1].id));
        }
        if v.escrows.contains_key(child.id) {
            if !v.is_due(child) {
                lemma_cascade_asks_for_its_line(entry, parent_id, status, v, rest);
            } else if v.children.contains_key(child.id) {
                v.lemma_pay_out_ends_activity(child.id);
                let next = v.pay_out(child.id);
                let kids = v.children[child.id];
                let then = waiting(kids, EscrowStatus::Released) + rest;
                let links = choose|links: nat|
                    is_reached(entry, parent_id, status, child.id, links);
                assert(entry.escrows.contains_key(child.id));
                assert(only_releases(entry, next)) by {
                    assert(next.escrows.dom() =~= entry.escrows.dom());
                }
                assert forall|i: int| 0 <= i < then.len() implies is_below_line(
                    entry,
                    parent_id,
                    status,
                    #[trigger] then[i].id,
                ) && (next.escrows.contains_key(then[i].id) && next.is_due(then[i]) ==> in_due_line(
                    entry,
                    parent_id,
                    status,
                    then[i].id,
                )) by {
                    if i < kids.len() {
                        assert(then[i].id == kids[i]);
                        assert(is_listed(entry, child.id, kids[i]));
                        assert(in_due_line(entry, parent_id, status, child.id));
                        if next.escrows.contains_key(kids[i]) && next.is_due(then[i]) {
                            assert(entry.escrows.contains_key(kids[i]));
                            assert(is_due_child(entry, child.id, EscrowStatus::Released, kids[i]));
                            assert(is_reached(entry, parent_id, status, kids[i], links + 1));
                        }
                    } else {
                        assert(then[i] == rest[i - kids.len()]);
                        assert(is_below_line(
                            entry,
                            parent_id,
                            status,
                            rest[i - kids.len()].id,
                        ));
                    }
                }
                lemma_cascade_asks_for_its_line(entry, parent_id, status, next, then);
            }
        }
    }
}

/// A trigger succeeds exactly if all that it has to look at is loaded, and where it
/// does not, it asks for a part of that which is missing.
pub proof fn law_trigger_succeeds_exactly_when_its_line_is_loaded(
    v: InvocationView,
    parent_id: u64,
    status: EscrowStatus,
)
    requires
        v.finite(),
    ensures
        v.trigger(parent_id, status) is Ok <==> line_is_loaded(v, parent_id, status),
        v.trigger(parent_id, status) matches Err(halt) ==> wants_of_line(
            v,
            parent_id,
            status,
            halt,
        ),
{
    if v.children.contains_key(parent_id) {
        let ids = v.children[parent_id];
        let pending = waiting(ids, status);
        assert forall|i: int| 0 <= i < pending.len() implies is_below_line(
            v,
            parent_id,
            status,
            #[trigger] pending[i].id,
        ) && (v.escrows.contains_key(pending[i].id) && v.is_due(pending[i]) ==> in_due_line(
            v,
            parent_id,
            status,
            pending[i].id,
        )) by {
            assert(pending[i].id == ids[i]);
            assert(is_listed(v, parent_id, ids[i]));
            if v.escrows.contains_key(ids[i]) && v.is_due(pending[i]) {
                assert(is_reached(v, parent_id, status, ids[i], 0));
            }
        }
        lemma_cascade_asks_for_its_line(v, parent_id, status, v, pending);
        if v.trigger(parent_id, status) is Ok {
            let w = v.trigger(parent_id, status)->Ok_0;
            lemma_cascade_settles(v, pending);
            lemma_cascade_only_releases(v, pending);
            law_trigger_leaves_nothing_due(v, parent_id, status);
            assert forall|id: u64| #[trigger]
                in_due_line(v, parent_id, status, id) implies v.children.contains_key(id) by {
                let links = choose|links: nat| is_reached(v, parent_id, status, id, links);
                lemma_line_is_released(v, parent_id, status, id, links);
            }
            assert forall|id: u64| #[trigger]
                is_below_line(v, parent_id, status, id) implies v.escrows.contains_key(id) by {
                if is_listed(v, parent_id, id) {
                    let i = ids.index_of(id);
                    assert(ids[i] == id);
                } else {
                    let via = choose|via: u64| #[trigger]
                        in_due_line(v, parent_id, status, via) && is_listed(v, via, id);
                    let links = choose|links: nat| is_reached(v, parent_id, status, via, links);
                    lemma_line_is_released(v, parent_id, status, via, links);
                    let i = v.children[via].index_of(id);
                    assert(v.children[via][i] == id);
                    assert(settled(w, v.children[via], EscrowStatus::Released));
                    assert(w.escrows.contains_key(v.children[via][i]));
                }
            }
        }
    }
}

/// Only the escrows, the lists and the time bear on who is reached.
proof fn lemma_same_line(
    v: InvocationView,
    u: InvocationView,
    parent_id: u64,
    status: EscrowStatus,
    id: u64,
    links: nat,
)
    requires
        u.escrows == v.escrows,
        u.children == v.children,
        u.now == v.now,
    ensures
        is_reached(u, parent_id, status, id, links) == is_reached(v, parent_id, status, id, links),
    decreases links,
{
    if links > 0 {
        let fewer = (links - 1) as nat;
        assert forall|via: u64|
            is_reached(u, parent_id, status, via, fewer) && #[trigger] is_due_child(
                u,
                via,
                EscrowStatus::Released,
                id,
            ) <==> is_reached(v, parent_id, status, via, fewer) && is_due_child(
                v,
                via,
                EscrowStatus::Released,
                id,
            ) by {
            lemma_same_line(v, u, parent_id, status, via, fewer);
        }
        assert forall|via: u64| #[trigger]
            is_due_child(v, via, EscrowStatus::Released, id) <==> is_due_child(
                u,
                via,
                EscrowStatus::Released,
                id,
            ) by {}
    }
}

/// Nor does anything else bear on what a trigger has to look at.
pub proof fn lemma_same_needs(
    v: InvocationView,
    u: InvocationView,
    parent_id: u64,
    status: EscrowStatus,
)
    requires
        u.escrows == v.escrows,
        u.children == v.children,
        u.now == v.now,
    ensures
        forall|id: u64| #[trigger]
            in_due_line(u, parent_id, status, id) == in_due_line(v, parent_id, status, id),
        line_is_loaded(u, parent_id, status) == line_is_loaded(v, parent_id, status),
        forall|halt: Halt| #[trigger]
            wants_of_line(u, parent_id, status, halt) == wants_of_line(v, parent_id, status, halt),
{
    assert forall|id: u64|
        #![trigger in_due_line(u, parent_id, status, id)]
        #![trigger in_due_line(v, parent_id, status, id)]
        in_due_line(u, parent_id, status, id) == in_due_line(v, parent_id, status, id) by {
        if in_due_line(v, parent_id, status, id) {
            let links = choose|links: nat| is_reached(v, parent_id, status, id, links);
            lemma_same_line(v, u, parent_id, status, id, links);
        }
        if in_due_line(u, parent_id, status, id) {
            let links = choose|links: nat| is_reached(u, parent_id, status, id, links);
            lemma_same_line(v, u, parent_id, status, id, links);
        }
    }
    assert forall|id: u64|
        #![trigger is_below_line(u, parent_id, status, id)]
        #![trigger is_below_line(v, parent_id, status, id)]
        is_below_line(u, parent_id, status, id) == is_below_line(v, parent_id, status, id) by {
        if is_below_line(v, parent_id, status, id) && !is_listed(v, parent_id, id) {
            let via = choose|via: u64| #[trigger]
                in_due_line(v, parent_id, status, via) && is_listed(v, via, id);
            assert(in_due_line(u, parent_id, status, via) && is_listed(u, via, id));
        }
        if is_below_line(u, parent_id, status, id) && !is_listed(u, parent_id, id) {
            let via = choose|via: u64| #[trigger]
                in_due_line(u, parent_id, status, via) && is_listed(u, via, id);
            assert(in_due_line(v, parent_id, status, via) && is_listed(v, via, id));
        }
    }
}

/// The state in which the escrow `id` has the given status and all else is as in
/// `v`.
pub open spec fn with_status(
    v: InvocationView,
    id: u64,
    escrow: Escrow,
    status: EscrowStatus,
) -> InvocationView {
    InvocationView { escrows: v.escrows.insert(id, Some(Escrow { status, ..escrow })), ..v }
}

/// From `v` to `w` exactly the escrows to which a chain leads from `parent_id` have
/// been released; every other entry, and every list, counter and the like, is
/// as it was.
pub open spec fn releases_exactly_the_due_line(
    v: InvocationView,
    w: InvocationView,
    parent_id: u64,
    status: EscrowStatus,
) -> bool {
    &&& w == InvocationView {
        escrows: w.escrows,
        balance: w.balance,
        actions: w.actions,
        ..v
    }
    &&& w.escrows.dom() == v.escrows.dom()
    &&& forall|id: u64| #[trigger]
        v.escrows.contains_key(id) ==> w.escrows[id] == (if in_due_line(
            v,
            parent_id,
            status,
            id,
        ) {
            Some(Escrow { status: EscrowStatus::Released, ..v.escrows[id]->Some_0 })
        } else {
            v.escrows[id]
        })
}

/// What a trigger leaves, where it starts in a state with the entries of `v`.
proof fn lemma_trigger_leaves_the_rest(
    v: InvocationView,
    start: InvocationView,
    parent_id: u64,
    status: EscrowStatus,
)
    requires
        v.finite(),
        start == (InvocationView { balance: start.balance, actions: start.actions, ..v }),
        start.trigger(parent_id, status) is Ok,
    ensures
        releases_exactly_the_due_line(
            v,
            start.trigger(parent_id, status)->Ok_0,
            parent_id,
            status,
        ),
{
    let w = start.trigger(parent_id, status)->Ok_0;
    lemma_cascade_only_releases(start, waiting(v.children[parent_id], status));
    assert forall|id: u64| #[trigger] v.escrows.contains_key(id) implies w.escrows[id] == (
    if in_due_line(v, parent_id, status, id) {
        Some(Escrow { status: EscrowStatus::Released, ..v.escrows[id]->Some_0 })
    } else {
        v.escrows[id]
    }) by {
        assert(start.escrows.contains_key(id));
        law_trigger_releases_exactly_the_due_line(start, parent_id, status, id);
        if in_due_line(v, parent_id, status, id) {
            let links = choose|links: nat| is_reached(v, parent_id, status, id, links);
            lemma_same_line(v, start, parent_id, status, id, links);
        }
        if in_due_line(start, parent_id, status, id) {
            let links = choose|links: nat| is_reached(start, parent_id, status, id, links);
            lemma_same_line(v, start, parent_id, status, id, links);
        }
    }
}

/// Triggering the children of a stored parent releases exactly the escrows to which
/// a chain leads from it: the first of each chain requires the status that the
/// parent has, whichever of the four it is, and each other one requires the one
/// before to be Released; all are listed, Active and past their release time when
/// the call is made.
pub proof fn law_triggering_children_releases_exactly_the_due_line(
    v: InvocationView,
    parent_id: u64,
    parent: Escrow,
    id: u64,
)
    requires
        v.finite(),
        v.escrows.contains_pair(parent_id, Some(parent)),
        v.trigger_children(parent_id) is Ok,
    ensures
        newly_released(v, v.trigger_children(parent_id)->Ok_0, id) <==> in_due_line(
            v,
            parent_id,
            parent.status,
            id,
        ),
        releases_exactly_the_due_line(
            v,
            v.trigger_children(parent_id)->Ok_0,
            parent_id,
            parent.status,
        ),
{
    law_trigger_releases_exactly_the_due_line(v, parent_id, parent.status, id);
    lemma_trigger_leaves_the_rest(v, v, parent_id, parent.status);
}

/// Besides the escrow itself, releasing or refunding an escrow releases exactly
/// the escrows to which a chain leads from it, once it has its new status.
pub proof fn law_closing_releases_exactly_the_due_line(v: InvocationView, id: u64, escrow: Escrow)
    requires
        v.finite(),
        v.escrows.contains_pair(id, Some(escrow)),
    ensures
        v.release(id) matches Ok(w) ==> releases_exactly_the_due_line(
            with_status(v, id, escrow, EscrowStatus::Released),
            w,
            id,
            EscrowStatus::Released,
        ),
        v.refund(id) matches Ok(w) ==> releases_exactly_the_due_line(
            with_status(v, id, escrow, EscrowStatus::Refunded),
            w,
            id,
            EscrowStatus::Refunded,
        ),
{
    if v.release(id) is Ok {
        lemma_trigger_leaves_the_rest(
            with_status(v, id, escrow, EscrowStatus::Released),
            v.pay_out(id),
            id,
            EscrowStatus::Released,
        );
    }
    if v.refund(id) is Ok {
        lemma_trigger_leaves_the_rest(
            with_status(v, id, escrow, EscrowStatus::Refunded),
            v.close(id, escrow.depositor, EscrowStatus::Refunded, Event::EscrowRefunded(id)),
            id,
            EscrowStatus::Refunded,
        );
    }
}

/// Every child that could go with its parent has gone: where `parent_id` has a
/// status in `w`, its listed children that were Active in `v`, require that status
/// and are past their release time are Released in `w`; and so are, under every
/// escrow that was released on the way, those that require it to be Released.
pub open spec fn all_ready_have_gone(v: InvocationView, w: InvocationView, parent_id: u64) -> bool {
    &&& forall|child: u64, escrow: Escrow|
        child != parent_id && is_listed(v, parent_id, child) && #[trigger] v.escrows.contains_pair(
            child,
            Some(escrow),
        ) && escrow.status == EscrowStatus::Active && escrow.required_parent_status
            == ParentStatusRequirement::Status(w.escrows[parent_id]->Some_0.status)
            && escrow.release_time <= v.now ==> w.escrows.contains_pair(
            child,
            Some(Escrow { status: EscrowStatus::Released, ..escrow }),
        )
    &&& forall|parent: u64, child: u64, escrow: Escrow|
        child != parent_id && newly_released(v, w, parent) && #[trigger] is_listed(v, parent, child)
            && #[trigger] v.escrows.contains_pair(child, Some(escrow)) && escrow.status
            == EscrowStatus::Active && escrow.required_parent_status
            == ParentStatusRequirement::Status(EscrowStatus::Released) && escrow.release_time
            <= v.now ==> w.escrows.contains_pair(
            child,
            Some(Escrow { status: EscrowStatus::Released, ..escrow }),
        )
}

/// Where nothing that could go is left, all has gone.
proof fn lemma_settled_means_gone(
    v: InvocationView,
    w: InvocationView,
    start: InvocationView,
    parent_id: u64,
)
    requires
        only_releases(start, w),
        start.now == v.now,
        v.escrows.dom() == start.escrows.dom(),
        forall|id: u64| #[trigger]
            v.escrows.contains_key(id) && id != parent_id ==> start.escrows[id] == v.escrows[id],
        settled(w, v.children[parent_id], w.escrows[parent_id]->Some_0.status),
        forall|id: u64| #[trigger]
            newly_released(v, w, id) ==> settled(w, v.children[id], EscrowStatus::Released),
    ensures
        all_ready_have_gone(v, w, parent_id),
{
    let status = w.escrows[parent_id]->Some_0.status;
    assert forall|child: u64, escrow: Escrow|
        child != parent_id && is_listed(v, parent_id, child) && #[trigger] v.escrows.contains_pair(
            child,
            Some(escrow),
        ) && escrow.status == EscrowStatus::Active && escrow.required_parent_status
            == ParentStatusRequirement::Status(status) && escrow.release_time
            <= v.now implies w.escrows.contains_pair(
        child,
        Some(Escrow { status: EscrowStatus::Released, ..escrow }),
    ) by {
        let i = v.children[parent_id].index_of(child);
        assert(v.children[parent_id][i] == child);
        assert(start.escrows.contains_key(child));
    }
    assert forall|parent: u64, child: u64, escrow: Escrow|
        child != parent_id && newly_released(v, w, parent) && #[trigger] is_listed(v, parent, child)
            && #[trigger] v.escrows.contains_pair(child, Some(escrow)) && escrow.status
            == EscrowStatus::Active && escrow.required_parent_status
            == ParentStatusRequirement::Status(EscrowStatus::Released) && escrow.release_time
            <= v.now implies w.escrows.contains_pair(
        child,
        Some(Escrow { status: EscrowStatus::Released, ..escrow }),
    ) by {
        let i = v.children[parent].index_of(child);
        assert(v.children[parent][i] == child);
        assert(start.escrows.contains_key(child));
    }
}

/// A release, a refund and a trigger take every child along that can go: none is
/// left behind that is Active, requires the status that its parent has after the
/// call, and whose release time is now or earlier.
pub proof fn law_no_ready_child_is_left_behind(v: InvocationView, id: u64, escrow: Escrow)
    requires
        v.finite(),
        v.escrows.contains_pair(id, Some(escrow)),
    ensures
        v.release(id) matches Ok(w) ==> all_ready_have_gone(v, w, id),
        v.refund(id) matches Ok(w) ==> all_ready_have_gone(v, w, id),
        v.trigger_children(id) matches Ok(w) ==> all_ready_have_gone(v, w, id),
{
    law_closing_leaves_nothing_due(v, id);
    if let Ok(w) = v.release(id) {
        let start = v.pay_out(id);
        lemma_cascade_only_releases(start, waiting(v.children[id], EscrowStatus::Released));
        assert(start.escrows.contains_key(id));
        assert(start.escrows.dom() =~= v.escrows.dom());
        lemma_settled_means_gone(v, w, start, id);
    }
    if let Ok(w) = v.refund(id) {
        let start = v.close(
            id,
            escrow.depositor,
            EscrowStatus::Refunded,
            Event::EscrowRefunded(id),
        );
        lemma_cascade_only_releases(start, waiting(v.children[id], EscrowStatus::Refunded));
        assert(start.escrows.contains_key(id));
        assert(start.escrows.dom() =~= v.escrows.dom());
        lemma_settled_means_gone(v, w, start, id);
    }
    if let Ok(w) = v.trigger_children(id) {
        law_trigger_leaves_nothing_due(v, id, escrow.status);
        lemma_cascade_only_releases(v, waiting(v.children[id], escrow.status));
        if w.escrows[id]->Some_0.status != escrow.status {
            assert(newly_released(v, w, id));
        }
        lemma_settled_means_gone(v, w, v, id);
    }
}

/// Triggering the children of a parent a second time changes nothing.
pub proof fn law_triggering_again_changes_nothing(v: InvocationView, parent_id: u64)
    requires
        v.finite(),
        v.trigger_children(parent_id) is Ok,
    ensures
        v.trigger_children(parent_id)->Ok_0.trigger_children(parent_id) == v.trigger_children(
            parent_id,
        ),
{
    if v.escrows[parent_id] is Some {
        let w = v.trigger_children(parent_id)->Ok_0;
        let before = v.escrows[parent_id]->Some_0.status;
        let ids = v.children[parent_id];
        lemma_cascade_only_releases(v, waiting(ids, before));
        law_trigger_leaves_nothing_due(v, parent_id, before);
        let status = w.escrows[parent_id]->Some_0.status;
        if status != before {
            assert(newly_released(v, w, parent_id));
        }
        let pending = waiting(ids, status);
        assert forall|i: int| 0 <= i < pending.len() implies w.escrows.contains_key(
            #[trigger] pending[i].id,
        ) && !w.is_due(pending[i]) by {
            assert(w.escrows.contains_key(ids[i]));
        }
        lemma_nothing_due_nothing_done(w, pending);
    }
}

} // verus!
