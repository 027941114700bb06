//! How escrows hang together: ids, parents and children.

use vstd::prelude::*;

use crate::invocation::{EscrowError, Event, Halt, InvocationView};
use crate::laws::calls::Call;
use crate::laws::cascade::newly_released;
use crate::laws::lifecycle::{lemma_cascade_only_releases, only_releases};
use crate::model::{waiting, Pending, MAX_HOPS};
use crate::types::{Address, Escrow, EscrowStatus, ParentStatusRequirement};

verus! {

/// The stored escrow `id` is in order: its id has been allocated, its amount is
/// positive, its parent is older, and it is gated exactly if it has a parent.
pub open spec fn escrow_in_order(v: InvocationView, id: u64, escrow: Escrow) -> bool {
    &&& 1 <= id <= v.count()
    &&& escrow.amount > 0
    &&& escrow.parent_escrow_id < id
    &&& escrow.parent_escrow_id == 0 <==> escrow.required_parent_status
        == ParentStatusRequirement::Unconstrained
}

/// The list of the children of `parent_id` is in order: oldest first, none of
/// them twice, each allocated and younger than the parent.
pub open spec fn list_in_order(v: InvocationView, parent_id: u64) -> bool {
    let ids = v.children[parent_id];
    &&& forall|i: int| 0 <= i < ids.len() ==> parent_id < #[trigger] ids[i] <= v.count()
    &&& forall|i: int, j: int| 0 <= i < j < ids.len() ==> ids[i] < ids[j]
    &&& parent_id == 0 ==> ids.len() == 0
}

/// The escrow `id` is stored, as a child of `parent_id`.
pub open spec fn is_child(v: InvocationView, parent_id: u64, id: u64) -> bool {
    v.stored(id) matches Some(escrow) && escrow.parent_escrow_id == parent_id
}

/// The contract's entries are in order, as far as they are loaded: every escrow
/// and every list is, and the lists name exactly the children.
pub open spec fn well_formed(v: InvocationView) -> bool {
    &&& forall|id: u64| (#[trigger] v.stored(id)) matches Some(escrow) ==> escrow_in_order(
        v,
        id,
        escrow,
    )
    &&& forall|parent_id: u64| #[trigger]
        v.children.contains_key(parent_id) ==> list_in_order(v, parent_id)
    &&& forall|parent_id: u64, id: u64|
        #![trigger v.children[parent_id].contains(id)]
        v.children.contains_key(parent_id) && v.children[parent_id].contains(id)
            && v.escrows.contains_key(id) ==> is_child(v, parent_id, id)
    &&& forall|id: u64|
        (#[trigger] v.stored(id)) matches Some(escrow) ==> escrow.parent_escrow_id != 0
            && v.children.contains_key(escrow.parent_escrow_id)
            ==> v.children[escrow.parent_escrow_id].contains(id)
    &&& forall|id: u64|
        (#[trigger] v.stored_commitment(id)) is Some ==> 1 <= id <= v.commitments_made()
}

/// Before anything is stored, everything is in order.
pub proof fn law_a_new_contract_is_well_formed(v: InvocationView)
    requires
        forall|id: u64| v.stored(id) is None,
        forall|id: u64| v.stored_commitment(id) is None,
        forall|id: u64| #[trigger] v.children.contains_key(id) ==> v.children[id].len() == 0,
    ensures
        well_formed(v),
{
}

/// In a well-formed state a new id is never taken.
pub proof fn law_new_ids_are_free(v: InvocationView, call: Call)
    requires
        well_formed(v),
    ensures
        v.ids_free_for(call),
{
}

/// Changing the status of stored escrows keeps the state well-formed.
proof fn lemma_statuses_do_not_matter(v: InvocationView, w: InvocationView)
    requires
        well_formed(v),
        w.escrow_count == v.escrow_count,
        w.commitment_count == v.commitment_count,
        w.children == v.children,
        w.commitments == v.commitments,
        w.escrows.dom() == v.escrows.dom(),
        forall|id: u64| #[trigger]
            v.escrows.contains_key(id) ==> {
                ||| w.escrows[id] == v.escrows[id]
                ||| v.escrows[id] is Some && w.escrows[id] is Some && w.escrows[id]->Some_0
                    == Escrow { status: w.escrows[id]->Some_0.status, ..v.escrows[id]->Some_0 }
            },
    ensures
        well_formed(w),
{
    assert forall|id: u64| (#[trigger] w.stored(id)) matches Some(escrow) implies escrow_in_order(
        w,
        id,
        w.stored(id)->Some_0,
    ) && (w.stored(id)->Some_0.parent_escrow_id != 0 && w.children.contains_key(
        w.stored(id)->Some_0.parent_escrow_id,
    ) ==> w.children[w.stored(id)->Some_0.parent_escrow_id].contains(id)) by {
        assert(v.escrows.contains_key(id));
        assert(v.stored(id) is Some);
    }
    assert forall|parent_id: u64, id: u64|
        #![trigger w.children[parent_id].contains(id)]
        w.children.contains_key(parent_id) && w.children[parent_id].contains(id)
            && w.escrows.contains_key(id) implies is_child(w, parent_id, id) by {
        assert(v.escrows.contains_key(id));
        assert(v.children[parent_id].contains(id));
        assert(v.stored(id) is Some);
    }
    assert forall|parent_id: u64| #[trigger] w.children.contains_key(parent_id) implies list_in_order(
        w,
        parent_id,
    ) by {
        assert(v.children.contains_key(parent_id));
    }
    assert forall|id: u64| (#[trigger] w.stored_commitment(id)) is Some implies 1 <= id
        <= w.commitments_made() by {
        assert(v.stored_commitment(id) is Some);
    }
}

/// Every call keeps the state well-formed. The one exception is to initialize
/// the contract again once escrows have been created, which starts the ids over.
pub proof fn law_calls_keep_well_formed(v: InvocationView, call: Call)
    requires
        v.finite(),
        well_formed(v),
        v.apply(call) is Ok,
        call is Initialize ==> v.count() == 0,
    ensures
        well_formed(v.apply(call)->Ok_0),
{
    let w = v.apply(call)->Ok_0;
    match call {
        Call::Initialize { .. } => {
            assert forall|id: u64| w.stored(id) is None by {
                assert(v.stored(id) is None);
            }
            assert forall|id: u64| w.children.contains_key(id) implies w.children[id].len() == 0 by {
                assert(list_in_order(v, id));
                if w.children[id].len() > 0 {
                    assert(v.children[id][0] <= v.count());
                }
            }
            assert forall|id: u64| (#[trigger] w.stored_commitment(id)) is Some implies 1 <= id
                <= w.commitments_made() by {
                assert(v.stored_commitment(id) is Some);
            }
            assert forall|parent_id: u64, id: u64|
                #![trigger w.children[parent_id].contains(id)]
                w.children.contains_key(parent_id) implies !w.children[parent_id].contains(id) by {}
        },
        Call::CreateEscrow { .. } => {
            lemma_creating_keeps_well_formed(v, w);
        },
        Call::CreateChildEscrow { parent_id, .. } => {
            assert(v.stored(parent_id) is Some);
            lemma_creating_keeps_well_formed(v, w);
        },
        Call::Release { id } => {
            let start = v.pay_out(id);
            lemma_cascade_only_releases(
                start,
                waiting(v.children[id], EscrowStatus::Released),
            );
            assert(start.escrows.dom() =~= v.escrows.dom());
            lemma_statuses_do_not_matter(v, w);
        },
        Call::Refund { id } => {
            let start = v.close(
                id,
                v.escrows[id]->Some_0.depositor,
                EscrowStatus::Refunded,
                Event::EscrowRefunded(id),
            );
            lemma_cascade_only_releases(
                start,
                waiting(v.children[id], EscrowStatus::Refunded),
            );
            assert(start.escrows.dom() =~= v.escrows.dom());
            lemma_statuses_do_not_matter(v, w);
        },
        Call::Dispute { id } => {
            assert(w.escrows.dom() =~= v.escrows.dom());
            lemma_statuses_do_not_matter(v, w);
        },
        Call::TriggerChildren { parent_id } => {
            if v.escrows[parent_id] is Some {
                lemma_cascade_only_releases(
                    v,
                    waiting(
                        v.children[parent_id],
                        v.escrows[parent_id]->Some_0.status,
                    ),
                );
                lemma_statuses_do_not_matter(v, w);
            }
        },
        Call::CreateCommitmentEscrow { .. } => {
            assert forall|id: u64| (#[trigger] w.stored_commitment(id)) is Some implies 1 <= id
                <= w.commitments_made() by {
                assert(id != w.commitments_made() ==> v.stored_commitment(id) is Some);
            }
            lemma_commitments_aside(v, w);
        },
        Call::RevealAndRelease { .. } | Call::RefundCommitmentEscrow { .. } => {
            assert forall|id: u64| (#[trigger] w.stored_commitment(id)) is Some implies 1 <= id
                <= w.commitments_made() by {
                assert(v.stored_commitment(id) is Some);
            }
            lemma_commitments_aside(v, w);
        },
    }
}

/// Calls on commitment escrows keep the state well-formed.
proof fn lemma_commitments_aside(v: InvocationView, w: InvocationView)
    requires
        well_formed(v),
        w.escrow_count == v.escrow_count,
        w.children == v.children,
        w.escrows == v.escrows,
        forall|id: u64|
            (#[trigger] w.stored_commitment(id)) is Some ==> 1 <= id <= w.commitments_made(),
    ensures
        well_formed(w),
{
    assert forall|id: u64| (#[trigger] w.stored(id)) matches Some(escrow) implies escrow_in_order(
        w,
        id,
        w.stored(id)->Some_0,
    ) && (w.stored(id)->Some_0.parent_escrow_id != 0 && w.children.contains_key(
        w.stored(id)->Some_0.parent_escrow_id,
    ) ==> w.children[w.stored(id)->Some_0.parent_escrow_id].contains(id)) by {
        assert(v.stored(id) is Some);
    }
    assert forall|parent_id: u64, id: u64|
        #![trigger w.children[parent_id].contains(id)]
        w.children.contains_key(parent_id) && w.children[parent_id].contains(id)
            && w.escrows.contains_key(id) implies is_child(w, parent_id, id) by {
        assert(v.children[parent_id].contains(id));
        assert(v.stored(id) is Some);
    }
    assert forall|parent_id: u64| #[trigger] w.children.contains_key(parent_id) implies list_in_order(
        w,
        parent_id,
    ) by {
        assert(v.children.contains_key(parent_id));
    }
}

/// Adding the escrow under the next id, and to the list of its parent if it has
/// one, keeps the state well-formed.
proof fn lemma_creating_keeps_well_formed(v: InvocationView, w: InvocationView)
    requires
        well_formed(v),
        v.count() < u64::MAX,
        w.escrow_count == Some((v.count() + 1) as u64),
        w.commitment_count == v.commitment_count,
        w.commitments == v.commitments,
        w.stored(w.count()) matches Some(escrow) && w.escrows == v.escrows.insert(
            w.count(),
            Some(escrow),
        ) && escrow.amount > 0 && escrow.parent_escrow_id < w.count() && (escrow.parent_escrow_id
            == 0 <==> escrow.required_parent_status == ParentStatusRequirement::Unconstrained) && (
        if escrow.parent_escrow_id == 0 {
            w.children == v.children
        } else {
            v.children.contains_key(escrow.parent_escrow_id) && w.children == v.children.insert(
                escrow.parent_escrow_id,
                v.children[escrow.parent_escrow_id].push(w.count()),
            )
        }),
    ensures
        well_formed(w),
{
    let new_id = w.count();
    let escrow = w.stored(new_id)->Some_0;
    let parent = escrow.parent_escrow_id;
    assert forall|p: u64| #[trigger] w.children.contains_key(p) implies list_in_order(w, p) by {
        assert(list_in_order(v, p));
    }
    assert forall|p: u64, id: u64|
        #![trigger w.children[p].contains(id)]
        w.children.contains_key(p) && w.children[p].contains(id) && w.escrows.contains_key(
            id,
        ) implies is_child(w, p, id) by {
        assert(list_in_order(w, p));
        assert(list_in_order(v, p));
        let i = choose|i: int| 0 <= i < w.children[p].len() && w.children[p][i] == id;
        if id == new_id {
            if p != parent || parent == 0 {
                assert(v.children[p][i] <= v.count());
            }
        } else {
            assert(i < v.children[p].len());
            assert(v.children[p][i] == id);
            assert(v.children[p].contains(id));
            assert(v.stored(id) is Some);
        }
    }
    assert forall|id: u64| (#[trigger] w.stored(id)) matches Some(e) implies escrow_in_order(
        w,
        id,
        w.stored(id)->Some_0,
    ) && (w.stored(id)->Some_0.parent_escrow_id != 0 && w.children.contains_key(
        w.stored(id)->Some_0.parent_escrow_id,
    ) ==> w.children[w.stored(id)->Some_0.parent_escrow_id].contains(id)) by {
        let p = w.stored(id)->Some_0.parent_escrow_id;
        if id == new_id {
            if parent != 0 {
                let list = w.children[parent];
                assert(list[list.len() - 1] == new_id);
            }
        } else {
            assert(v.stored(id) is Some);
            if p != 0 && v.children.contains_key(p) {
                assert(v.children[p].contains(id));
                let i = choose|i: int| 0 <= i < v.children[p].len() && v.children[p][i] == id;
                assert(w.children[p][i] == id);
            }
        }
    }
    assert forall|id: u64| (#[trigger] w.stored_commitment(id)) is Some implies 1 <= id
        <= w.commitments_made() by {
        assert(v.stored_commitment(id) is Some);
    }
}

/// The `k`-th escrow on the way up from `start_id`, counting `start_id` as 0.
pub open spec fn nth_ancestor(v: InvocationView, start_id: u64, k: nat) -> Option<u64>
    decreases k,
{
    if k == 0 {
        Some(start_id)
    } else {
        match v.stored(start_id) {
            Some(escrow) => if escrow.parent_escrow_id == 0 {
                None
            } else {
                nth_ancestor(v, escrow.parent_escrow_id, (k - 1) as nat)
            },
            None => None,
        }
    }
}

/// The search for an ancestor answers yes exactly if the escrow is one of the
/// first ancestors, as many as it looks at.
pub proof fn law_ancestor_search_is_exact(
    v: InvocationView,
    start_id: u64,
    ancestor_id: u64,
    hops: nat,
)
    ensures
        v.is_ancestor(start_id, ancestor_id, hops) matches Ok(found) ==> (found <==> exists|k: nat|
            1 <= k <= hops && #[trigger] nth_ancestor(v, start_id, k) == Some(ancestor_id)),
    decreases hops,
{
    if hops > 0 && v.stored(start_id) is Some {
        let parent = v.stored(start_id)->Some_0.parent_escrow_id;
        if parent != 0 {
            assert(nth_ancestor(v, parent, 0) == Some(parent));
            assert(nth_ancestor(v, start_id, 1) == nth_ancestor(v, parent, 0));
            if parent != ancestor_id {
                let fewer = (hops - 1) as nat;
                law_ancestor_search_is_exact(v, parent, ancestor_id, fewer);
                if exists|k: nat|
                    1 <= k <= fewer && #[trigger] nth_ancestor(v, parent, k) == Some(
                        ancestor_id,
                    ) {
                    let k = choose|k: nat|
                        1 <= k <= fewer && #[trigger] nth_ancestor(v, parent, k) == Some(
                            ancestor_id,
                        );
                    assert(nth_ancestor(v, start_id, k + 1) == Some(ancestor_id));
                }
                if exists|k: nat|
                    1 <= k <= hops && #[trigger] nth_ancestor(v, start_id, k) == Some(
                        ancestor_id,
                    ) {
                    let k = choose|k: nat|
                        1 <= k <= hops && #[trigger] nth_ancestor(v, start_id, k) == Some(
                            ancestor_id,
                        );
                    assert(nth_ancestor(v, parent, (k - 1) as nat) == Some(ancestor_id));
                }
            }
        }
    }
}

/// The search for an ancestor refuses nothing.
proof fn lemma_search_only_loads(v: InvocationView, start_id: u64, ancestor_id: u64, hops: nat)
    ensures
        v.is_ancestor(start_id, ancestor_id, hops) matches Err(halt) ==> halt is Load,
    decreases hops,
{
    if hops > 0 && v.stored(start_id) is Some {
        lemma_search_only_loads(
            v,
            v.stored(start_id)->Some_0.parent_escrow_id,
            ancestor_id,
            (hops - 1) as nat,
        );
    }
}

/// Where an escrow is one of the first ancestors, the search finds it, whatever
/// else is loaded.
proof fn lemma_search_finds_ancestors(
    v: InvocationView,
    start_id: u64,
    ancestor_id: u64,
    k: nat,
    hops: nat,
)
    requires
        1 <= k <= hops,
        nth_ancestor(v, start_id, k) == Some(ancestor_id),
    ensures
        v.is_ancestor(start_id, ancestor_id, hops) == Ok::<bool, Halt>(true),
    decreases hops,
{
    let parent = v.stored(start_id)->Some_0.parent_escrow_id;
    if k == 1 {
        assert(nth_ancestor(v, parent, 0) == Some(parent));
    } else if parent != ancestor_id {
        lemma_search_finds_ancestors(v, parent, ancestor_id, (k - 1) as nat, (hops - 1) as nat);
    }
}

/// A child that would depend on itself is refused as circular: that is, where the
/// id that it would get is its parent's, or that of one of the first ancestors of
/// its parent.
pub proof fn law_a_circular_child_is_refused(
    v: InvocationView,
    depositor: Address,
    beneficiary: Address,
    token: Address,
    amount: i128,
    release_time: u64,
    parent_id: u64,
    required_status: EscrowStatus,
    k: nat,
)
    requires
        v.authorized.contains(depositor),
        amount > 0,
        v.stored(parent_id) is Some,
        v.count() < u64::MAX,
        0 <= k <= MAX_HOPS,
        nth_ancestor(v, parent_id, k) == Some((v.count() + 1) as u64),
    ensures
        v.create_child_escrow(
            depositor,
            beneficiary,
            token,
            amount,
            release_time,
            parent_id,
            required_status,
        ) == Err::<(InvocationView, u64), Halt>(Halt::Reject(EscrowError::CircularDependency)),
{
    let id = (v.count() + 1) as u64;
    let counted = v.store_escrow_count(id);
    if k > 0 {
        lemma_same_ancestors(v, counted, parent_id, k);
        lemma_search_finds_ancestors(counted, parent_id, id, k, MAX_HOPS as nat);
    }
}

/// No child is its own ancestor, as far as the search looks: one that is created
/// is neither its own parent nor among the first ancestors of its parent.
pub proof fn law_no_child_is_its_own_ancestor(
    v: InvocationView,
    depositor: Address,
    beneficiary: Address,
    token: Address,
    amount: i128,
    release_time: u64,
    parent_id: u64,
    required_status: EscrowStatus,
    k: nat,
)
    requires
        0 <= k <= MAX_HOPS,
    ensures
        v.create_child_escrow(
            depositor,
            beneficiary,
            token,
            amount,
            release_time,
            parent_id,
            required_status,
        ) matches Ok((_, id)) ==> nth_ancestor(v, parent_id, k) != Some(id),
{
    if v.count() < u64::MAX {
        let id = (v.count() + 1) as u64;
        let counted = v.store_escrow_count(id);
        lemma_same_ancestors(v, counted, parent_id, k);
        law_ancestor_search_is_exact(counted, parent_id, id, MAX_HOPS as nat);
    }
}

proof fn lemma_same_ancestors(v: InvocationView, w: InvocationView, start_id: u64, k: nat)
    requires
        v.escrows == w.escrows,
    ensures
        nth_ancestor(v, start_id, k) == nth_ancestor(w, start_id, k),
    decreases k,
{
    if k > 0 && v.stored(start_id) is Some && v.stored(start_id)->Some_0.parent_escrow_id != 0 {
        lemma_same_ancestors(v, w, v.stored(start_id)->Some_0.parent_escrow_id, (k - 1) as nat);
    }
}

/// In a well-formed state ancestors are older, so there are no cycles.
pub proof fn law_ancestors_are_older(v: InvocationView, start_id: u64, k: nat)
    requires
        well_formed(v),
        k >= 1,
    ensures
        nth_ancestor(v, start_id, k) matches Some(id) ==> 1 <= id < start_id,
    decreases k,
{
    if v.stored(start_id) is Some {
        let parent = v.stored(start_id)->Some_0.parent_escrow_id;
        if k > 1 && parent != 0 {
            law_ancestors_are_older(v, parent, (k - 1) as nat);
        } else if parent != 0 {
            assert(nth_ancestor(v, parent, 0) == Some(parent));
        }
    }
}

/// In a well-formed state no child is refused for a circular dependency.
pub proof fn law_no_false_alarms(
    v: InvocationView,
    depositor: Address,
    beneficiary: Address,
    token: Address,
    amount: i128,
    release_time: u64,
    parent_id: u64,
    required_status: EscrowStatus,
)
    requires
        well_formed(v),
    ensures
        v.create_child_escrow(
            depositor,
            beneficiary,
            token,
            amount,
            release_time,
            parent_id,
            required_status,
        ) != Err::<(InvocationView, u64), Halt>(Halt::Reject(EscrowError::CircularDependency)),
{
    if v.count() < u64::MAX && v.stored(parent_id) is Some {
        let id = (v.count() + 1) as u64;
        let counted = v.store_escrow_count(id);
        law_ancestor_search_is_exact(counted, parent_id, id, MAX_HOPS as nat);
        assert forall|k: nat| 1 <= k <= MAX_HOPS implies #[trigger] nth_ancestor(
            counted,
            parent_id,
            k,
        ) != Some(id) by {
            lemma_same_ancestors(v, counted, parent_id, k);
            law_ancestors_are_older(v, parent_id, k);
        }
        assert(parent_id <= v.count());
        lemma_search_only_loads(counted, parent_id, id, MAX_HOPS as nat);
    }
}

/// Creating a child succeeds only if the depositor has authorized it, the amount
/// is positive, the parent exists and there is a next id; and if so, in a
/// well-formed state, nothing stands in the way but entries that are not loaded.
pub proof fn law_child_creation_succeeds_exactly_when_due(
    v: InvocationView,
    depositor: Address,
    beneficiary: Address,
    token: Address,
    amount: i128,
    release_time: u64,
    parent_id: u64,
    required_status: EscrowStatus,
)
    requires
        well_formed(v),
    ensures
        ({
            let creatable = v.authorized.contains(depositor) && amount > 0 && v.stored(parent_id)
                is Some && v.count() < u64::MAX;
            let created = v.create_child_escrow(
                depositor,
                beneficiary,
                token,
                amount,
                release_time,
                parent_id,
                required_status,
            );
            &&& created is Ok ==> creatable
            &&& creatable && created is Err ==> created->Err_0 is Load
        }),
{
    law_no_false_alarms(
        v,
        depositor,
        beneficiary,
        token,
        amount,
        release_time,
        parent_id,
        required_status,
    );
    if v.count() < u64::MAX {
        let id = (v.count() + 1) as u64;
        lemma_search_only_loads(v.store_escrow_count(id), parent_id, id, MAX_HOPS as nat);
    }
}

/// A child that waits has a parent that lists it, whose status is the one under
/// which it waits and will stay so while escrows younger than `root` are
/// released.
spec fn waits_rightly(v: InvocationView, child: Pending, root: u64) -> bool {
    &&& child.id > root
    &&& exists|parent: u64| #[trigger]
        v.children.contains_key(parent) && v.children[parent].contains(child.id) && (v.stored(
            parent,
        ) matches Some(escrow) && escrow.status == child.parent_status && (escrow.status
            != EscrowStatus::Active || parent == root))
}

/// A cascade from `root` touches only younger escrows, and each escrow that it
/// releases has a parent with the status that it requires, also afterwards.
proof fn lemma_cascade_respects_gates(v: InvocationView, pending: Seq<Pending>, root: u64)
    requires
        v.finite(),
        well_formed(v),
        v.cascade(pending) is Ok,
        forall|i: int| 0 <= i < pending.len() ==> waits_rightly(v, #[trigger] pending[i], root),
    ensures
        forall|id: u64| #[trigger]
            v.escrows.contains_key(id) && id <= root ==> v.cascade(pending)->Ok_0.escrows[id]
                == v.escrows[id],
        forall|id: u64| #[trigger]
            newly_released(v, v.cascade(pending)->Ok_0, id) ==> gate_was_open(
                v,
                v.cascade(pending)->Ok_0,
                id,
            ),
    decreases v.active_ids().len(), pending.len(),
{
    lemma_cascade_only_releases(v, pending);
    if pending.len() > 0 {
        let child = pending.first();
        let rest = pending.drop_first();
        let w = v.cascade(pending)->Ok_0;
        assert(waits_rightly(v, pending[0], root));
        assert forall|i: int| 0 <= i < rest.len() implies waits_rightly(
            v,
            #[trigger] rest[i],
            root,
        ) by {
            assert(waits_rightly(v, pending[i + 1], root));
        }
        if !v.is_due(child) {
            lemma_cascade_respects_gates(v, rest, root);
        } else {
            v.lemma_pay_out_ends_activity(child.id);
            let next = v.pay_out(child.id);
            let kids = v.children[child.id];
            let then = waiting(kids, EscrowStatus::Released) + rest;
            assert(next.escrows.dom() =~= v.escrows.dom());
            lemma_statuses_do_not_matter(v, next);
            assert forall|i: int| 0 <= i < then.len() implies waits_rightly(
                next,
                #[trigger] then[i],
                root,
            ) by {
                if i < kids.len() {
                    assert(list_in_order(v, child.id));
                    assert(then[i].id == kids[i]);
                    assert(next.children.contains_key(child.id));
                    assert(next.children[child.id].contains(kids[i]));
                } else {
                    let other = rest[i - kids.len()];
                    assert(then[i] == other);
                    assert(waits_rightly(v, other, root));
                    let parent = choose|parent: u64| #[trigger]
                        v.children.contains_key(parent) && v.children[parent].contains(other.id)
                            && (v.stored(parent) matches Some(escrow) && escrow.status
                            == other.parent_status && (escrow.status != EscrowStatus::Active
                            || parent == root));
                    assert(parent != child.id);
                    assert(next.children.contains_key(parent));
                    assert(next.stored(parent) == v.stored(parent));
                }
            }
            lemma_cascade_only_releases(next, then);
            lemma_cascade_respects_gates(next, then, root);
            assert forall|id: u64| #[trigger] v.escrows.contains_key(id) && id
                <= root implies w.escrows[id] == v.escrows[id] by {
                assert(next.escrows.contains_key(id));
            }
            assert forall|id: u64| #[trigger] newly_released(v, w, id) implies gate_was_open(
                v,
                w,
                id,
            ) by {
                if id == child.id {
                    let parent = choose|parent: u64| #[trigger]
                        v.children.contains_key(parent) && v.children[parent].contains(child.id)
                            && (v.stored(parent) matches Some(escrow) && escrow.status
                            == child.parent_status && (escrow.status != EscrowStatus::Active
                            || parent == root));
                    assert(v.children[parent].contains(child.id));
                    assert(v.stored(child.id) is Some);
                    assert(v.stored(child.id)->Some_0.parent_escrow_id == parent);
                    assert(v.escrows.contains_key(parent));
                    assert(w.escrows[parent] == v.escrows[parent]);
                } else {
                    assert(newly_released(next, w, id));
                    assert(gate_was_open(next, w, id));
                    assert(next.stored(id) == v.stored(id));
                }
            }
        }
    }
}

/// If the escrow `id` requires a status of its parent, the parent has it in `w`.
pub open spec fn gate_was_open(v: InvocationView, w: InvocationView, id: u64) -> bool {
    v.stored(id) matches Some(escrow) ==> (escrow.required_parent_status
        matches ParentStatusRequirement::Status(required) ==> (w.stored(escrow.parent_escrow_id)
        matches Some(parent) && parent.status == required))
}

/// A child is never released while its parent does not have the status that the
/// child requires: whichever call releases a child, its parent has that status
/// then.
pub proof fn law_children_wait_for_their_parents(v: InvocationView, call: Call, id: u64)
    requires
        v.finite(),
        well_formed(v),
        v.apply(call) is Ok,
        newly_released(v, v.apply(call)->Ok_0, id),
    ensures
        gate_was_open(v, v.apply(call)->Ok_0, id),
{
    let w = v.apply(call)->Ok_0;
    match call {
        Call::Release { id: root } => {
            lemma_trigger_respects_gates(v, v.pay_out(root), root, EscrowStatus::Released);
            if id == root {
                let parent_id = v.stored(id)->Some_0.parent_escrow_id;
                assert(v.stored(id)->Some_0.parent_escrow_id < id);
                assert(v.escrows.contains_key(parent_id) ==> w.escrows[parent_id]
                    == v.escrows[parent_id]);
                assert(v.escrows.contains_key(parent_id) ==> w.escrows.contains_key(parent_id));
            }
        },
        Call::Refund { id: root } => {
            lemma_trigger_respects_gates(
                v,
                v.close(
                    root,
                    v.escrows[root]->Some_0.depositor,
                    EscrowStatus::Refunded,
                    Event::EscrowRefunded(root),
                ),
                root,
                EscrowStatus::Refunded,
            );
        },
        Call::TriggerChildren { parent_id: root } => {
            if v.escrows[root] is Some {
                assert(v.escrows.insert(root, v.escrows[root]) =~= v.escrows);
                lemma_trigger_respects_gates(v, v, root, v.escrows[root]->Some_0.status);
                assert(w.escrows[root] == v.escrows[root]);
            }
        },
        _ => {},
    }
}

/// The same for the trigger that follows a change of the status of `root`.
proof fn lemma_trigger_respects_gates(
    v: InvocationView,
    start: InvocationView,
    root: u64,
    status: EscrowStatus,
)
    requires
        v.finite(),
        well_formed(v),
        v.stored(root) matches Some(escrow) && start == (InvocationView {
            escrows: v.escrows.insert(root, Some(Escrow { status, ..escrow })),
            balance: start.balance,
            actions: start.actions,
            ..v
        }),
        start.trigger(root, status) is Ok,
    ensures
        forall|id: u64|
            id <= root && v.escrows.contains_key(id) ==> #[trigger] start.trigger(
                root,
                status,
            )->Ok_0.escrows[id] == start.escrows[id],
        forall|id: u64|
            id != root && #[trigger] newly_released(v, start.trigger(root, status)->Ok_0, id)
                ==> gate_was_open(v, start.trigger(root, status)->Ok_0, id),
        only_releases(start, start.trigger(root, status)->Ok_0),
{
    let ids = v.children[root];
    let pending = waiting(ids, status);
    let w = start.trigger(root, status)->Ok_0;
    assert(start.escrows.dom() =~= v.escrows.dom());
    lemma_statuses_do_not_matter(v, start);
    lemma_cascade_only_releases(start, pending);
    assert(list_in_order(start, root));
    assert forall|i: int| 0 <= i < pending.len() implies waits_rightly(
        start,
        #[trigger] pending[i],
        root,
    ) by {
        assert(pending[i].id == ids[i]);
        assert(start.children.contains_key(root));
        assert(start.children[root].contains(ids[i]));
    }
    lemma_cascade_respects_gates(start, pending, root);
    assert forall|id: u64| id <= root && v.escrows.contains_key(id) implies #[trigger] w.escrows[id]
        == start.escrows[id] by {
        assert(start.escrows.contains_key(id));
    }
    assert forall|id: u64| id != root && #[trigger] newly_released(v, w, id) implies gate_was_open(
        v,
        w,
        id,
    ) by {
        assert(newly_released(start, w, id));
        assert(start.stored(id) == v.stored(id));
    }
}

} // verus!
