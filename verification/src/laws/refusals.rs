//! What each call is answered, for every state: which refusal comes first, and when
//! there is none.

use vstd::prelude::*;

use crate::invocation::{EscrowError, Event, Halt, InvocationView};
use crate::laws::cascade::{
    law_trigger_succeeds_exactly_when_its_line_is_loaded, lemma_same_needs, line_is_loaded,
    wants_of_line, with_status,
};
use crate::laws::effects::reading;
use crate::model::MAX_HOPS;
use crate::types::{
    Address, CommitmentEscrow, CommitmentEscrowStatus, DataKey, Escrow, EscrowStatus,
    ParentStatusRequirement,
};

verus! {

/// The answer of a call that is refused.
pub open spec fn refused<T>(error: EscrowError) -> Result<T, Halt> {
    Err(Halt::Reject(error))
}

/// The answer of a call that needs an entry.
pub open spec fn wants<T>(key: DataKey) -> Result<T, Halt> {
    Err(Halt::Load(key))
}

/// The answer of a call that needs an authorization.
pub open spec fn needs_consent<T>(address: Address) -> Result<T, Halt> {
    Err(Halt::Authorize(address))
}

/// Calls on an escrow that is not loaded ask for it. On one that is stored nowhere
/// they are refused, but for a trigger, which then has nothing to do.
pub proof fn law_missing_escrows_are_answered_first(v: InvocationView, id: u64)
    ensures
        !v.escrows.contains_key(id) ==> {
            &&& v.release(id) == wants::<InvocationView>(DataKey::Escrow(id))
            &&& v.refund(id) == wants::<InvocationView>(DataKey::Escrow(id))
            &&& v.dispute(id) == wants::<InvocationView>(DataKey::Escrow(id))
            &&& v.trigger_children(id) == wants::<InvocationView>(DataKey::Escrow(id))
        },
        v.escrows.contains_pair(id, None) ==> {
            &&& v.release(id) == refused::<InvocationView>(EscrowError::EscrowNotFound)
            &&& v.refund(id) == refused::<InvocationView>(EscrowError::EscrowNotFound)
            &&& v.dispute(id) == refused::<InvocationView>(EscrowError::EscrowNotFound)
            &&& v.trigger_children(id) == Ok::<InvocationView, Halt>(v)
        },
        !v.commitments.contains_key(id) ==> v.refund_commitment_escrow(id) == wants::<
            InvocationView,
        >(DataKey::CommitmentEscrow(id)),
        v.commitments.contains_pair(id, None) ==> v.refund_commitment_escrow(id) == refused::<
            InvocationView,
        >(EscrowError::CommitmentEscrowNotFound),
{
}

/// The parent of the escrow has the status that the escrow requires, if any.
pub open spec fn gate_is_open(v: InvocationView, escrow: Escrow) -> bool {
    escrow.required_parent_status matches ParentStatusRequirement::Status(required) ==> (
    v.escrows.contains_key(escrow.parent_escrow_id) && (v.escrows[escrow.parent_escrow_id]
        matches Some(parent) && parent.status == required))
}

/// A release is answered, in this order: without the depositor's consent, with a
/// request for it; where the escrow is not Active, or its release time is later
/// than now, or its parent is missing or lacks the status required, with that
/// refusal. Otherwise it succeeds, if all that its trigger has to look at is
/// loaded.
pub proof fn law_what_a_release_is_answered(v: InvocationView, id: u64, escrow: Escrow)
    requires
        v.finite(),
        v.escrows.contains_pair(id, Some(escrow)),
    ensures
        !v.authorized.contains(escrow.depositor) ==> v.release(id) == needs_consent::<
            InvocationView,
        >(escrow.depositor),
        v.authorized.contains(escrow.depositor) ==> {
            &&& escrow.status != EscrowStatus::Active ==> v.release(id) == refused::<
                InvocationView,
            >(EscrowError::EscrowNotActive)
            &&& escrow.status == EscrowStatus::Active && v.now < escrow.release_time ==> v.release(
                id,
            ) == refused::<InvocationView>(EscrowError::ReleaseTimeNotReached)
            &&& escrow.status == EscrowStatus::Active && v.now >= escrow.release_time ==> {
                &&& !gate_is_open(v, escrow) ==> v.release(id) == (if !v.escrows.contains_key(
                    escrow.parent_escrow_id,
                ) {
                    wants::<InvocationView>(DataKey::Escrow(escrow.parent_escrow_id))
                } else if v.escrows[escrow.parent_escrow_id] is None {
                    refused(EscrowError::ParentNotFound)
                } else {
                    refused(EscrowError::ParentStatusNotReached)
                })
                &&& gate_is_open(v, escrow) ==> {
                    let closed = with_status(v, id, escrow, EscrowStatus::Released);
                    &&& v.release(id) is Ok <==> line_is_loaded(closed, id, EscrowStatus::Released)
                    &&& v.release(id) matches Err(halt) ==> wants_of_line(
                        closed,
                        id,
                        EscrowStatus::Released,
                        halt,
                    )
                }
            }
        },
{
    let closed = with_status(v, id, escrow, EscrowStatus::Released);
    law_trigger_succeeds_exactly_when_its_line_is_loaded(
        v.pay_out(id),
        id,
        EscrowStatus::Released,
    );
    lemma_same_needs(closed, v.pay_out(id), id, EscrowStatus::Released);
}

/// A refund is answered, in this order: where no administrator is set, with that
/// refusal; without the administrator's consent, with a request for it; where the
/// escrow is neither Active nor Disputed, with that refusal. Otherwise it succeeds,
/// if all that its trigger has to look at is loaded.
pub proof fn law_what_a_refund_is_answered(v: InvocationView, id: u64, escrow: Escrow)
    requires
        v.finite(),
        v.escrows.contains_pair(id, Some(escrow)),
    ensures
        v.admin is None ==> v.refund(id) == refused::<InvocationView>(EscrowError::AdminNotSet),
        v.admin matches Some(admin) ==> {
            &&& !v.authorized.contains(admin) ==> v.refund(id) == needs_consent::<InvocationView>(
                admin,
            )
            &&& v.authorized.contains(admin) ==> {
                &&& escrow.status == EscrowStatus::Released || escrow.status
                    == EscrowStatus::Refunded ==> v.refund(id) == refused::<InvocationView>(
                    EscrowError::NotRefundable,
                )
                &&& escrow.status == EscrowStatus::Active || escrow.status
                    == EscrowStatus::Disputed ==> {
                    let closed = with_status(v, id, escrow, EscrowStatus::Refunded);
                    &&& v.refund(id) is Ok <==> line_is_loaded(closed, id, EscrowStatus::Refunded)
                    &&& v.refund(id) matches Err(halt) ==> wants_of_line(
                        closed,
                        id,
                        EscrowStatus::Refunded,
                        halt,
                    )
                }
            }
        },
{
    let closed = with_status(v, id, escrow, EscrowStatus::Refunded);
    let start = v.close(
        id,
        escrow.depositor,
        EscrowStatus::Refunded,
        Event::EscrowRefunded(id),
    );
    law_trigger_succeeds_exactly_when_its_line_is_loaded(start, id, EscrowStatus::Refunded);
    lemma_same_needs(closed, start, id, EscrowStatus::Refunded);
}

/// A dispute is answered, in this order: without the beneficiary's consent, with a
/// request for it; where the escrow is not Active, with that refusal.
pub proof fn law_what_a_dispute_is_answered(v: InvocationView, id: u64, escrow: Escrow)
    requires
        v.escrows.contains_pair(id, Some(escrow)),
    ensures
        !v.authorized.contains(escrow.beneficiary) ==> v.dispute(id) == needs_consent::<
            InvocationView,
        >(escrow.beneficiary),
        v.authorized.contains(escrow.beneficiary) && escrow.status != EscrowStatus::Active
            ==> v.dispute(id) == refused::<InvocationView>(EscrowError::EscrowNotActive),
        v.authorized.contains(escrow.beneficiary) && escrow.status == EscrowStatus::Active
            ==> v.dispute(id) is Ok,
{
}

/// A trigger on a stored parent is never refused, whatever the parent's status and
/// whoever makes the call: it succeeds exactly if all that it has to look at is
/// loaded.
pub proof fn law_what_a_trigger_is_answered(v: InvocationView, id: u64, parent: Escrow)
    requires
        v.finite(),
        v.escrows.contains_pair(id, Some(parent)),
    ensures
        v.trigger_children(id) is Ok <==> line_is_loaded(v, id, parent.status),
        v.trigger_children(id) matches Err(halt) ==> wants_of_line(v, id, parent.status, halt),
{
    law_trigger_succeeds_exactly_when_its_line_is_loaded(v, id, parent.status);
}

/// Creating an escrow is answered, in this order: without the depositor's consent,
/// with a request for it; where the amount is not positive, or the ids are used
/// up, with that refusal. Otherwise it succeeds.
pub proof fn law_what_a_creation_is_answered(
    v: InvocationView,
    depositor: Address,
    beneficiary: Address,
    token: Address,
    amount: i128,
    release_time: u64,
)
    ensures
        ({
            let answer = v.create_escrow(depositor, beneficiary, token, amount, release_time);
            &&& !v.authorized.contains(depositor) ==> answer == needs_consent::<
                (InvocationView, u64),
            >(depositor)
            &&& v.authorized.contains(depositor) && amount <= 0 ==> answer == refused::<
                (InvocationView, u64),
            >(EscrowError::AmountNotPositive)
            &&& v.authorized.contains(depositor) && amount > 0 ==> {
                &&& reading(v.escrow_count) == u64::MAX ==> answer == refused::<
                    (InvocationView, u64),
                >(EscrowError::IdsExhausted)
                &&& reading(v.escrow_count) < u64::MAX ==> answer is Ok
            }
        }),
{
}

/// Creating a commitment escrow is answered, in this order: without the depositor's
/// consent, with a request for it; where the ids are used up, with that refusal.
/// Otherwise it succeeds, whatever the commitment.
pub proof fn law_what_committing_is_answered(
    v: InvocationView,
    depositor: Address,
    beneficiary: Address,
    token: Address,
    commitment: [u8; 32],
    release_time: u64,
)
    ensures
        ({
            let answer = v.create_commitment_escrow(
                depositor,
                beneficiary,
                token,
                commitment,
                release_time,
            );
            &&& !v.authorized.contains(depositor) ==> answer == needs_consent::<
                (InvocationView, u64),
            >(depositor)
            &&& v.authorized.contains(depositor) ==> {
                &&& reading(v.commitment_count) == u64::MAX ==> answer == refused::<
                    (InvocationView, u64),
                >(EscrowError::IdsExhausted)
                &&& reading(v.commitment_count) < u64::MAX ==> answer is Ok
            }
        }),
{
}

/// Opening a commitment is answered, in this order: without the consent of the
/// depositor named, with a request for it; where the escrow is not loaded, with a
/// request for it; where it is stored nowhere, the amount is not positive, the
/// escrow is not Active, its release time is later than now, or the digest is not
/// the commitment, with that refusal; where the balance is not known, with a
/// request for it; where it is short of the amount, with that refusal. Otherwise it
/// succeeds.
pub proof fn law_what_an_opening_is_answered(
    v: InvocationView,
    depositor: Address,
    id: u64,
    amount: i128,
    digest: Seq<u8>,
    escrow: CommitmentEscrow,
)
    ensures
        ({
            let answer = v.open_commitment(depositor, id, amount, digest);
            &&& !v.authorized.contains(depositor) ==> answer == needs_consent::<InvocationView>(
                depositor,
            )
            &&& v.authorized.contains(depositor) ==> {
                &&& !v.commitments.contains_key(id) ==> answer == wants::<InvocationView>(
                    DataKey::CommitmentEscrow(id),
                )
                &&& v.commitments.contains_pair(id, None) ==> answer == refused::<InvocationView>(
                    EscrowError::CommitmentEscrowNotFound,
                )
                &&& v.commitments.contains_pair(id, Some(escrow)) ==> {
                    &&& amount <= 0 ==> answer == refused::<InvocationView>(
                        EscrowError::AmountNotPositive,
                    )
                    &&& amount > 0 && escrow.status != CommitmentEscrowStatus::Active ==> answer
                        == refused::<InvocationView>(EscrowError::CommitmentEscrowNotActive)
                    &&& amount > 0 && escrow.status == CommitmentEscrowStatus::Active ==> {
                        &&& v.now < escrow.release_time ==> answer == refused::<InvocationView>(
                            EscrowError::ReleaseTimeNotReached,
                        )
                        &&& v.now >= escrow.release_time && digest != escrow.commitment@ ==> answer
                            == refused::<InvocationView>(EscrowError::CommitmentMismatch)
                        &&& v.now >= escrow.release_time && digest == escrow.commitment@ ==> (
                        match v.balance {
                            Some((token, balance)) => if token != escrow.token {
                                answer == Err::<InvocationView, Halt>(Halt::Balance(escrow.token))
                            } else if balance < amount {
                                answer == refused::<InvocationView>(
                                    EscrowError::InsufficientBalance,
                                )
                            } else {
                                answer is Ok
                            },
                            None => answer == Err::<InvocationView, Halt>(
                                Halt::Balance(escrow.token),
                            ),
                        })
                    }
                }
            }
        }),
{
}

/// Refunding a commitment escrow is answered, in this order: where no administrator
/// is set, with that refusal; without the administrator's consent, with a request
/// for it; where the escrow is not Active, with that refusal; where the contract's
/// balance of its token is not known, with a request for it. Otherwise it succeeds,
/// at any time.
pub proof fn law_what_a_commitment_refund_is_answered(
    v: InvocationView,
    id: u64,
    escrow: CommitmentEscrow,
)
    requires
        v.commitments.contains_pair(id, Some(escrow)),
    ensures
        v.admin is None ==> v.refund_commitment_escrow(id) == refused::<InvocationView>(
            EscrowError::AdminNotSet,
        ),
        v.admin matches Some(admin) ==> {
            &&& !v.authorized.contains(admin) ==> v.refund_commitment_escrow(id)
                == needs_consent::<InvocationView>(admin)
            &&& v.authorized.contains(admin) ==> {
                &&& escrow.status != CommitmentEscrowStatus::Active ==> v.refund_commitment_escrow(
                    id,
                ) == refused::<InvocationView>(EscrowError::CommitmentEscrowNotActive)
                &&& escrow.status == CommitmentEscrowStatus::Active ==> (match v.balance {
                    Some((token, _)) => if token == escrow.token {
                        v.refund_commitment_escrow(id) is Ok
                    } else {
                        v.refund_commitment_escrow(id) == Err::<InvocationView, Halt>(
                            Halt::Balance(escrow.token),
                        )
                    },
                    None => v.refund_commitment_escrow(id) == Err::<InvocationView, Halt>(
                        Halt::Balance(escrow.token),
                    ),
                })
            }
        },
{
}

/// `parent` is the parent of the stored escrow `id`.
pub open spec fn is_parent(v: InvocationView, id: u64, parent: u64) -> bool {
    v.escrows.contains_key(id) && (v.escrows[id] matches Some(escrow) && escrow.parent_escrow_id
        == parent && parent != 0)
}

/// The path leads upwards: each escrow on it is the parent of the one before.
pub open spec fn is_way_up(v: InvocationView, path: Seq<u64>) -> bool {
    &&& path.len() > 0
    &&& forall|i: int, j: int|
        0 <= i && j == i + 1 && j < path.len() ==> is_parent(v, #[trigger] path[i], #[trigger] path[j])
}

/// The rest of a way up is one too.
proof fn lemma_rest_of_way(v: InvocationView, path: Seq<u64>)
    requires
        is_way_up(v, path),
        path.len() > 1,
    ensures
        is_parent(v, path[0], path[1]),
        is_way_up(v, path.drop_first()),
{
    let rest = path.drop_first();
    assert forall|i: int, j: int| 0 <= i && j == i + 1 && j < rest.len() implies is_parent(
        v,
        #[trigger] rest[i],
        #[trigger] rest[j],
    ) by {
        assert(path[i + 1] == rest[i] && path[j + 1] == rest[j]);
    }
}

/// The search follows the way up as long as it does not meet what it looks for.
proof fn lemma_search_follows_the_way(
    v: InvocationView,
    path: Seq<u64>,
    ancestor_id: u64,
    hops: nat,
)
    requires
        is_way_up(v, path),
        path.len() <= hops + 1,
        forall|i: int| 1 <= i < path.len() ==> #[trigger] path[i] != ancestor_id,
    ensures
        v.is_ancestor(path[0], ancestor_id, hops) == v.is_ancestor(
            path.last(),
            ancestor_id,
            (hops + 1 - path.len()) as nat,
        ),
    decreases path.len(),
{
    if path.len() > 1 {
        let rest = path.drop_first();
        lemma_rest_of_way(v, path);
        assert forall|i: int| 1 <= i < rest.len() implies #[trigger] rest[i] != ancestor_id by {
            assert(path[i + 1] == rest[i]);
        }
        lemma_search_follows_the_way(v, rest, ancestor_id, (hops - 1) as nat);
        assert(path[1] == rest[0]);
    }
}

/// The search finds what the way up leads to.
proof fn lemma_search_finds_the_end(
    v: InvocationView,
    path: Seq<u64>,
    hops: nat,
)
    requires
        is_way_up(v, path),
        2 <= path.len() <= hops + 1,
    ensures
        v.is_ancestor(path[0], path.last(), hops) == Ok::<bool, Halt>(true),
    decreases path.len(),
{
    lemma_rest_of_way(v, path);
    if path[1] != path.last() {
        lemma_search_finds_the_end(v, path.drop_first(), (hops - 1) as nat);
    }
}

/// The search for an ancestor looks at 64 parents. It answers yes if the way up
/// leads to the escrow within them.
pub proof fn law_an_ancestor_within_64_parents_is_found(v: InvocationView, path: Seq<u64>)
    requires
        is_way_up(v, path),
        2 <= path.len() <= 65,
    ensures
        v.is_ancestor(path[0], path.last(), MAX_HOPS as nat) == Ok::<bool, Halt>(true),
{
    lemma_search_finds_the_end(v, path, MAX_HOPS as nat);
}

/// It answers no if 64 parents have been looked at, or the way up has ended, and
/// the escrow was not met; and where the next entry is not loaded, it asks for it.
pub proof fn law_a_search_that_meets_nothing_answers_no(
    v: InvocationView,
    path: Seq<u64>,
    ancestor_id: u64,
)
    requires
        is_way_up(v, path),
        path.len() <= 65,
        forall|i: int| 1 <= i < path.len() ==> #[trigger] path[i] != ancestor_id,
    ensures
        path.len() == 65 ==> v.is_ancestor(path[0], ancestor_id, MAX_HOPS as nat) == Ok::<
            bool,
            Halt,
        >(false),
        path.len() <= 64 ==> {
            &&& !v.escrows.contains_key(path.last()) ==> v.is_ancestor(
                path[0],
                ancestor_id,
                MAX_HOPS as nat,
            ) == wants::<bool>(DataKey::Escrow(path.last()))
            &&& is_top(v, path.last()) ==> v.is_ancestor(path[0], ancestor_id, MAX_HOPS as nat)
                == Ok::<bool, Halt>(false)
        },
{
    lemma_search_follows_the_way(v, path, ancestor_id, MAX_HOPS as nat);
}

/// The way up ends at `id`: nothing is stored there, or a root escrow.
pub open spec fn is_top(v: InvocationView, id: u64) -> bool {
    v.escrows.contains_key(id) && (v.escrows[id] matches Some(escrow) ==> escrow.parent_escrow_id
        == 0)
}

/// Creating a child is answered, in this order: without the depositor's consent,
/// with a request for it; where the amount is not positive, the parent is not
/// loaded or not stored, or the ids are used up, with that.
pub proof fn law_what_a_child_creation_is_answered(
    v: InvocationView,
    depositor: Address,
    beneficiary: Address,
    token: Address,
    amount: i128,
    release_time: u64,
    parent_id: u64,
    required_status: EscrowStatus,
)
    ensures
        ({
            let answer = v.create_child_escrow(
                depositor,
                beneficiary,
                token,
                amount,
                release_time,
                parent_id,
                required_status,
            );
            &&& !v.authorized.contains(depositor) ==> answer == needs_consent::<
                (InvocationView, u64),
            >(depositor)
            &&& v.authorized.contains(depositor) && amount <= 0 ==> answer == refused::<
                (InvocationView, u64),
            >(EscrowError::AmountNotPositive)
            &&& v.authorized.contains(depositor) && amount > 0 ==> {
                &&& !v.escrows.contains_key(parent_id) ==> answer == wants::<
                    (InvocationView, u64),
                >(DataKey::Escrow(parent_id))
                &&& v.escrows.contains_pair(parent_id, None) ==> answer == refused::<
                    (InvocationView, u64),
                >(EscrowError::ParentNotFound)
                &&& v.escrows.contains_key(parent_id) && v.escrows[parent_id] is Some && reading(
                    v.escrow_count,
                ) == u64::MAX ==> answer == refused::<(InvocationView, u64)>(
                    EscrowError::IdsExhausted,
                )
            }
        }),
{
}

/// Past that, creating a child is answered by the way up from its parent, the
/// parent counted in. Where it leads to the new id within 64 parents, the child is
/// refused as circular. Where it does not, because 64 parents have been looked at
/// or the way up has ended, the child is created, if the list of the parent's
/// children is loaded; that list, or the next entry on the way up, is asked for
/// where it is not.
pub proof fn law_a_child_is_checked_for_a_cycle(
    v: InvocationView,
    depositor: Address,
    beneficiary: Address,
    token: Address,
    amount: i128,
    release_time: u64,
    required_status: EscrowStatus,
    path: Seq<u64>,
)
    requires
        v.authorized.contains(depositor),
        amount > 0,
        reading(v.escrow_count) < u64::MAX,
        is_way_up(v, path),
        path.len() <= 65,
        v.escrows.contains_key(path[0]) && v.escrows[path[0]] is Some,
    ensures
        ({
            let id = reading(v.escrow_count) + 1;
            let answer = v.create_child_escrow(
                depositor,
                beneficiary,
                token,
                amount,
                release_time,
                path[0],
                required_status,
            );
            &&& path.last() == id ==> answer == refused::<(InvocationView, u64)>(
                EscrowError::CircularDependency,
            )
            &&& (forall|i: int| 0 <= i < path.len() ==> #[trigger] path[i] != id) ==> {
                &&& path.len() <= 64 && !v.escrows.contains_key(path.last()) ==> answer == wants::<
                    (InvocationView, u64),
                >(DataKey::Escrow(path.last()))
                &&& path.len() == 65 || is_top(v, path.last()) ==> if v.children.contains_key(
                    path[0],
                ) {
                    answer is Ok
                } else {
                    answer == wants::<(InvocationView, u64)>(DataKey::ChildEscrows(path[0]))
                }
            }
        }),
{
    let id = (reading(v.escrow_count) + 1) as u64;
    let counted = v.store_escrow_count(id);
    assert forall|i: int, j: int| 0 <= i && j == i + 1 && j < path.len() implies is_parent(
        counted,
        #[trigger] path[i],
        #[trigger] path[j],
    ) by {
        assert(is_parent(v, path[i], path[j]));
    }
    if path.last() == id {
        if path.len() >= 2 {
            law_an_ancestor_within_64_parents_is_found(counted, path);
        }
    } else if forall|i: int| 0 <= i < path.len() ==> #[trigger] path[i] != id {
        assert(path[0] != id);
        law_a_search_that_meets_nothing_answers_no(counted, path, id);
    }
}

} // verus!
