//! What each call that touches a single escrow leaves behind, field by field:
//! the entries, the money that moves, and what is announced.

use vstd::prelude::*;

use crate::invocation::{Action, EscrowError, Event, Halt, Holder, InvocationView};
use crate::types::{
    Address, CommitmentEscrow, CommitmentEscrowStatus, DataKey, Escrow, EscrowStatus,
    ParentStatusRequirement,
};

verus! {

/// What a counter stands at: 0 before it is first written.
pub open spec fn reading(counter: Option<u64>) -> int {
    match counter {
        Some(count) => count as int,
        None => 0,
    }
}

/// The transfers among the given actions, in order.
pub open spec fn transfers(actions: Seq<Action>) -> Seq<Action>
    decreases actions.len(),
{
    if actions.len() == 0 {
        Seq::empty()
    } else if actions.last() is Transfer {
        transfers(actions.drop_last()).push(actions.last())
    } else {
        transfers(actions.drop_last())
    }
}

/// The actions that were added on the way from `v` to `w`.
pub open spec fn added(v: InvocationView, w: InvocationView) -> Seq<Action> {
    w.actions.skip(v.actions.len() as int)
}

/// The actions recorded in `v` still stand in `w`.
pub open spec fn extends(v: InvocationView, w: InvocationView) -> bool {
    v.actions.is_prefix_of(w.actions)
}

/// The number of escrows is what the counter says; an entry reads as it is stored,
/// a list as it is loaded, and what is stored nowhere is reported missing.
pub proof fn law_reads_return_what_is_there(v: InvocationView, id: u64, missing: EscrowError)
    ensures
        v.count() == reading(v.escrow_count),
        v.commitments_made() == reading(v.commitment_count),
        v.find_escrow(id, missing) matches Ok(escrow) ==> v.escrows.contains_pair(id, Some(escrow)),
        forall|escrow: Escrow| #[trigger]
            v.escrows.contains_pair(id, Some(escrow)) ==> v.find_escrow(id, missing) == Ok::<
                Escrow,
                Halt,
            >(escrow),
        v.escrows.contains_pair(id, None) ==> v.find_escrow(id, missing) == Err::<Escrow, Halt>(
            Halt::Reject(missing),
        ),
        !v.escrows.contains_key(id) ==> v.find_escrow(id, missing) == Err::<Escrow, Halt>(
            Halt::Load(DataKey::Escrow(id)),
        ),
        v.children.contains_key(id) ==> v.find_children(id) == Ok::<Seq<u64>, Halt>(v.children[id]),
        !v.children.contains_key(id) ==> v.find_children(id) == Err::<Seq<u64>, Halt>(
            Halt::Load(DataKey::ChildEscrows(id)),
        ),
        forall|escrow: CommitmentEscrow| #[trigger]
            v.commitments.contains_pair(id, Some(escrow)) ==> v.find_commitment(id) == Ok::<
                CommitmentEscrow,
                Halt,
            >(escrow),
        v.commitments.contains_pair(id, None) ==> v.find_commitment(id) == Err::<
            CommitmentEscrow,
            Halt,
        >(Halt::Reject(EscrowError::CommitmentEscrowNotFound)),
        !v.commitments.contains_key(id) ==> v.find_commitment(id) == Err::<CommitmentEscrow, Halt>(
            Halt::Load(DataKey::CommitmentEscrow(id)),
        ),
{
}

/// A balance is known exactly for the token for which it was supplied.
pub proof fn law_a_balance_belongs_to_its_token(v: InvocationView, token: Address, amount: i128)
    ensures
        v.balance_of(token) == Some(amount) <==> v.balance == Some((token, amount)),
{
}

/// Allocating an id advances the counter by one and writes it, and does nothing
/// else; the id is what the counter then stands at. It fails only where the
/// counter can go no further.
pub proof fn law_allocating_counts_up(v: InvocationView)
    ensures
        v.next_id() is Ok <==> reading(v.escrow_count) < u64::MAX,
        v.next_id() matches Err(halt) ==> halt == Halt::Reject(EscrowError::IdsExhausted),
        v.next_id() matches Ok((w, id)) ==> id == reading(v.escrow_count) + 1 && w == (
        InvocationView {
            escrow_count: Some(id),
            actions: v.actions.push(Action::Store(DataKey::EscrowCount)),
            ..v
        }),
        v.next_commitment_id() is Ok <==> reading(v.commitment_count) < u64::MAX,
        v.next_commitment_id() matches Err(halt) ==> halt == Halt::Reject(
            EscrowError::IdsExhausted,
        ),
        v.next_commitment_id() matches Ok((w, id)) ==> id == reading(v.commitment_count) + 1 && w
            == (InvocationView {
            commitment_count: Some(id),
            actions: v.actions.push(Action::Store(DataKey::CommitmentEscrowCount)),
            ..v
        }),
{
}

/// Initializing needs the new administrator's authorization and nothing else. It
/// writes the administrator and an escrow count of 0, moves no money, and leaves
/// every other entry alone.
pub proof fn law_initializing_sets_the_administrator(v: InvocationView, admin: Address)
    ensures
        v.initialize(admin) is Ok <==> v.authorized.contains(admin),
        v.initialize(admin) matches Err(halt) ==> halt == Halt::Authorize(admin),
        v.initialize(admin) matches Ok(w) ==> w == (InvocationView {
            admin: Some(admin),
            escrow_count: Some(0),
            actions: v.actions + seq![
                Action::Store(DataKey::Admin),
                Action::Store(DataKey::EscrowCount),
            ],
            ..v
        }),
{
}

/// Whoever creates an escrow pays for it: creating one asks for exactly one
/// transfer, of the amount in the token, from the depositor to the contract. It
/// leaves one entry more, with the terms given, under the next id; the counter
/// stands at that id; the creation is announced; and nothing else changes.
pub proof fn law_creating_takes_the_amount_from_the_depositor(
    v: InvocationView,
    depositor: Address,
    beneficiary: Address,
    token: Address,
    amount: i128,
    release_time: u64,
)
    ensures
        v.create_escrow(depositor, beneficiary, token, amount, release_time) matches Ok((w, id))
            ==> {
            &&& id == reading(v.escrow_count) + 1
            &&& extends(v, w)
            &&& transfers(added(v, w)) == seq![
                Action::Transfer {
                    token,
                    from: Holder::Other(depositor),
                    to: Holder::Contract,
                    amount,
                },
            ]
            &&& added(v, w).skip(1) == seq![
                Action::Store(DataKey::EscrowCount),
                Action::Store(DataKey::Escrow(id)),
                Action::Publish(Event::EscrowCreated(id)),
            ]
            &&& w == (InvocationView {
                escrow_count: Some(id),
                escrows: v.escrows.insert(
                    id,
                    Some(
                        Escrow {
                            depositor,
                            beneficiary,
                            token,
                            amount,
                            status: EscrowStatus::Active,
                            release_time,
                            parent_escrow_id: 0,
                            required_parent_status: ParentStatusRequirement::Unconstrained,
                        },
                    ),
                ),
                balance: None,
                actions: w.actions,
                ..v
            })
        },
{
    if let Ok((w, id)) = v.create_escrow(depositor, beneficiary, token, amount, release_time) {
        let actions = added(v, w);
        assert(actions =~= seq![
            Action::Transfer { token, from: Holder::Other(depositor), to: Holder::Contract, amount },
            Action::Store(DataKey::EscrowCount),
            Action::Store(DataKey::Escrow(id)),
            Action::Publish(Event::EscrowCreated(id)),
        ]);
        lemma_transfers_of_four(actions);
    }
}

/// The transfers among four actions.
proof fn lemma_transfers_of_four(actions: Seq<Action>)
    requires
        actions.len() == 4,
        !(actions[2] is Transfer),
        !(actions[3] is Transfer),
    ensures
        transfers(actions) == (if actions[0] is Transfer {
            seq![actions[0]]
        } else {
            Seq::empty()
        }) + (if actions[1] is Transfer {
            seq![actions[1]]
        } else {
            Seq::empty()
        }),
{
    let three = actions.drop_last();
    let two = three.drop_last();
    let one = two.drop_last();
    assert(one.drop_last() =~= Seq::empty());
    reveal_with_fuel(transfers, 6);
    assert(transfers(one) =~= if actions[0] is Transfer {
        seq![actions[0]]
    } else {
        Seq::empty()
    });
}

/// The same for a child: the one transfer is of the amount in the token, from the
/// child's own depositor to the contract. The new id is the last in the list of
/// the parent's children, and the parent's own entry does not change.
pub proof fn law_creating_a_child_takes_the_amount_from_its_depositor(
    v: InvocationView,
    depositor: Address,
    beneficiary: Address,
    token: Address,
    amount: i128,
    release_time: u64,
    parent_id: u64,
    required_status: EscrowStatus,
)
    ensures
        v.create_child_escrow(
            depositor,
            beneficiary,
            token,
            amount,
            release_time,
            parent_id,
            required_status,
        ) matches Ok((w, id)) ==> {
            &&& id == reading(v.escrow_count) + 1
            &&& id != parent_id
            &&& extends(v, w)
            &&& transfers(added(v, w)) == seq![
                Action::Transfer {
                    token,
                    from: Holder::Other(depositor),
                    to: Holder::Contract,
                    amount,
                },
            ]
            &&& added(v, w).first() == Action::Store(DataKey::EscrowCount)
            &&& added(v, w).skip(2) == seq![
                Action::Store(DataKey::Escrow(id)),
                Action::Store(DataKey::ChildEscrows(parent_id)),
                Action::Publish(Event::ChildEscrowCreated(id, parent_id)),
            ]
            &&& w == (InvocationView {
                escrow_count: Some(id),
                escrows: v.escrows.insert(
                    id,
                    Some(
                        Escrow {
                            depositor,
                            beneficiary,
                            token,
                            amount,
                            status: EscrowStatus::Active,
                            release_time,
                            parent_escrow_id: parent_id,
                            required_parent_status: ParentStatusRequirement::Status(
                                required_status,
                            ),
                        },
                    ),
                ),
                children: v.children.insert(parent_id, v.children[parent_id].push(id)),
                balance: None,
                actions: w.actions,
                ..v
            })
        },
{
    if let Ok((w, id)) = v.create_child_escrow(
        depositor,
        beneficiary,
        token,
        amount,
        release_time,
        parent_id,
        required_status,
    ) {
        let actions = added(v, w);
        assert(actions =~= seq![
            Action::Store(DataKey::EscrowCount),
            Action::Transfer { token, from: Holder::Other(depositor), to: Holder::Contract, amount },
            Action::Store(DataKey::Escrow(id)),
            Action::Store(DataKey::ChildEscrows(parent_id)),
            Action::Publish(Event::ChildEscrowCreated(id, parent_id)),
        ]);
        lemma_transfers_of_four(actions.drop_last());
        assert(transfers(actions) == transfers(actions.drop_last()));
    }
}

/// A dispute moves no money. It changes the status of the one escrow to Disputed,
/// announces that, and leaves everything else as it was.
pub proof fn law_a_dispute_changes_one_status(v: InvocationView, id: u64, escrow: Escrow)
    requires
        v.escrows.contains_pair(id, Some(escrow)),
    ensures
        v.dispute(id) is Ok <==> escrow.status == EscrowStatus::Active && v.authorized.contains(
            escrow.beneficiary,
        ),
        v.dispute(id) matches Ok(w) ==> w == (InvocationView {
            escrows: v.escrows.insert(
                id,
                Some(Escrow { status: EscrowStatus::Disputed, ..escrow }),
            ),
            actions: v.actions + seq![
                Action::Store(DataKey::Escrow(id)),
                Action::Publish(Event::EscrowDisputed(id)),
            ],
            ..v
        }),
{
}

/// Creating a commitment escrow moves no money. It leaves one entry more, with the
/// terms given, under the next id of its own counter.
pub proof fn law_committing_moves_no_money(
    v: InvocationView,
    depositor: Address,
    beneficiary: Address,
    token: Address,
    commitment: [u8; 32],
    release_time: u64,
)
    ensures
        v.create_commitment_escrow(
            depositor,
            beneficiary,
            token,
            commitment,
            release_time,
        ) matches Ok((w, id)) ==> id == reading(v.commitment_count) + 1 && w == (InvocationView {
            commitment_count: Some(id),
            commitments: v.commitments.insert(
                id,
                Some(
                    CommitmentEscrow {
                        depositor,
                        beneficiary,
                        token,
                        commitment,
                        status: CommitmentEscrowStatus::Active,
                        release_time,
                    },
                ),
            ),
            actions: v.actions + seq![
                Action::Store(DataKey::CommitmentEscrowCount),
                Action::Store(DataKey::CommitmentEscrow(id)),
                Action::Publish(Event::CommitmentEscrowCreated(id)),
            ],
            ..v
        }),
{
}

/// Opening a commitment pays the revealed amount of the escrow's token, once, from
/// the contract to the escrow's beneficiary, whoever made the call. It changes the
/// status of the one escrow to Revealed, announces that, and leaves everything
/// else as it was.
pub proof fn law_opening_pays_the_beneficiary(
    v: InvocationView,
    depositor: Address,
    id: u64,
    amount: i128,
    digest: Seq<u8>,
    escrow: CommitmentEscrow,
)
    requires
        v.commitments.contains_pair(id, Some(escrow)),
    ensures
        v.open_commitment(depositor, id, amount, digest) matches Ok(w) ==> w == (InvocationView {
            commitments: v.commitments.insert(
                id,
                Some(CommitmentEscrow { status: CommitmentEscrowStatus::Revealed, ..escrow }),
            ),
            balance: None,
            actions: v.actions + seq![
                Action::Transfer {
                    token: escrow.token,
                    from: Holder::Contract,
                    to: Holder::Other(escrow.beneficiary),
                    amount,
                },
                Action::Store(DataKey::CommitmentEscrow(id)),
                Action::Publish(Event::CommitmentEscrowRevealed(id)),
            ],
            ..v
        }),
{
}

/// Refunding a commitment escrow hands over all that the contract holds of its
/// token: whatever the time and the release time, a balance above 0 is transferred
/// to the escrow's depositor, once and whole, and no other transfer is made; with
/// a balance of 0 or less there is none. The status of the one escrow changes to
/// Refunded, that is announced, and everything else is left as it was.
pub proof fn law_a_commitment_refund_returns_the_whole_balance(
    v: InvocationView,
    id: u64,
    escrow: CommitmentEscrow,
    balance: i128,
)
    requires
        v.commitments.contains_pair(id, Some(escrow)),
        v.balance == Some((escrow.token, balance)),
    ensures
        v.refund_commitment_escrow(id) is Ok <==> {
            &&& escrow.status == CommitmentEscrowStatus::Active
            &&& v.admin matches Some(admin)
            &&& v.authorized.contains(admin)
        },
        v.refund_commitment_escrow(id) matches Ok(w) ==> {
            &&& extends(v, w)
            &&& balance > 0 ==> transfers(added(v, w)) == seq![
                Action::Transfer {
                    token: escrow.token,
                    from: Holder::Contract,
                    to: Holder::Other(escrow.depositor),
                    amount: balance,
                },
            ]
            &&& balance <= 0 ==> transfers(added(v, w)) == Seq::<Action>::empty()
            &&& added(v, w).skip(
                if balance > 0 {
                    1
                } else {
                    0
                },
            ) == seq![
                Action::Store(DataKey::CommitmentEscrow(id)),
                Action::Publish(Event::CommitmentEscrowRefunded(id)),
            ]
            &&& w == (InvocationView {
                commitments: v.commitments.insert(
                    id,
                    Some(CommitmentEscrow { status: CommitmentEscrowStatus::Refunded, ..escrow }),
                ),
                balance: if balance > 0 {
                    None
                } else {
                    v.balance
                },
                actions: w.actions,
                ..v
            })
        },
{
    if let Ok(w) = v.refund_commitment_escrow(id) {
        let actions = added(v, w);
        let tail = seq![
            Action::Store(DataKey::CommitmentEscrow(id)),
            Action::Publish(Event::CommitmentEscrowRefunded(id)),
        ];
        reveal_with_fuel(transfers, 5);
        if balance > 0 {
            let payment = Action::Transfer {
                token: escrow.token,
                from: Holder::Contract,
                to: Holder::Other(escrow.depositor),
                amount: balance,
            };
            assert(actions =~= seq![payment] + tail);
            assert(actions.drop_last().drop_last() =~= seq![payment]);
            assert(seq![payment].drop_last() =~= Seq::empty());
            assert(transfers(seq![payment]) =~= seq![payment]);
        } else {
            assert(actions =~= tail);
            assert(actions.drop_last().drop_last() =~= Seq::empty());
        }
    }
}

} // verus!
