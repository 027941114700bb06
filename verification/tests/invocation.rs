//! Single calls on an invocation.

use escrow::{
    Action, Address, DataKey, Escrow, EscrowContract, EscrowError, EscrowStatus, Event, Halt,
    Holder, Invocation, ParentStatusRequirement,
};
use soroban_sdk::Env;

fn address(n: u8) -> Address {
    Address([n; 56])
}

fn entry(status: EscrowStatus, parent_escrow_id: u64, required: ParentStatusRequirement) -> Escrow {
    Escrow {
        depositor: address(1),
        beneficiary: address(2),
        token: address(3),
        amount: 50,
        status,
        release_time: 0,
        parent_escrow_id,
        required_parent_status: required,
    }
}

fn root() -> Escrow {
    entry(EscrowStatus::Active, 0, ParentStatusRequirement::Unconstrained)
}

fn child_of(parent_id: u64) -> Escrow {
    entry(
        EscrowStatus::Active,
        parent_id,
        ParentStatusRequirement::Status(EscrowStatus::Released),
    )
}

#[test]
fn a_release_asks_for_one_fact_after_another() {
    let mut inv = Invocation::new(0, None, Some(2), None);
    assert_eq!(EscrowContract::release(&mut inv, 1), Err(Halt::Load(DataKey::Escrow(1))));
    inv.load_escrow(1, Some(root()));
    assert_eq!(EscrowContract::release(&mut inv, 1), Err(Halt::Authorize(address(1))));
    inv.authorize(address(1));
    assert_eq!(EscrowContract::release(&mut inv, 1), Err(Halt::Load(DataKey::ChildEscrows(1))));
    inv.load_children(1, vec![2]);
    assert_eq!(EscrowContract::release(&mut inv, 1), Err(Halt::Load(DataKey::Escrow(2))));
    inv.load_escrow(2, Some(child_of(1)));
    assert_eq!(EscrowContract::release(&mut inv, 1), Err(Halt::Load(DataKey::ChildEscrows(2))));
    // Nothing has changed so far.
    assert!(inv.actions().is_empty());
    assert_eq!(inv.escrow(1), Some(Some(root())));
    inv.load_children(2, Vec::new());
    assert_eq!(EscrowContract::release(&mut inv, 1), Ok(()));
    let payment = Action::Transfer {
        token: address(3),
        from: Holder::Contract,
        to: Holder::Other(address(2)),
        amount: 50,
    };
    assert_eq!(
        inv.actions(),
        &vec![
            payment,
            Action::Store(DataKey::Escrow(1)),
            Action::Publish(Event::EscrowReleased(1)),
            payment,
            Action::Store(DataKey::Escrow(2)),
            Action::Publish(Event::EscrowReleased(2)),
        ]
    );
    assert_eq!(inv.escrow(2), Some(Some(Escrow { status: EscrowStatus::Released, ..child_of(1) })));
}

#[test]
fn creating_records_its_actions_in_order() {
    let mut inv = Invocation::new(0, None, None, None);
    inv.authorize(address(1));
    let id =
        EscrowContract::create_escrow(&mut inv, address(1), address(2), address(3), 50, 0).unwrap();
    assert_eq!(id, 1);
    assert_eq!(
        inv.actions(),
        &vec![
            Action::Transfer {
                token: address(3),
                from: Holder::Other(address(1)),
                to: Holder::Contract,
                amount: 50,
            },
            Action::Store(DataKey::EscrowCount),
            Action::Store(DataKey::Escrow(1)),
            Action::Publish(Event::EscrowCreated(1)),
        ]
    );
    let mut inv = Invocation::new(0, None, Some(1), None);
    inv.authorize(address(1));
    inv.load_escrow(1, Some(root()));
    inv.load_children(1, Vec::new());
    let id = EscrowContract::create_child_escrow(
        &mut inv,
        address(1),
        address(2),
        address(3),
        50,
        0,
        1,
        EscrowStatus::Released,
    )
    .unwrap();
    assert_eq!(id, 2);
    assert_eq!(inv.children(1), Some(&vec![2]));
    assert_eq!(
        inv.actions(),
        &vec![
            Action::Store(DataKey::EscrowCount),
            Action::Transfer {
                token: address(3),
                from: Holder::Other(address(1)),
                to: Holder::Contract,
                amount: 50,
            },
            Action::Store(DataKey::Escrow(2)),
            Action::Store(DataKey::ChildEscrows(1)),
            Action::Publish(Event::ChildEscrowCreated(2, 1)),
        ]
    );
}

#[test]
fn initializing_records_its_actions() {
    let mut inv = Invocation::new(0, None, None, None);
    assert_eq!(
        EscrowContract::initialize(&mut inv, address(7)),
        Err(Halt::Authorize(address(7)))
    );
    inv.authorize(address(7));
    assert_eq!(EscrowContract::initialize(&mut inv, address(7)), Ok(()));
    assert_eq!(inv.admin(), Some(address(7)));
    assert_eq!(inv.escrow_count(), Some(0));
    assert_eq!(
        inv.actions(),
        &vec![Action::Store(DataKey::Admin), Action::Store(DataKey::EscrowCount)]
    );
}

#[test]
fn disputing_records_its_actions() {
    let mut inv = Invocation::new(0, None, None, None);
    inv.load_escrow(4, Some(root()));
    inv.authorize(address(2));
    assert_eq!(EscrowContract::dispute(&mut inv, 4), Ok(()));
    assert_eq!(
        inv.actions(),
        &vec![
            Action::Store(DataKey::Escrow(4)),
            Action::Publish(Event::EscrowDisputed(4)),
        ]
    );
}

/// More facts than were asked for do not change the answer.
#[test]
fn answers_do_not_depend_on_other_facts() {
    let mut bare = Invocation::new(5, Some(address(9)), None, None);
    bare.load_escrow(1, Some(root()));
    bare.load_children(1, Vec::new());
    bare.authorize(address(9));
    let mut rich = Invocation::new(5, Some(address(9)), None, None);
    rich.load_escrow(1, Some(root()));
    rich.load_children(1, Vec::new());
    rich.authorize(address(9));
    rich.authorize(address(1));
    rich.load_escrow(2, Some(root()));
    rich.load_children(2, vec![1]);
    rich.load_balance(address(3), 1000);
    assert_eq!(EscrowContract::refund(&mut bare, 1), Ok(()));
    assert_eq!(EscrowContract::refund(&mut rich, 1), Ok(()));
    assert_eq!(bare.actions(), rich.actions());
    assert_eq!(bare.escrow(1), rich.escrow(1));
    // A transfer makes the balance unknown.
    assert_eq!(rich.balance_of(&address(3)), None);
}

#[test]
fn a_balance_is_known_for_its_token_only() {
    let mut inv = Invocation::new(0, None, None, None);
    inv.load_balance(address(3), -4);
    assert_eq!(inv.balance_of(&address(3)), Some(-4));
    assert_eq!(inv.balance_of(&address(4)), None);
}

/// The search for an ancestor looks at 64 parents and no more.
#[test]
fn the_search_stops_after_64_parents() {
    let mut inv = Invocation::new(0, None, None, None);
    // 100 is the root, and each smaller id is the child of the next.
    for id in 1..100u64 {
        inv.load_escrow(id, Some(child_of(id + 1)));
    }
    inv.load_escrow(100, Some(root()));
    assert_eq!(EscrowContract::is_ancestor(&inv, 1, 65), Ok(true));
    assert_eq!(EscrowContract::is_ancestor(&inv, 1, 66), Ok(false));
    assert_eq!(EscrowContract::is_ancestor(&inv, 36, 100), Ok(true));
    assert_eq!(EscrowContract::is_ancestor(&inv, 35, 100), Ok(false));
    assert_eq!(EscrowContract::is_ancestor(&inv, 1, 1), Ok(false));
    assert_eq!(EscrowContract::is_ancestor(&inv, 100, 1), Ok(false));
    assert_eq!(EscrowContract::is_ancestor(&inv, 101, 1), Err(Halt::Load(DataKey::Escrow(101))));
    inv.load_escrow(101, None);
    assert_eq!(EscrowContract::is_ancestor(&inv, 101, 1), Ok(false));
}

/// Entries that form a cycle do not keep a trigger from coming to its end.
#[test]
fn a_cycle_in_storage_ends() {
    let mut inv = Invocation::new(0, None, None, None);
    inv.load_escrow(1, Some(child_of(2)));
    inv.load_escrow(2, Some(child_of(1)));
    inv.load_escrow(3, Some(entry(
        EscrowStatus::Released,
        0,
        ParentStatusRequirement::Unconstrained,
    )));
    inv.load_children(1, vec![2, 1]);
    inv.load_children(2, vec![1, 2]);
    inv.load_children(3, vec![1, 2, 3]);
    assert_eq!(EscrowContract::trigger_children(&mut inv, 3), Ok(()));
    let mut released: Vec<u64> = Vec::new();
    for action in inv.actions().iter() {
        if let Action::Publish(Event::EscrowReleased(id)) = action {
            released.push(*id);
        }
    }
    assert_eq!(released, vec![1, 2]);
}

#[test]
fn a_root_is_never_triggered() {
    let mut inv = Invocation::new(0, None, None, None);
    inv.load_escrow(1, Some(Escrow { status: EscrowStatus::Released, ..root() }));
    inv.load_escrow(2, Some(root()));
    inv.load_escrow(3, None);
    inv.load_children(1, vec![2, 3]);
    assert_eq!(EscrowContract::trigger_children(&mut inv, 1), Ok(()));
    assert!(inv.actions().is_empty());
}

#[test]
fn counters_start_at_zero() {
    let mut inv = Invocation::new(0, None, None, None);
    assert_eq!(EscrowContract::get_count(&inv), 0);
    assert_eq!(EscrowContract::next_id(&mut inv), Ok(1));
    assert_eq!(EscrowContract::next_id(&mut inv), Ok(2));
    assert_eq!(EscrowContract::get_count(&inv), 2);
    assert_eq!(EscrowContract::next_commitment_id(&mut inv), Ok(1));
    assert_eq!(inv.commitment_count(), Some(1));
    let mut full = Invocation::new(0, None, Some(u64::MAX), Some(u64::MAX));
    let refusal = Err(Halt::Reject(EscrowError::IdsExhausted));
    assert_eq!(EscrowContract::next_id(&mut full), refusal);
    assert_eq!(EscrowContract::next_commitment_id(&mut full), refusal);
    assert!(full.actions().is_empty());
}

/// Digests computed elsewhere, for a positive amount and for the extremes.
#[test]
fn commitments_have_the_right_digest() {
    let env = Env::default();
    let mut blinding = [0u8; 32];
    for i in 0..32u8 {
        blinding[i as usize] = i + 1;
    }
    assert_eq!(
        EscrowContract::compute_commitment(&env, 100, blinding),
        [
            119, 125, 115, 141, 34, 28, 147, 64, 45, 134, 143, 208, 221, 221, 72, 112, 210, 79, 67,
            75, 47, 57, 250, 247, 112, 104, 171, 137, 162, 8, 87, 249
        ]
    );
    assert_eq!(
        EscrowContract::compute_commitment(&env, -1, blinding),
        [
            4, 86, 220, 18, 75, 233, 191, 104, 40, 199, 169, 61, 194, 234, 237, 254, 14, 235, 106,
            254, 36, 130, 175, 156, 254, 135, 6, 55, 205, 77, 205, 225
        ]
    );
    assert_eq!(
        EscrowContract::compute_commitment(&env, i128::MAX, blinding),
        [
            134, 220, 246, 240, 194, 252, 3, 130, 77, 89, 107, 25, 82, 119, 202, 253, 198, 145, 110,
            127, 168, 129, 165, 2, 96, 145, 179, 0, 56, 17, 204, 232
        ]
    );
    assert_eq!(
        EscrowContract::compute_commitment(&env, i128::MIN, blinding),
        [
            38, 239, 39, 188, 172, 223, 182, 174, 221, 46, 203, 88, 199, 90, 61, 89, 66, 204, 121,
            252, 57, 145, 176, 157, 53, 135, 136, 88, 99, 72, 154, 142
        ]
    );
}

#[test]
fn opening_with_a_digest() {
    let mut inv = Invocation::new(10, Some(address(9)), None, None);
    inv.authorize(address(1));
    let id = EscrowContract::create_commitment_escrow(
        &mut inv,
        address(1),
        address(2),
        address(3),
        [8; 32],
        10,
    )
    .unwrap();
    let made = inv.actions().len();
    let open = |inv: &mut Invocation, digest: [u8; 32]| {
        EscrowContract::release_opened(inv, address(1), id, 50, &digest)
    };
    let mut wrong = [8u8; 32];
    wrong[31] = 9;
    assert_eq!(open(&mut inv, wrong), Err(Halt::Reject(EscrowError::CommitmentMismatch)));
    assert_eq!(open(&mut inv, [8; 32]), Err(Halt::Balance(address(3))));
    inv.load_balance(address(3), 49);
    assert_eq!(open(&mut inv, [8; 32]), Err(Halt::Reject(EscrowError::InsufficientBalance)));
    inv.load_balance(address(3), 50);
    assert_eq!(open(&mut inv, [8; 32]), Ok(()));
    assert_eq!(
        inv.actions()[made..],
        [
            Action::Transfer {
                token: address(3),
                from: Holder::Contract,
                to: Holder::Other(address(2)),
                amount: 50,
            },
            Action::Store(DataKey::CommitmentEscrow(1)),
            Action::Publish(Event::CommitmentEscrowRevealed(1)),
        ]
    );
    assert_eq!(
        open(&mut inv, [8; 32]),
        Err(Halt::Reject(EscrowError::CommitmentEscrowNotActive))
    );
    // Somebody else may reveal as well: it takes the opening, not the depositor.
    assert_eq!(
        EscrowContract::release_opened(&mut inv, address(4), id, 50, &[8; 32]),
        Err(Halt::Authorize(address(4)))
    );
}

#[test]
fn refusals_have_their_texts() {
    assert_eq!(EscrowError::AmountNotPositive.message(), "Amount must be greater than zero");
    assert_eq!(EscrowError::EscrowNotFound.message(), "Escrow not found");
    assert_eq!(EscrowError::ParentNotFound.message(), "Parent escrow not found");
    assert_eq!(EscrowError::CircularDependency.message(), "Circular dependency detected");
    assert_eq!(EscrowError::EscrowNotActive.message(), "Escrow is not active");
    assert_eq!(EscrowError::ReleaseTimeNotReached.message(), "Release time has not been reached");
    assert_eq!(
        EscrowError::ParentStatusNotReached.message(),
        "Parent escrow has not reached the required status"
    );
    assert_eq!(EscrowError::AdminNotSet.message(), "Admin not set");
    assert_eq!(
        EscrowError::NotRefundable.message(),
        "Escrow cannot be refunded in current status"
    );
    assert_eq!(EscrowError::CommitmentEscrowNotFound.message(), "Commitment escrow not found");
    assert_eq!(
        EscrowError::CommitmentEscrowNotActive.message(),
        "Commitment escrow is not active"
    );
    assert_eq!(EscrowError::CommitmentMismatch.message(), "Commitment verification failed");
    assert_eq!(EscrowError::InsufficientBalance.message(), "Insufficient balance in contract");
    assert_eq!(EscrowError::IdsExhausted.message(), "attempt to add with overflow");
}

#[test]
fn events_have_their_topics() {
    assert_eq!(Event::EscrowCreated(1).topic(), "escrow_created");
    assert_eq!(Event::ChildEscrowCreated(2, 1).topic(), "child_escrow_created");
    assert_eq!(Event::EscrowReleased(1).topic(), "escrow_released");
    assert_eq!(Event::EscrowRefunded(1).topic(), "escrow_refunded");
    assert_eq!(Event::EscrowDisputed(1).topic(), "escrow_disputed");
    assert_eq!(Event::CommitmentEscrowCreated(1).topic(), "commitment_escrow_created");
    assert_eq!(Event::CommitmentEscrowRevealed(1).topic(), "commitment_escrow_revealed");
    assert_eq!(Event::CommitmentEscrowRefunded(1).topic(), "commitment_escrow_refunded");
}
