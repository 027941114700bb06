//! The contract on a network of its own: a ledger with storage, tokens and
//! events, which supplies the facts that calls ask for and performs their actions.

use std::collections::BTreeMap;

use escrow::{
    Action, Address, CommitmentEscrow, CommitmentEscrowStatus, DataKey, Escrow, EscrowContract,
    EscrowError, EscrowStatus, Event, Halt, Holder, Invocation, ParentStatusRequirement,
};
use soroban_sdk::{Bytes, Env};

fn address(n: u8) -> Address {
    Address([n; 56])
}

const CONTRACT: u8 = 1;
const ADMIN: u8 = 2;
const DEPOSITOR: u8 = 3;
const BENEFICIARY: u8 = 4;
const TOKEN: u8 = 5;
const STRANGER: u8 = 6;

struct Network {
    now: u64,
    admin: Option<Address>,
    escrow_count: Option<u64>,
    commitment_count: Option<u64>,
    escrows: BTreeMap<u64, Escrow>,
    children: BTreeMap<u64, Vec<u64>>,
    commitments: BTreeMap<u64, CommitmentEscrow>,
    balances: Vec<(Address, Address, i128)>,
    events: Vec<Event>,
    /// Who authorizes calls; everybody does where this is `None`.
    signers: Option<Vec<Address>>,
}

#[derive(Debug, PartialEq)]
enum Failure {
    Refused(EscrowError),
    Unauthorized(Address),
}

impl Network {
    /// A network where everybody authorizes everything and the depositor has
    /// 10,000 of the token.
    fn new() -> Network {
        Network {
            now: 0,
            admin: None,
            escrow_count: None,
            commitment_count: None,
            escrows: BTreeMap::new(),
            children: BTreeMap::new(),
            commitments: BTreeMap::new(),
            balances: vec![(address(TOKEN), address(DEPOSITOR), 10_000)],
            events: Vec::new(),
            signers: None,
        }
    }

    /// The same, with the contract initialized.
    fn initialized() -> Network {
        let mut net = Network::new();
        net.call(|inv| EscrowContract::initialize(inv, address(ADMIN)));
        net
    }

    fn balance(&self, token: &Address, holder: &Address) -> i128 {
        let mut sum = 0;
        for (t, h, amount) in self.balances.iter() {
            if t == token && h == holder {
                sum += *amount;
            }
        }
        sum
    }

    fn holder(holder: &Holder) -> Address {
        match holder {
            Holder::Contract => address(CONTRACT),
            Holder::Other(other) => *other,
        }
    }

    fn transfer(&mut self, token: &Address, from: &Address, to: &Address, amount: i128) {
        assert!(amount >= 0 && self.balance(token, from) >= amount, "balance is not sufficient");
        self.balances.push((*token, *from, -amount));
        self.balances.push((*token, *to, amount));
    }

    fn perform(&mut self, inv: &Invocation) {
        for action in inv.actions().iter() {
            match action {
                Action::Store(DataKey::Escrow(id)) => {
                    self.escrows.insert(*id, inv.escrow(*id).unwrap().unwrap());
                }
                Action::Store(DataKey::ChildEscrows(id)) => {
                    self.children.insert(*id, inv.children(*id).unwrap().clone());
                }
                Action::Store(DataKey::CommitmentEscrow(id)) => {
                    self.commitments.insert(*id, inv.commitment_escrow(*id).unwrap().unwrap());
                }
                Action::Store(DataKey::Admin) => self.admin = inv.admin(),
                Action::Store(DataKey::EscrowCount) => self.escrow_count = inv.escrow_count(),
                Action::Store(DataKey::CommitmentEscrowCount) => {
                    self.commitment_count = inv.commitment_count()
                }
                Action::Transfer { token, from, to, amount } => {
                    self.transfer(token, &Self::holder(from), &Self::holder(to), *amount)
                }
                Action::Publish(event) => self.events.push(*event),
            }
        }
    }

    fn try_call<T>(
        &mut self,
        call: impl Fn(&mut Invocation) -> Result<T, Halt>,
    ) -> Result<T, Failure> {
        let mut inv =
            Invocation::new(self.now, self.admin, self.escrow_count, self.commitment_count);
        loop {
            match call(&mut inv) {
                Ok(value) => {
                    self.perform(&inv);
                    return Ok(value);
                }
                Err(Halt::Load(DataKey::Escrow(id))) => {
                    assert!(inv.escrow(id).is_none());
                    inv.load_escrow(id, self.escrows.get(&id).copied());
                }
                Err(Halt::Load(DataKey::ChildEscrows(id))) => {
                    assert!(inv.children(id).is_none());
                    inv.load_children(id, self.children.get(&id).cloned().unwrap_or_default());
                }
                Err(Halt::Load(DataKey::CommitmentEscrow(id))) => {
                    assert!(inv.commitment_escrow(id).is_none());
                    inv.load_commitment_escrow(id, self.commitments.get(&id).copied());
                }
                Err(Halt::Load(_)) => unreachable!(),
                Err(Halt::Authorize(who)) => match &self.signers {
                    Some(signers) if !signers.contains(&who) => {
                        return Err(Failure::Unauthorized(who));
                    }
                    _ => inv.authorize(who),
                },
                Err(Halt::Balance(token)) => {
                    inv.load_balance(token, self.balance(&token, &address(CONTRACT)))
                }
                Err(Halt::Reject(error)) => return Err(Failure::Refused(error)),
            }
        }
    }

    fn call<T>(&mut self, call: impl Fn(&mut Invocation) -> Result<T, Halt>) -> T {
        match self.try_call(call) {
            Ok(value) => value,
            Err(Failure::Refused(error)) => panic!("{}", error.message()),
            Err(Failure::Unauthorized(who)) => panic!("unauthorized: {:?}", who),
        }
    }

    fn create(&mut self, amount: i128, release_time: u64) -> u64 {
        self.call(|inv| {
            EscrowContract::create_escrow(
                inv,
                address(DEPOSITOR),
                address(BENEFICIARY),
                address(TOKEN),
                amount,
                release_time,
            )
        })
    }

    fn create_child(
        &mut self,
        amount: i128,
        release_time: u64,
        parent_id: u64,
        required_status: EscrowStatus,
    ) -> u64 {
        self.call(|inv| {
            EscrowContract::create_child_escrow(
                inv,
                address(DEPOSITOR),
                address(BENEFICIARY),
                address(TOKEN),
                amount,
                release_time,
                parent_id,
                required_status,
            )
        })
    }

    fn release(&mut self, id: u64) {
        self.call(|inv| EscrowContract::release(inv, id))
    }

    fn try_release(&mut self, id: u64) -> Result<(), Failure> {
        self.try_call(|inv| EscrowContract::release(inv, id))
    }

    fn status(&mut self, id: u64) -> EscrowStatus {
        self.call(|inv| EscrowContract::get_escrow(inv, id)).status
    }

    fn commit(&mut self, commitment: [u8; 32], release_time: u64) -> u64 {
        self.call(|inv| {
            EscrowContract::create_commitment_escrow(
                inv,
                address(DEPOSITOR),
                address(BENEFICIARY),
                address(TOKEN),
                commitment,
                release_time,
            )
        })
    }

    fn try_open(&mut self, id: u64, amount: i128, blinding: [u8; 32]) -> Result<(), Failure> {
        let env = Env::default();
        self.try_call(|inv| {
            EscrowContract::reveal_and_release(&env, inv, address(DEPOSITOR), id, amount, blinding)
        })
    }

    fn open(&mut self, id: u64, amount: i128, blinding: [u8; 32]) {
        let env = Env::default();
        self.call(|inv| {
            EscrowContract::reveal_and_release(&env, inv, address(DEPOSITOR), id, amount, blinding)
        })
    }
}

fn blinding_factor() -> [u8; 32] {
    [
        1, 2, 3, 4, 5, 6, 7, 8, 9, 10, 11, 12, 13, 14, 15, 16, 17, 18, 19, 20, 21, 22, 23, 24, 25,
        26, 27, 28, 29, 30, 31, 32,
    ]
}

/// The commitment, computed with the network's own hash function.
fn commitment_for(amount: i128, blinding: [u8; 32]) -> [u8; 32] {
    let env = Env::default();
    let mut data = Bytes::from_array(&env, &amount.to_be_bytes());
    data.extend_from_array(&blinding);
    env.crypto().sha256(&data).to_array()
}

// Escrows

#[test]
fn test_create_escrow() {
    let mut net = Network::initialized();
    let escrow_id = net.create(100, 0);
    assert_eq!(escrow_id, 1);
    assert_eq!(net.status(escrow_id), EscrowStatus::Active);
    assert_eq!(net.call(|inv| Ok(EscrowContract::get_count(inv))), 1);
}

#[test]
fn test_release() {
    let mut net = Network::initialized();
    let escrow_id = net.create(100, 0);
    net.release(escrow_id);
    assert_eq!(net.status(escrow_id), EscrowStatus::Released);
}

#[test]
fn test_dispute_then_refund() {
    let mut net = Network::initialized();
    let escrow_id = net.create(100, 0);
    net.call(|inv| EscrowContract::dispute(inv, escrow_id));
    assert_eq!(net.status(escrow_id), EscrowStatus::Disputed);
    net.call(|inv| EscrowContract::refund(inv, escrow_id));
    assert_eq!(net.status(escrow_id), EscrowStatus::Refunded);
}

#[test]
#[should_panic(expected = "Amount must be greater than zero")]
fn test_zero_amount_rejected() {
    let mut net = Network::initialized();
    net.create(0, 0);
}

#[test]
fn test_release_time_enforced() {
    let mut net = Network::initialized();
    net.now = 500;
    // The release time is 1000, the current time is 500.
    let escrow_id = net.create(100, 1000);
    let result = net.try_release(escrow_id);
    assert!(result.is_err());
    assert_eq!(result, Err(Failure::Refused(EscrowError::ReleaseTimeNotReached)));
}

// Parents and children

#[test]
fn test_child_blocked_before_parent_releases() {
    let mut net = Network::initialized();
    let parent_id = net.create(100, 0);
    let child_id = net.create_child(50, 0, parent_id, EscrowStatus::Released);
    let result = net.try_release(child_id);
    assert!(result.is_err(), "Child should be blocked while parent is Active");
    assert_eq!(result, Err(Failure::Refused(EscrowError::ParentStatusNotReached)));
}

#[test]
fn test_child_auto_releases_after_parent() {
    let mut net = Network::initialized();
    let parent_id = net.create(100, 0);
    let child_id = net.create_child(50, 0, parent_id, EscrowStatus::Released);
    net.release(parent_id);
    assert_eq!(net.status(parent_id), EscrowStatus::Released);
    assert_eq!(
        net.status(child_id),
        EscrowStatus::Released,
        "Child should be auto-released after parent release"
    );
}

#[test]
fn test_child_manual_release_after_parent() {
    let mut net = Network::initialized();
    let parent_id = net.create(100, 0);
    net.now = 500;
    let child_id = net.create_child(50, 1000, parent_id, EscrowStatus::Released);
    // At 500 the child is not released with its parent: its time is 1000.
    net.release(parent_id);
    assert_eq!(net.status(child_id), EscrowStatus::Active);
    net.now = 1001;
    net.release(child_id);
    assert_eq!(net.status(child_id), EscrowStatus::Released);
}

#[test]
fn test_get_child_escrows() {
    let mut net = Network::initialized();
    let parent_id = net.create(100, 0);
    let child1 = net.create_child(10, 0, parent_id, EscrowStatus::Released);
    let child2 = net.create_child(20, 0, parent_id, EscrowStatus::Released);
    let children = net.call(|inv| EscrowContract::get_child_escrows(inv, parent_id));
    assert_eq!(children.len(), 2);
    assert_eq!(children[0], child1);
    assert_eq!(children[1], child2);
}

#[test]
fn test_chain_of_three_escrows() {
    let mut net = Network::initialized();
    let grandparent_id = net.create(100, 0);
    let parent_id = net.create_child(50, 0, grandparent_id, EscrowStatus::Released);
    let child_id = net.create_child(25, 0, parent_id, EscrowStatus::Released);
    net.release(grandparent_id);
    assert_eq!(net.status(grandparent_id), EscrowStatus::Released);
    assert_eq!(net.status(parent_id), EscrowStatus::Released);
    assert_eq!(net.status(child_id), EscrowStatus::Released);
}

/// The root A is given its child B as its parent, and the counter is set back so
/// that the next id is B's.
#[test]
#[should_panic(expected = "Circular dependency detected")]
fn test_circular_dependency_rejected() {
    let mut net = Network::initialized();
    let id_a = net.create(100, 0);
    let id_b = net.create_child(50, 0, id_a, EscrowStatus::Released);
    net.escrows.get_mut(&id_a).unwrap().parent_escrow_id = id_b;
    net.escrow_count = Some(id_b - 1);
    net.create_child(10, 0, id_b, EscrowStatus::Released);
}

/// Initializing again makes ids come up a second time. An escrow that would be its
/// own parent is refused, and the one that has its id stays as it was.
#[test]
fn no_escrow_becomes_its_own_parent() {
    let mut net = Network::initialized();
    let root = net.create(100, 0);
    net.call(|inv| EscrowContract::initialize(inv, address(ADMIN)));
    let before = net.call(|inv| EscrowContract::get_escrow(inv, root));
    let result = net.try_call(|inv| {
        EscrowContract::create_child_escrow(
            inv,
            address(DEPOSITOR),
            address(BENEFICIARY),
            address(TOKEN),
            10,
            0,
            root,
            EscrowStatus::Released,
        )
    });
    assert_eq!(result, Err(Failure::Refused(EscrowError::CircularDependency)));
    assert_eq!(net.call(|inv| EscrowContract::get_escrow(inv, root)), before);
    assert_eq!(net.escrow_count, Some(0));
    assert_eq!(net.balance(&address(TOKEN), &address(CONTRACT)), 100);
    assert!(net.children.is_empty());
}

/// Nor does one become its own grandparent.
#[test]
fn no_escrow_becomes_its_own_grandparent() {
    let mut net = Network::initialized();
    let root = net.create(100, 0);
    let child = net.create_child(50, 0, root, EscrowStatus::Released);
    net.call(|inv| EscrowContract::initialize(inv, address(ADMIN)));
    let result = net.try_call(|inv| {
        EscrowContract::create_child_escrow(
            inv,
            address(DEPOSITOR),
            address(BENEFICIARY),
            address(TOKEN),
            10,
            0,
            child,
            EscrowStatus::Released,
        )
    });
    assert_eq!(result, Err(Failure::Refused(EscrowError::CircularDependency)));
    assert_eq!(net.escrows[&root].amount, 100);
}

/// A trigger reaches an escrow only through due ones.
#[test]
fn a_chain_with_a_gap_is_not_followed() {
    let mut net = Network::initialized();
    let root = net.create(100, 0);
    let late = net.create_child(10, 1000, root, EscrowStatus::Released);
    let below = net.create_child(5, 0, late, EscrowStatus::Released);
    let due = net.create_child(20, 0, root, EscrowStatus::Released);
    net.release(root);
    assert_eq!(net.status(late), EscrowStatus::Active);
    assert_eq!(net.status(below), EscrowStatus::Active);
    assert_eq!(net.status(due), EscrowStatus::Released);
}

// Commitment escrows

#[test]
fn test_commitment_escrow_valid_reveal() {
    let mut net = Network::initialized();
    let amount = 100i128;
    let escrow_id = net.commit(commitment_for(amount, blinding_factor()), 0);
    net.transfer(&address(TOKEN), &address(DEPOSITOR), &address(CONTRACT), amount);
    net.open(escrow_id, amount, blinding_factor());
    let escrow = net.call(|inv| EscrowContract::get_commitment_escrow(inv, escrow_id));
    assert_eq!(escrow.status, CommitmentEscrowStatus::Revealed);
    assert_eq!(net.balance(&address(TOKEN), &address(BENEFICIARY)), 100);
    assert_eq!(net.balance(&address(TOKEN), &address(CONTRACT)), 0);
}

#[test]
#[should_panic(expected = "Commitment verification failed")]
fn test_commitment_escrow_wrong_amount_rejected() {
    let mut net = Network::initialized();
    let amount = 100i128;
    let wrong_amount = 200i128;
    let escrow_id = net.commit(commitment_for(amount, blinding_factor()), 0);
    net.transfer(&address(TOKEN), &address(DEPOSITOR), &address(CONTRACT), amount);
    net.open(escrow_id, wrong_amount, blinding_factor());
}

#[test]
#[should_panic(expected = "Commitment verification failed")]
fn test_commitment_escrow_wrong_blinding_rejected() {
    let mut net = Network::initialized();
    let amount = 100i128;
    let wrong_blinding_factor = [
        32, 31, 30, 29, 28, 27, 26, 25, 24, 23, 22, 21, 20, 19, 18, 17, 16, 15, 14, 13, 12, 11, 10,
        9, 8, 7, 6, 5, 4, 3, 2, 1,
    ];
    let escrow_id = net.commit(commitment_for(amount, blinding_factor()), 0);
    net.transfer(&address(TOKEN), &address(DEPOSITOR), &address(CONTRACT), amount);
    net.open(escrow_id, amount, wrong_blinding_factor);
}

#[test]
#[should_panic(expected = "Commitment escrow is not active")]
fn test_commitment_escrow_double_reveal_rejected() {
    let mut net = Network::initialized();
    let amount = 100i128;
    let escrow_id = net.commit(commitment_for(amount, blinding_factor()), 0);
    net.transfer(&address(TOKEN), &address(DEPOSITOR), &address(CONTRACT), amount);
    assert!(net.try_open(escrow_id, amount, blinding_factor()).is_ok());
    net.open(escrow_id, amount, blinding_factor());
}

#[test]
fn test_commitment_escrow_release_time_enforced() {
    let mut net = Network::initialized();
    net.now = 500;
    let amount = 100i128;
    // The release time is 1000, the current time is 500.
    let escrow_id = net.commit(commitment_for(amount, blinding_factor()), 1000);
    net.transfer(&address(TOKEN), &address(DEPOSITOR), &address(CONTRACT), amount);
    let result = net.try_open(escrow_id, amount, blinding_factor());
    assert!(result.is_err());
    assert_eq!(result, Err(Failure::Refused(EscrowError::ReleaseTimeNotReached)));
}

#[test]
fn test_commitment_escrow_admin_refund() {
    let mut net = Network::initialized();
    let amount = 100i128;
    let escrow_id = net.commit(commitment_for(amount, blinding_factor()), 0);
    net.transfer(&address(TOKEN), &address(DEPOSITOR), &address(CONTRACT), amount);
    net.call(|inv| EscrowContract::refund_commitment_escrow(inv, escrow_id));
    let escrow = net.call(|inv| EscrowContract::get_commitment_escrow(inv, escrow_id));
    assert_eq!(escrow.status, CommitmentEscrowStatus::Refunded);
    assert_eq!(net.balance(&address(TOKEN), &address(DEPOSITOR)), 10_000);
}

#[test]
fn test_commitment_escrow_amount_hidden() {
    let mut net = Network::initialized();
    let commitment = [
        1, 2, 3, 4, 5, 6, 7, 8, 9, 10, 11, 12, 13, 14, 15, 16, 17, 18, 19, 20, 21, 22, 23, 24, 25,
        26, 27, 28, 29, 30, 31, 32,
    ];
    let escrow_id = net.commit(commitment, 0);
    let escrow = net.call(|inv| EscrowContract::get_commitment_escrow(inv, escrow_id));
    // The commitment is stored; there is no amount.
    assert_eq!(escrow.commitment, commitment);
}

// Money

#[test]
fn funds_follow_the_escrow() {
    let mut net = Network::initialized();
    let token = address(TOKEN);
    let first = net.create(100, 0);
    let second = net.create(40, 0);
    assert_eq!(net.balance(&token, &address(DEPOSITOR)), 9_860);
    assert_eq!(net.balance(&token, &address(CONTRACT)), 140);
    net.release(first);
    assert_eq!(net.balance(&token, &address(CONTRACT)), 40);
    assert_eq!(net.balance(&token, &address(BENEFICIARY)), 100);
    net.call(|inv| EscrowContract::refund(inv, second));
    assert_eq!(net.balance(&token, &address(CONTRACT)), 0);
    assert_eq!(net.balance(&token, &address(DEPOSITOR)), 9_900);
}

#[test]
fn a_cascade_pays_every_child_once() {
    let mut net = Network::initialized();
    let root = net.create(100, 0);
    let a = net.create_child(10, 0, root, EscrowStatus::Released);
    let b = net.create_child(20, 0, root, EscrowStatus::Released);
    let a1 = net.create_child(1, 0, a, EscrowStatus::Released);
    net.events.clear();
    net.release(root);
    // Depth first: a child's own children come before its siblings.
    assert_eq!(
        net.events,
        vec![
            Event::EscrowReleased(root),
            Event::EscrowReleased(a),
            Event::EscrowReleased(a1),
            Event::EscrowReleased(b),
        ]
    );
    assert_eq!(net.balance(&address(TOKEN), &address(BENEFICIARY)), 131);
    assert_eq!(net.balance(&address(TOKEN), &address(CONTRACT)), 0);
    // Triggering again changes nothing.
    net.events.clear();
    net.call(|inv| EscrowContract::trigger_children(inv, root));
    assert!(net.events.is_empty());
    assert_eq!(net.balance(&address(TOKEN), &address(BENEFICIARY)), 131);
}

#[test]
fn a_refund_triggers_the_children_that_wait_for_it() {
    let mut net = Network::initialized();
    let root = net.create(100, 0);
    let on_refund = net.create_child(10, 0, root, EscrowStatus::Refunded);
    let on_release = net.create_child(20, 0, root, EscrowStatus::Released);
    let grandchild = net.create_child(5, 0, on_refund, EscrowStatus::Released);
    net.call(|inv| EscrowContract::refund(inv, root));
    assert_eq!(net.status(root), EscrowStatus::Refunded);
    assert_eq!(net.status(on_refund), EscrowStatus::Released);
    assert_eq!(net.status(grandchild), EscrowStatus::Released);
    assert_eq!(net.status(on_release), EscrowStatus::Active);
    assert_eq!(
        net.try_release(on_release),
        Err(Failure::Refused(EscrowError::ParentStatusNotReached))
    );
}

#[test]
fn children_are_triggered_once_their_time_has_come() {
    let mut net = Network::initialized();
    let root = net.create(100, 0);
    let late = net.create_child(10, 1000, root, EscrowStatus::Released);
    net.now = 999;
    net.release(root);
    assert_eq!(net.status(late), EscrowStatus::Active);
    net.call(|inv| EscrowContract::trigger_children(inv, root));
    assert_eq!(net.status(late), EscrowStatus::Active);
    net.now = 1000;
    net.call(|inv| EscrowContract::trigger_children(inv, root));
    assert_eq!(net.status(late), EscrowStatus::Released);
}

#[test]
fn triggering_under_nothing_does_nothing() {
    let mut net = Network::initialized();
    net.events.clear();
    net.call(|inv| EscrowContract::trigger_children(inv, 7));
    assert!(net.events.is_empty());
    assert!(net.escrows.is_empty());
}

#[test]
fn a_child_can_wait_for_an_active_parent() {
    let mut net = Network::initialized();
    let root = net.create(100, 0);
    let child = net.create_child(10, 0, root, EscrowStatus::Active);
    net.call(|inv| EscrowContract::trigger_children(inv, root));
    assert_eq!(net.status(child), EscrowStatus::Released);
    assert_eq!(net.status(root), EscrowStatus::Active);
}

#[test]
fn a_disputed_child_is_passed_over() {
    let mut net = Network::initialized();
    let root = net.create(100, 0);
    let child = net.create_child(10, 0, root, EscrowStatus::Released);
    net.call(|inv| EscrowContract::dispute(inv, child));
    net.release(root);
    assert_eq!(net.status(child), EscrowStatus::Disputed);
}

// Who may do what

#[test]
fn each_call_needs_its_own_party() {
    let mut net = Network::initialized();
    let id = net.create(100, 0);
    let committed = net.commit([0; 32], 0);

    net.signers = Some(vec![address(ADMIN), address(BENEFICIARY), address(STRANGER)]);
    assert_eq!(net.try_release(id), Err(Failure::Unauthorized(address(DEPOSITOR))));
    assert_eq!(
        net.try_open(committed, 1, [0; 32]),
        Err(Failure::Unauthorized(address(DEPOSITOR)))
    );

    net.signers = Some(vec![address(DEPOSITOR), address(BENEFICIARY)]);
    assert_eq!(
        net.try_call(|inv| EscrowContract::refund(inv, id)),
        Err(Failure::Unauthorized(address(ADMIN)))
    );
    assert_eq!(
        net.try_call(|inv| EscrowContract::refund_commitment_escrow(inv, committed)),
        Err(Failure::Unauthorized(address(ADMIN)))
    );
    assert_eq!(
        net.try_call(|inv| EscrowContract::initialize(inv, address(ADMIN))),
        Err(Failure::Unauthorized(address(ADMIN)))
    );

    net.signers = Some(vec![address(DEPOSITOR), address(ADMIN)]);
    assert_eq!(
        net.try_call(|inv| EscrowContract::dispute(inv, id)),
        Err(Failure::Unauthorized(address(BENEFICIARY)))
    );

    net.signers = Some(vec![address(BENEFICIARY)]);
    assert_eq!(
        net.try_call(|inv| EscrowContract::create_escrow(
            inv,
            address(DEPOSITOR),
            address(BENEFICIARY),
            address(TOKEN),
            100,
            0
        )),
        Err(Failure::Unauthorized(address(DEPOSITOR)))
    );
    assert_eq!(
        net.try_call(|inv| EscrowContract::create_commitment_escrow(
            inv,
            address(DEPOSITOR),
            address(BENEFICIARY),
            address(TOKEN),
            [0; 32],
            0
        )),
        Err(Failure::Unauthorized(address(DEPOSITOR)))
    );
    assert_eq!(
        net.try_call(|inv| EscrowContract::create_child_escrow(
            inv,
            address(DEPOSITOR),
            address(BENEFICIARY),
            address(TOKEN),
            100,
            0,
            id,
            EscrowStatus::Released
        )),
        Err(Failure::Unauthorized(address(DEPOSITOR)))
    );
    assert_eq!(net.status(id), EscrowStatus::Active);
    assert_eq!(net.escrow_count, Some(1));

    // Children are triggered without anybody's authorization.
    net.signers = Some(Vec::new());
    net.call(|inv| EscrowContract::trigger_children(inv, id));
}

// Refusals

#[test]
fn missing_escrows_are_reported() {
    let mut net = Network::initialized();
    let missing = Err(Failure::Refused(EscrowError::EscrowNotFound));
    assert_eq!(net.try_release(9), missing);
    assert_eq!(net.try_call(|inv| EscrowContract::refund(inv, 9)), missing);
    assert_eq!(net.try_call(|inv| EscrowContract::dispute(inv, 9)), missing);
    assert_eq!(
        net.try_call(|inv| EscrowContract::get_escrow(inv, 9)).err(),
        Some(Failure::Refused(EscrowError::EscrowNotFound))
    );
    let missing = Err(Failure::Refused(EscrowError::CommitmentEscrowNotFound));
    assert_eq!(net.try_open(9, 1, [0; 32]), missing);
    assert_eq!(net.try_call(|inv| EscrowContract::refund_commitment_escrow(inv, 9)), missing);
    assert_eq!(
        net.try_call(|inv| EscrowContract::get_commitment_escrow(inv, 9)).err(),
        Some(Failure::Refused(EscrowError::CommitmentEscrowNotFound))
    );
    let children = net.call(|inv| EscrowContract::get_child_escrows(inv, 9));
    assert!(children.is_empty());
}

#[test]
fn a_child_needs_a_parent() {
    let mut net = Network::initialized();
    let result = net.try_call(|inv| {
        EscrowContract::create_child_escrow(
            inv,
            address(DEPOSITOR),
            address(BENEFICIARY),
            address(TOKEN),
            10,
            0,
            9,
            EscrowStatus::Released,
        )
    });
    assert_eq!(result, Err(Failure::Refused(EscrowError::ParentNotFound)));
    assert_eq!(net.escrow_count, Some(0));
    // The amount is looked at before the parent.
    let result = net.try_call(|inv| {
        EscrowContract::create_child_escrow(
            inv,
            address(DEPOSITOR),
            address(BENEFICIARY),
            address(TOKEN),
            -1,
            0,
            9,
            EscrowStatus::Released,
        )
    });
    assert_eq!(result, Err(Failure::Refused(EscrowError::AmountNotPositive)));
    // A child whose parent has gone cannot be released.
    let root = net.create(100, 0);
    let child = net.create_child(10, 0, root, EscrowStatus::Released);
    net.escrows.remove(&root);
    assert_eq!(net.try_release(child), Err(Failure::Refused(EscrowError::ParentNotFound)));
}

#[test]
fn a_closed_escrow_stays_closed() {
    let mut net = Network::initialized();
    let id = net.create(100, 0);
    net.release(id);
    assert_eq!(net.try_release(id), Err(Failure::Refused(EscrowError::EscrowNotActive)));
    assert_eq!(
        net.try_call(|inv| EscrowContract::dispute(inv, id)),
        Err(Failure::Refused(EscrowError::EscrowNotActive))
    );
    assert_eq!(
        net.try_call(|inv| EscrowContract::refund(inv, id)),
        Err(Failure::Refused(EscrowError::NotRefundable))
    );
    assert_eq!(net.balance(&address(TOKEN), &address(BENEFICIARY)), 100);
}

#[test]
fn a_disputed_escrow_cannot_be_released() {
    let mut net = Network::initialized();
    let id = net.create(100, 0);
    net.call(|inv| EscrowContract::dispute(inv, id));
    assert_eq!(net.try_release(id), Err(Failure::Refused(EscrowError::EscrowNotActive)));
    net.call(|inv| EscrowContract::refund(inv, id));
    assert_eq!(net.balance(&address(TOKEN), &address(DEPOSITOR)), 10_000);
}

#[test]
fn without_an_administrator_nothing_is_refunded() {
    let mut net = Network::new();
    let id = net.create(100, 0);
    let committed = net.commit([0; 32], 0);
    assert_eq!(
        net.try_call(|inv| EscrowContract::refund(inv, id)),
        Err(Failure::Refused(EscrowError::AdminNotSet))
    );
    assert_eq!(
        net.try_call(|inv| EscrowContract::refund_commitment_escrow(inv, committed)),
        Err(Failure::Refused(EscrowError::AdminNotSet))
    );
}

#[test]
fn ids_run_out() {
    let mut net = Network::initialized();
    net.escrow_count = Some(u64::MAX - 1);
    assert_eq!(net.create(100, 0), u64::MAX);
    let result = net.try_call(|inv| {
        EscrowContract::create_escrow(
            inv,
            address(DEPOSITOR),
            address(BENEFICIARY),
            address(TOKEN),
            100,
            0,
        )
    });
    assert_eq!(result, Err(Failure::Refused(EscrowError::IdsExhausted)));
    assert_eq!(net.balance(&address(TOKEN), &address(CONTRACT)), 100);
    net.commitment_count = Some(u64::MAX);
    let result = net.try_call(|inv| {
        EscrowContract::create_commitment_escrow(
            inv,
            address(DEPOSITOR),
            address(BENEFICIARY),
            address(TOKEN),
            [0; 32],
            0,
        )
    });
    assert_eq!(result, Err(Failure::Refused(EscrowError::IdsExhausted)));
}

#[test]
fn a_reveal_needs_the_funds() {
    let mut net = Network::initialized();
    let id = net.commit(commitment_for(100, blinding_factor()), 0);
    net.transfer(&address(TOKEN), &address(DEPOSITOR), &address(CONTRACT), 99);
    assert_eq!(
        net.try_open(id, 100, blinding_factor()),
        Err(Failure::Refused(EscrowError::InsufficientBalance))
    );
    assert_eq!(
        net.try_open(id, 0, blinding_factor()),
        Err(Failure::Refused(EscrowError::AmountNotPositive))
    );
    net.transfer(&address(TOKEN), &address(DEPOSITOR), &address(CONTRACT), 1);
    assert_eq!(net.try_open(id, 100, blinding_factor()), Ok(()));
    assert_eq!(
        net.try_call(|inv| EscrowContract::refund_commitment_escrow(inv, id)),
        Err(Failure::Refused(EscrowError::CommitmentEscrowNotActive))
    );
}

#[test]
fn an_unfunded_commitment_is_refunded_without_a_transfer() {
    let mut net = Network::initialized();
    let id = net.commit([0; 32], 0);
    let moves = net.balances.len();
    net.call(|inv| EscrowContract::refund_commitment_escrow(inv, id));
    assert_eq!(net.balances.len(), moves);
    assert_eq!(net.events.last(), Some(&Event::CommitmentEscrowRefunded(id)));
}

/// Refunding a commitment escrow hands over all that the contract holds of its
/// token, and nothing of other tokens.
#[test]
fn a_commitment_refund_draws_on_all_holdings_of_its_token() {
    let mut net = Network::initialized();
    let other_token = address(7);
    net.create(100, 0);
    net.balances.push((other_token, address(CONTRACT), 30));
    let id = net.commit([0; 32], 0);
    net.transfer(&address(TOKEN), &address(DEPOSITOR), &address(CONTRACT), 5);
    net.call(|inv| EscrowContract::refund_commitment_escrow(inv, id));
    assert_eq!(net.balance(&address(TOKEN), &address(CONTRACT)), 0);
    assert_eq!(net.balance(&address(TOKEN), &address(DEPOSITOR)), 10_000);
    assert_eq!(net.balance(&other_token, &address(CONTRACT)), 30);
}

/// Escrow ids and commitment escrow ids are counted separately, from 1.
#[test]
fn ids_are_consecutive() {
    let mut net = Network::initialized();
    assert_eq!(net.create(1, 0), 1);
    assert_eq!(net.commit([0; 32], 0), 1);
    assert_eq!(net.create(1, 0), 2);
    assert_eq!(net.commit([0; 32], 0), 2);
    assert_eq!(net.create_child(1, 0, 1, EscrowStatus::Released), 3);
}

/// Initializing again starts the ids over.
#[test]
fn initializing_again_starts_over() {
    let mut net = Network::initialized();
    assert_eq!(net.create(1, 0), 1);
    net.call(|inv| EscrowContract::initialize(inv, address(STRANGER)));
    assert_eq!(net.admin, Some(address(STRANGER)));
    assert_eq!(net.create(2, 0), 1);
    assert_eq!(net.escrows[&1].amount, 2);
}

/// What is read back is what was written.
#[test]
fn escrows_read_back_as_created() {
    let mut net = Network::initialized();
    let root = net.create(7, 11);
    let child = net.create_child(8, 12, root, EscrowStatus::Disputed);
    let expected = Escrow {
        depositor: address(DEPOSITOR),
        beneficiary: address(BENEFICIARY),
        token: address(TOKEN),
        amount: 7,
        status: EscrowStatus::Active,
        release_time: 11,
        parent_escrow_id: 0,
        required_parent_status: ParentStatusRequirement::Unconstrained,
    };
    assert_eq!(net.call(|inv| EscrowContract::get_escrow(inv, root)), expected);
    let expected = Escrow {
        amount: 8,
        release_time: 12,
        parent_escrow_id: root,
        required_parent_status: ParentStatusRequirement::Status(EscrowStatus::Disputed),
        ..expected
    };
    assert_eq!(net.call(|inv| EscrowContract::get_escrow(inv, child)), expected);
    let committed = net.commit([9; 32], 13);
    assert_eq!(
        net.call(|inv| EscrowContract::get_commitment_escrow(inv, committed)),
        CommitmentEscrow {
            depositor: address(DEPOSITOR),
            beneficiary: address(BENEFICIARY),
            token: address(TOKEN),
            commitment: [9; 32],
            status: CommitmentEscrowStatus::Active,
            release_time: 13,
        }
    );
}
