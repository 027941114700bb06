//! One invocation of the contract: the facts it may read and the actions it
//! asks for.
//!
//! The contract's rules are pure. What they read from the network (storage
//! entries, granted authorizations, the ledger's time, a token balance) is put
//! into an [`Invocation`] beforehand, and what they want done (writes,
//! transfers, events) is recorded in it, in order. A rule that needs a fact
//! that is not there yet changes nothing and says which fact it needs
//! ([`Halt`]); the caller supplies it and invokes the rule again.

use std::collections::BTreeMap;

use vstd::prelude::*;

use crate::types::{Address, CommitmentEscrow, DataKey, Escrow};

verus! {

broadcast use vstd::std_specs::btree::group_btree_axioms;

/// Why the contract refuses a call.
#[derive(Clone, Copy, Debug, PartialEq, Eq, Structural)]
pub enum EscrowError {
    AmountNotPositive,
    EscrowNotFound,
    ParentNotFound,
    CircularDependency,
    EscrowNotActive,
    ReleaseTimeNotReached,
    ParentStatusNotReached,
    AdminNotSet,
    NotRefundable,
    CommitmentEscrowNotFound,
    CommitmentEscrowNotActive,
    CommitmentMismatch,
    InsufficientBalance,
    IdsExhausted,
}

impl EscrowError {
    /// The text with which the refused call fails.
    pub open spec fn text(self) -> Seq<char> {
        match self {
            EscrowError::AmountNotPositive => "Amount must be greater than zero"@,
            EscrowError::EscrowNotFound => "Escrow not found"@,
            EscrowError::ParentNotFound => "Parent escrow not found"@,
            EscrowError::CircularDependency => "Circular dependency detected"@,
            EscrowError::EscrowNotActive => "Escrow is not active"@,
            EscrowError::ReleaseTimeNotReached => "Release time has not been reached"@,
            EscrowError::ParentStatusNotReached =>
                "Parent escrow has not reached the required status"@,
            EscrowError::AdminNotSet => "Admin not set"@,
            EscrowError::NotRefundable => "Escrow cannot be refunded in current status"@,
            EscrowError::CommitmentEscrowNotFound => "Commitment escrow not found"@,
            EscrowError::CommitmentEscrowNotActive => "Commitment escrow is not active"@,
            EscrowError::CommitmentMismatch => "Commitment verification failed"@,
            EscrowError::InsufficientBalance => "Insufficient balance in contract"@,
            EscrowError::IdsExhausted => "attempt to add with overflow"@,
        }
    }

    /// The text with which the refused call fails.
    pub fn message(&self) -> (message: &'static str)
        ensures
            message@ == self.text(),
    {
        match self {
            EscrowError::AmountNotPositive => "Amount must be greater than zero",
            EscrowError::EscrowNotFound => "Escrow not found",
            EscrowError::ParentNotFound => "Parent escrow not found",
            EscrowError::CircularDependency => "Circular dependency detected",
            EscrowError::EscrowNotActive => "Escrow is not active",
            EscrowError::ReleaseTimeNotReached => "Release time has not been reached",
            EscrowError::ParentStatusNotReached =>
                "Parent escrow has not reached the required status",
            EscrowError::AdminNotSet => "Admin not set",
            EscrowError::NotRefundable => "Escrow cannot be refunded in current status",
            EscrowError::CommitmentEscrowNotFound => "Commitment escrow not found",
            EscrowError::CommitmentEscrowNotActive => "Commitment escrow is not active",
            EscrowError::CommitmentMismatch => "Commitment verification failed",
            EscrowError::InsufficientBalance => "Insufficient balance in contract",
            EscrowError::IdsExhausted => "attempt to add with overflow",
        }
    }
}

/// Why a call stopped before it was decided in the caller's favour.
#[derive(Clone, Copy, Debug, PartialEq, Eq)]
pub enum Halt {
    /// The entry under this key has not been loaded.
    Load(DataKey),
    /// This address has not authorized the call.
    Authorize(Address),
    /// The contract's balance of this token is not known.
    Balance(Address),
    /// The call is refused.
    Reject(EscrowError),
}

/// One side of a transfer.
#[derive(Clone, Copy, Debug, PartialEq, Eq)]
pub enum Holder {
    /// The escrow contract itself.
    Contract,
    Other(Address),
}

/// What the contract announces.
#[derive(Clone, Copy, Debug, PartialEq, Eq, Structural)]
pub enum Event {
    EscrowCreated(u64),
    /// The new child and its parent.
    ChildEscrowCreated(u64, u64),
    EscrowReleased(u64),
    EscrowRefunded(u64),
    EscrowDisputed(u64),
    CommitmentEscrowCreated(u64),
    CommitmentEscrowRevealed(u64),
    CommitmentEscrowRefunded(u64),
}

impl Event {
    /// The topic under which the event is published.
    pub open spec fn topic_text(self) -> Seq<char> {
        match self {
            Event::EscrowCreated(_) => "escrow_created"@,
            Event::ChildEscrowCreated(_, _) => "child_escrow_created"@,
            Event::EscrowReleased(_) => "escrow_released"@,
            Event::EscrowRefunded(_) => "escrow_refunded"@,
            Event::EscrowDisputed(_) => "escrow_disputed"@,
            Event::CommitmentEscrowCreated(_) => "commitment_escrow_created"@,
            Event::CommitmentEscrowRevealed(_) => "commitment_escrow_revealed"@,
            Event::CommitmentEscrowRefunded(_) => "commitment_escrow_refunded"@,
        }
    }

    /// The topic under which the event is published.
    pub fn topic(&self) -> (topic: &'static str)
        ensures
            topic@ == self.topic_text(),
    {
        match self {
            Event::EscrowCreated(_) => "escrow_created",
            Event::ChildEscrowCreated(_, _) => "child_escrow_created",
            Event::EscrowReleased(_) => "escrow_released",
            Event::EscrowRefunded(_) => "escrow_refunded",
            Event::EscrowDisputed(_) => "escrow_disputed",
            Event::CommitmentEscrowCreated(_) => "commitment_escrow_created",
            Event::CommitmentEscrowRevealed(_) => "commitment_escrow_revealed",
            Event::CommitmentEscrowRefunded(_) => "commitment_escrow_refunded",
        }
    }
}

/// What a decided call wants done. Actions are performed in the order in which
/// they were recorded; if one fails, the whole call fails and none takes effect.
#[derive(Clone, Copy, Debug, PartialEq, Eq)]
pub enum Action {
    /// Write the entry under this key, as it stands in the invocation.
    Store(DataKey),
    Transfer { token: Address, from: Holder, to: Holder, amount: i128 },
    Publish(Event),
}

/// The facts and the actions of an invocation, as mathematical values.
#[verifier::ext_equal]
pub struct InvocationView {
    /// The ledger's time.
    pub now: u64,
    pub admin: Option<Address>,
    pub escrow_count: Option<u64>,
    pub commitment_count: Option<u64>,
    /// The loaded escrow entries; `None` where nothing is stored.
    pub escrows: Map<u64, Option<Escrow>>,
    /// The loaded lists of child ids; empty where nothing is stored.
    pub children: Map<u64, Seq<u64>>,
    /// The loaded commitment escrow entries; `None` where nothing is stored.
    pub commitments: Map<u64, Option<CommitmentEscrow>>,
    /// The addresses that have authorized the call.
    pub authorized: Set<Address>,
    /// A token and the contract's balance of it. A transfer makes it unknown.
    pub balance: Option<(Address, i128)>,
    /// The actions recorded so far.
    pub actions: Seq<Action>,
}

/// The facts that one invocation of the contract may read and the actions that
/// it has asked for.
pub struct Invocation {
    now: u64,
    admin: Option<Address>,
    escrow_count: Option<u64>,
    commitment_count: Option<u64>,
    escrows: BTreeMap<u64, Option<Escrow>>,
    children: BTreeMap<u64, Vec<u64>>,
    commitments: BTreeMap<u64, Option<CommitmentEscrow>>,
    authorized: Vec<Address>,
    balance: Option<(Address, i128)>,
    actions: Vec<Action>,
}

impl View for Invocation {
    type V = InvocationView;

    closed spec fn view(&self) -> InvocationView {
        InvocationView {
            now: self.now,
            admin: self.admin,
            escrow_count: self.escrow_count,
            commitment_count: self.commitment_count,
            escrows: self.escrows@,
            children: self.children@.map_values(|list: Vec<u64>| list@),
            commitments: self.commitments@,
            authorized: self.authorized@.to_set(),
            balance: self.balance,
            actions: self.actions@,
        }
    }
}

impl Invocation {
    /// An invocation at the given time, with the contract's instance entries
    /// (`None` where nothing is stored) and no other facts.
    pub fn new(
        now: u64,
        admin: Option<Address>,
        escrow_count: Option<u64>,
        commitment_count: Option<u64>,
    ) -> (inv: Self)
        ensures
            inv@ == (InvocationView {
                now,
                admin,
                escrow_count,
                commitment_count,
                escrows: Map::empty(),
                children: Map::empty(),
                commitments: Map::empty(),
                authorized: Set::empty(),
                balance: None,
                actions: Seq::empty(),
            }),
    {
        let inv = Invocation {
            now,
            admin,
            escrow_count,
            commitment_count,
            escrows: BTreeMap::new(),
            children: BTreeMap::new(),
            commitments: BTreeMap::new(),
            authorized: Vec::new(),
            balance: None,
            actions: Vec::new(),
        };
        assert(inv@.children =~= Map::empty());
        assert(inv@.authorized =~= Set::empty());
        inv
    }

    /// Supplies the entry of escrow `id`: `None` where nothing is stored.
    pub fn load_escrow(&mut self, id: u64, entry: Option<Escrow>)
        ensures
            final(self)@ == (InvocationView {
                escrows: old(self)@.escrows.insert(id, entry),
                ..old(self)@
            }),
    {
        self.escrows.insert(id, entry);
    }

    /// Supplies the list of the child ids of `parent_id`: empty where nothing is
    /// stored.
    pub fn load_children(&mut self, parent_id: u64, ids: Vec<u64>)
        ensures
            final(self)@ == (InvocationView {
                children: old(self)@.children.insert(parent_id, ids@),
                ..old(self)@
            }),
    {
        self.children.insert(parent_id, ids);
        assert(self@.children =~= old(self)@.children.insert(parent_id, ids@));
    }

    /// Supplies the entry of commitment escrow `id`: `None` where nothing is
    /// stored.
    pub fn load_commitment_escrow(&mut self, id: u64, entry: Option<CommitmentEscrow>)
        ensures
            final(self)@ == (InvocationView {
                commitments: old(self)@.commitments.insert(id, entry),
                ..old(self)@
            }),
    {
        self.commitments.insert(id, entry);
    }

    /// Supplies that `address` has authorized the call.
    pub fn authorize(&mut self, address: Address)
        ensures
            final(self)@ == (InvocationView {
                authorized: old(self)@.authorized.insert(address),
                ..old(self)@
            }),
    {
        self.authorized.push(address);
        proof {
            let before = old(self).authorized@;
            assert(self.authorized@[before.len() as int] == address);
            assert forall|a: Address| before.contains(a) implies self.authorized@.contains(a) by {
                let i = choose|i: int| 0 <= i < before.len() && before[i] == a;
                assert(self.authorized@[i] == a);
            }
            assert(self@.authorized =~= old(self)@.authorized.insert(address));
        }
    }

    /// Supplies the contract's balance of `token`.
    pub fn load_balance(&mut self, token: Address, amount: i128)
        ensures
            final(self)@ == (InvocationView { balance: Some((token, amount)), ..old(self)@ }),
    {
        self.balance = Some((token, amount));
    }

    /// The ledger's time.
    pub fn now(&self) -> (now: u64)
        ensures
            now == self@.now,
    {
        self.now
    }

    /// The administrator, if one is set.
    pub fn admin(&self) -> (admin: Option<Address>)
        ensures
            admin == self@.admin,
    {
        self.admin
    }

    /// The number of escrows created so far, if it is stored.
    pub fn escrow_count(&self) -> (count: Option<u64>)
        ensures
            count == self@.escrow_count,
    {
        self.escrow_count
    }

    /// The number of commitment escrows created so far, if it is stored.
    pub fn commitment_count(&self) -> (count: Option<u64>)
        ensures
            count == self@.commitment_count,
    {
        self.commitment_count
    }

    /// The entry of escrow `id`, if it is loaded.
    pub fn escrow(&self, id: u64) -> (entry: Option<Option<Escrow>>)
        ensures
            entry == (if self@.escrows.contains_key(id) {
                Some(self@.escrows[id])
            } else {
                None
            }),
    {
        match self.escrows.get(&id) {
            Some(entry) => Some(*entry),
            None => None,
        }
    }

    /// The child ids of `parent_id`, if they are loaded.
    pub fn children(&self, parent_id: u64) -> (ids: Option<&Vec<u64>>)
        ensures
            match ids {
                Some(ids) => self@.children.contains_key(parent_id)
                    && self@.children[parent_id] == ids@,
                None => !self@.children.contains_key(parent_id),
            },
    {
        self.children.get(&parent_id)
    }

    /// The entry of commitment escrow `id`, if it is loaded.
    pub fn commitment_escrow(&self, id: u64) -> (entry: Option<Option<CommitmentEscrow>>)
        ensures
            entry == (if self@.commitments.contains_key(id) {
                Some(self@.commitments[id])
            } else {
                None
            }),
    {
        match self.commitments.get(&id) {
            Some(entry) => Some(*entry),
            None => None,
        }
    }

    /// Whether `address` has authorized the call.
    pub fn is_authorized(&self, address: &Address) -> (yes: bool)
        ensures
            yes == self@.authorized.contains(*address),
    {
        let mut i: usize = 0;
        while i < self.authorized.len()
            invariant
                i <= self.authorized@.len(),
                forall|j: int| 0 <= j < i ==> self.authorized@[j] != *address,
            decreases self.authorized@.len() - i,
        {
            if self.authorized[i] == *address {
                return true;
            }
            i += 1;
        }
        false
    }

    /// The contract's balance of `token`, if it is known.
    pub fn balance_of(&self, token: &Address) -> (amount: Option<i128>)
        ensures
            amount == self@.balance_of(*token),
    {
        match self.balance {
            Some((known, amount)) => if known == *token {
                Some(amount)
            } else {
                None
            },
            None => None,
        }
    }

    /// The actions recorded so far, in order.
    pub fn actions(&self) -> (actions: &Vec<Action>)
        ensures
            actions@ == self@.actions,
    {
        &self.actions
    }

    /// Writes the entry of escrow `id`.
    pub(crate) fn store_escrow(&mut self, id: u64, escrow: Escrow)
        ensures
            final(self)@ == old(self)@.store_escrow(id, escrow),
    {
        self.escrows.insert(id, Some(escrow));
        self.actions.push(Action::Store(DataKey::Escrow(id)));
    }

    /// Appends `child_id` to the children of `parent_id`.
    pub(crate) fn store_child(&mut self, parent_id: u64, child_id: u64)
        requires
            old(self)@.children.contains_key(parent_id),
        ensures
            final(self)@ == old(self)@.store_child(parent_id, child_id),
    {
        let mut ids: Vec<u64> = Vec::new();
        if let Some(list) = self.children.get(&parent_id) {
            ids = list.clone();
        }
        assert(ids@ =~= old(self)@.children[parent_id]);
        ids.push(child_id);
        self.children.insert(parent_id, ids);
        self.actions.push(Action::Store(DataKey::ChildEscrows(parent_id)));
        assert(self@.children =~= old(self)@.children.insert(parent_id, ids@));
    }

    /// Writes the entry of commitment escrow `id`.
    pub(crate) fn store_commitment(&mut self, id: u64, escrow: CommitmentEscrow)
        ensures
            final(self)@ == old(self)@.store_commitment(id, escrow),
    {
        self.commitments.insert(id, Some(escrow));
        self.actions.push(Action::Store(DataKey::CommitmentEscrow(id)));
    }

    /// Writes the administrator.
    pub(crate) fn store_admin(&mut self, admin: Address)
        ensures
            final(self)@ == old(self)@.store_admin(admin),
    {
        self.admin = Some(admin);
        self.actions.push(Action::Store(DataKey::Admin));
    }

    /// Writes the number of escrows.
    pub(crate) fn store_escrow_count(&mut self, count: u64)
        ensures
            final(self)@ == old(self)@.store_escrow_count(count),
    {
        self.escrow_count = Some(count);
        self.actions.push(Action::Store(DataKey::EscrowCount));
    }

    /// Writes the number of commitment escrows.
    pub(crate) fn store_commitment_count(&mut self, count: u64)
        ensures
            final(self)@ == old(self)@.store_commitment_count(count),
    {
        self.commitment_count = Some(count);
        self.actions.push(Action::Store(DataKey::CommitmentEscrowCount));
    }

    /// Asks for a transfer.
    pub(crate) fn transfer(&mut self, token: Address, from: Holder, to: Holder, amount: i128)
        ensures
            final(self)@ == old(self)@.transfer(token, from, to, amount),
    {
        self.balance = None;
        self.actions.push(Action::Transfer { token, from, to, amount });
    }

    /// Asks for an event to be published.
    pub(crate) fn publish(&mut self, event: Event)
        ensures
            final(self)@ == old(self)@.publish(event),
    {
        self.actions.push(Action::Publish(event));
    }

    /// A copy to work on, so that a call that stops half-way leaves this one as
    /// it was.
    pub(crate) fn fork(&self) -> (copy: Self)
        ensures
            copy@ == self@,
    {
        Invocation {
            now: self.now,
            admin: self.admin,
            escrow_count: self.escrow_count,
            commitment_count: self.commitment_count,
            escrows: self.escrows.clone(),
            children: self.children.clone(),
            commitments: self.commitments.clone(),
            authorized: self.authorized.clone(),
            balance: self.balance,
            actions: self.actions.clone(),
        }
    }

    /// Only finitely many entries are loaded.
    pub proof fn lemma_finite(&self)
        ensures
            self@.finite(),
    {
    }
}

/// The effect of the single steps of which the contract's calls are made.
impl InvocationView {
    /// Only finitely many escrow entries are loaded.
    pub open spec fn finite(self) -> bool {
        self.escrows.dom().finite()
    }

    pub open spec fn balance_of(self, token: Address) -> Option<i128> {
        match self.balance {
            Some((known, amount)) => if known == token {
                Some(amount)
            } else {
                None
            },
            None => None,
        }
    }

    pub open spec fn record(self, action: Action) -> Self {
        InvocationView { actions: self.actions.push(action), ..self }
    }

    pub open spec fn store_escrow(self, id: u64, escrow: Escrow) -> Self {
        InvocationView { escrows: self.escrows.insert(id, Some(escrow)), ..self }.record(
            Action::Store(DataKey::Escrow(id)),
        )
    }

    pub open spec fn store_child(self, parent_id: u64, child_id: u64) -> Self {
        InvocationView {
            children: self.children.insert(parent_id, self.children[parent_id].push(child_id)),
            ..self
        }.record(Action::Store(DataKey::ChildEscrows(parent_id)))
    }

    pub open spec fn store_commitment(self, id: u64, escrow: CommitmentEscrow) -> Self {
        InvocationView { commitments: self.commitments.insert(id, Some(escrow)), ..self }.record(
            Action::Store(DataKey::CommitmentEscrow(id)),
        )
    }

    pub open spec fn store_admin(self, admin: Address) -> Self {
        InvocationView { admin: Some(admin), ..self }.record(Action::Store(DataKey::Admin))
    }

    pub open spec fn store_escrow_count(self, count: u64) -> Self {
        InvocationView { escrow_count: Some(count), ..self }.record(
            Action::Store(DataKey::EscrowCount),
        )
    }

    pub open spec fn store_commitment_count(self, count: u64) -> Self {
        InvocationView { commitment_count: Some(count), ..self }.record(
            Action::Store(DataKey::CommitmentEscrowCount),
        )
    }

    pub open spec fn transfer(self, token: Address, from: Holder, to: Holder, amount: i128) -> Self {
        InvocationView { balance: None, ..self }.record(
            Action::Transfer { token, from, to, amount },
        )
    }

    pub open spec fn publish(self, event: Event) -> Self {
        self.record(Action::Publish(event))
    }
}

} // verus!
