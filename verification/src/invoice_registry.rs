//! The invoice registry: invoices under a Pedersen commitment of their amount,
//! their way from registration to repayment, their tokens, and timelocked
//! upgrades of the contract itself. No plaintext amount is ever stored; who
//! holds the opening of a commitment can prove the amount to others.

use vstd::prelude::*;

use crate::ident::{Address, Authorization, Symbol};
use crate::nft;
use crate::nft::{TokenLedger, TokenLedgerState, TransferRecord};
use crate::pedersen;
use crate::table::{Key, Table};

verus! {

/// What the registry refuses a call for.
#[derive(Clone, Copy, Debug, PartialEq, Eq, PartialOrd, Ord, Structural)]
pub enum ContractError {
    /// `initialize` called on an already initialized contract.
    AlreadyInitialized,
    /// A call for the admin was made before `initialize`.
    NotInitialized,
    /// `register` was called with an id that already exists.
    InvoiceAlreadyExists,
    /// The referenced invoice does not exist.
    InvoiceNotFound,
    /// The caller is not the admin.
    Unauthorized,
    /// A lifecycle transition was attempted from the wrong status.
    InvalidStatus,
    /// A commitment scale has no inverse modulo the field's prime.
    ScaleNotInvertible,
    /// A transition was attempted on a frozen invoice.
    InvoiceFrozen,
    /// `verify_invoice` was called by somebody who is no verifier.
    NotVerifier,
    /// An upgrade was to be executed or cancelled with none queued.
    NoQueuedUpgrade,
    /// `execute_upgrade` was called before the timelock elapsed.
    UpgradeTimelockNotElapsed,
    /// `execute_upgrade` was called while upgrades are paused.
    UpgradesPaused,
}

/// The key of an invoice.
#[derive(Clone, Copy, Debug, PartialEq, Eq, Structural)]
pub struct InvoiceKey(pub Symbol);

/// The key of a verifier's status: a fixed marker, which keeps it apart from
/// every key that is a single name, and the verifier.
#[derive(Clone, Copy, Debug, PartialEq, Eq, Structural)]
pub struct VerifierKey(pub Symbol, pub Symbol);

/// The name `verifier`, the marker of a verifier's key.
pub const VERIFIER_TAG: u128 = 0x7665_7269_6669_6572_0000_0000_0000_0000;

/// The least delay, in seconds, between queuing an upgrade and executing it:
/// 48 hours.
pub const UPGRADE_TIMELOCK_SECS: u64 = 172_800;

impl Key for InvoiceKey {
    fn same(&self, other: &Self) -> (r: bool) {
        *self == *other
    }
}

impl Key for VerifierKey {
    fn same(&self, other: &Self) -> (r: bool) {
        *self == *other
    }
}

/// Where an invoice is in its life.
#[derive(Clone, Copy, Debug, PartialEq, Eq, Structural)]
pub enum InvoiceStatus {
    /// Registered, awaiting approval.
    Pending,
    /// Approved by the admin or a verifier.
    Approved,
    /// Assigned to a pool for financing.
    Assigned,
    /// Repaid and settled.
    Repaid,
}

/// An invoice. Its amount is known only by its commitment.
#[derive(Clone, Copy, Debug, PartialEq, Eq, Structural)]
pub struct CommittedInvoice {
    /// The invoice's unique id.
    pub id: Symbol,
    /// The Pedersen commitment of the amount.
    pub commitment: i128,
    /// Where the invoice is in its life.
    pub status: InvoiceStatus,
    /// Who owns it: first the SME, after assignment the pool.
    pub owner: Symbol,
    /// The admin suspects fraud. This alone blocks nothing.
    pub fraud_flagged: bool,
    /// The admin has frozen the invoice: every call that would take it a stage
    /// further is refused.
    pub frozen: bool,
}

/// A queued, timelocked upgrade of the contract's code.
#[derive(Clone, Copy, Debug, PartialEq, Eq)]
pub struct QueuedUpgrade {
    pub new_wasm_hash: [u8; 32],
    pub execute_after: u64,
}

/// What the registry announces.
#[derive(Clone, Copy, Debug, PartialEq, Eq, Structural)]
pub enum RegistryEvent {
    InvoiceVerified { id: Symbol },
    InvoiceAssigned { pool: Symbol, id: Symbol },
    InvoiceFlagged { id: Symbol },
    InvoiceFrozen { id: Symbol },
    InvoiceUnfrozen { justification: Symbol, id: Symbol },
}

/// The state of a registry as the contracts speak of it.
#[verifier::ext_equal]
pub struct RegistryState {
    pub admin: Option<Symbol>,
    pub invoices: Map<InvoiceKey, CommittedInvoice>,
    pub verifiers: Map<VerifierKey, bool>,
    pub tokens: TokenLedgerState,
    pub queued_upgrade: Option<QueuedUpgrade>,
    pub upgrades_paused: bool,
    pub events: Seq<RegistryEvent>,
}

/// A registry's answer to a call: the state it leaves, and what it returns.
pub type Answer<T> = (RegistryState, Result<T, ContractError>);

/// The key of `verifier`'s status.
pub open spec fn verifier_key(verifier: Symbol) -> VerifierKey {
    VerifierKey(Symbol { head: VERIFIER_TAG, tail: 0 }, verifier)
}

/// Every invoice is filed under its own id.
pub open spec fn filed(invoices: Map<InvoiceKey, CommittedInvoice>) -> bool {
    forall|k: InvoiceKey| #[trigger] invoices.contains_key(k) ==> invoices[k].id == k.0
}

impl RegistryState {
    /// A registry before any call.
    pub open spec fn empty() -> RegistryState {
        RegistryState {
            admin: None,
            invoices: Map::empty(),
            verifiers: Map::empty(),
            tokens: TokenLedgerState::empty(),
            queued_upgrade: None,
            upgrades_paused: false,
            events: Seq::empty(),
        }
    }

    /// Every invoice is filed under its own id, and every token has a sound
    /// history.
    pub open spec fn inv(self) -> bool {
        filed(self.invoices) && self.tokens.inv()
    }

    /// Why a call for the admin is refused to `caller`, if it is.
    pub open spec fn refusal(self, caller: Symbol) -> Option<ContractError> {
        match self.admin {
            None => Some(ContractError::NotInitialized),
            Some(admin) => if caller == admin {
                None
            } else {
                Some(ContractError::Unauthorized)
            },
        }
    }

    pub open spec fn get_invoice(self, id: Symbol) -> Option<CommittedInvoice> {
        if self.invoices.contains_key(InvoiceKey(id)) {
            Some(self.invoices[InvoiceKey(id)])
        } else {
            None
        }
    }

    /// The invoice as it is now, in place of what it was.
    pub open spec fn updated(self, id: Symbol, invoice: CommittedInvoice) -> RegistryState {
        RegistryState { invoices: self.invoices.insert(InvoiceKey(id), invoice), ..self }
    }

    pub open spec fn published(self, event: RegistryEvent) -> RegistryState {
        RegistryState { events: self.events.push(event), ..self }
    }

    pub open spec fn is_verifier(self, who: Symbol) -> bool {
        self.verifiers.contains_key(verifier_key(who)) && self.verifiers[verifier_key(who)]
    }

    pub open spec fn initialize(self, admin: Symbol) -> Answer<()> {
        if self.admin is Some {
            (self, Err(ContractError::AlreadyInitialized))
        } else {
            (RegistryState { admin: Some(admin), ..self }, Ok(()))
        }
    }

    pub open spec fn register(self, id: Symbol, commitment: i128, owner: Symbol) -> Answer<()> {
        if self.get_invoice(id) is Some {
            (self, Err(ContractError::InvoiceAlreadyExists))
        } else {
            (
                self.updated(
                    id,
                    CommittedInvoice {
                        id,
                        commitment,
                        status: InvoiceStatus::Pending,
                        owner,
                        fraud_flagged: false,
                        frozen: false,
                    },
                ),
                Ok(()),
            )
        }
    }

    pub open spec fn approve(self, caller: Symbol, id: Symbol) -> Answer<()> {
        match (self.refusal(caller), self.get_invoice(id)) {
            (Some(e), _) => (self, Err(e)),
            (None, None) => (self, Err(ContractError::InvoiceNotFound)),
            (None, Some(invoice)) => if invoice.frozen {
                (self, Err(ContractError::InvoiceFrozen))
            } else if invoice.status != InvoiceStatus::Pending {
                (self, Err(ContractError::InvalidStatus))
            } else {
                (
                    self.updated(
                        id,
                        CommittedInvoice { status: InvoiceStatus::Approved, ..invoice },
                    ),
                    Ok(()),
                )
            },
        }
    }

    pub open spec fn set_verifier(
        self,
        caller: Symbol,
        verifier: Symbol,
        is_verifier: bool,
    ) -> Answer<()> {
        match self.refusal(caller) {
            Some(e) => (self, Err(e)),
            None => (
                RegistryState {
                    verifiers: self.verifiers.insert(verifier_key(verifier), is_verifier),
                    ..self
                },
                Ok(()),
            ),
        }
    }

    pub open spec fn verify_invoice(self, caller: Symbol, id: Symbol) -> Answer<()> {
        if !self.is_verifier(caller) {
            (self, Err(ContractError::NotVerifier))
        } else {
            match self.get_invoice(id) {
                None => (self, Err(ContractError::InvoiceNotFound)),
                Some(invoice) => if invoice.frozen {
                    (self, Err(ContractError::InvoiceFrozen))
                } else if invoice.status != InvoiceStatus::Pending {
                    (self, Err(ContractError::InvalidStatus))
                } else {
                    (
                        self.updated(
                            id,
                            CommittedInvoice { status: InvoiceStatus::Approved, ..invoice },
                        ).published(RegistryEvent::InvoiceVerified { id: invoice.id }),
                        Ok(()),
                    )
                },
            }
        }
    }

    pub open spec fn assign(self, caller: Symbol, id: Symbol, new_owner: Symbol) -> Answer<()> {
        match (self.refusal(caller), self.get_invoice(id)) {
            (Some(e), _) => (self, Err(e)),
            (None, None) => (self, Err(ContractError::InvoiceNotFound)),
            (None, Some(invoice)) => if invoice.frozen {
                (self, Err(ContractError::InvoiceFrozen))
            } else if invoice.status != InvoiceStatus::Approved {
                (self, Err(ContractError::InvalidStatus))
            } else {
                (
                    self.updated(
                        id,
                        CommittedInvoice {
                            status: InvoiceStatus::Assigned,
                            owner: new_owner,
                            ..invoice
                        },
                    ),
                    Ok(()),
                )
            },
        }
    }

    pub open spec fn assign_invoice(self, id: Symbol, pool: Symbol) -> Answer<()> {
        match self.get_invoice(id) {
            None => (self, Err(ContractError::InvoiceNotFound)),
            Some(invoice) => if invoice.frozen {
                (self, Err(ContractError::InvoiceFrozen))
            } else if invoice.status != InvoiceStatus::Approved {
                (self, Err(ContractError::InvalidStatus))
            } else {
                (
                    self.updated(
                        id,
                        CommittedInvoice {
                            status: InvoiceStatus::Assigned,
                            owner: pool,
                            ..invoice
                        },
                    ).published(RegistryEvent::InvoiceAssigned { pool, id: invoice.id }),
                    Ok(()),
                )
            },
        }
    }

    pub open spec fn mark_repaid(self, caller: Symbol, id: Symbol) -> Answer<()> {
        match (self.refusal(caller), self.get_invoice(id)) {
            (Some(e), _) => (self, Err(e)),
            (None, None) => (self, Err(ContractError::InvoiceNotFound)),
            (None, Some(invoice)) => if invoice.frozen {
                (self, Err(ContractError::InvoiceFrozen))
            } else if invoice.status != InvoiceStatus::Assigned {
                (self, Err(ContractError::InvalidStatus))
            } else {
                (
                    self.updated(
                        id,
                        CommittedInvoice { status: InvoiceStatus::Repaid, ..invoice },
                    ),
                    Ok(()),
                )
            },
        }
    }

    pub open spec fn flag_invoice(self, caller: Symbol, id: Symbol) -> Answer<()> {
        match (self.refusal(caller), self.get_invoice(id)) {
            (Some(e), _) => (self, Err(e)),
            (None, None) => (self, Err(ContractError::InvoiceNotFound)),
            (None, Some(invoice)) => (
                self.updated(id, CommittedInvoice { fraud_flagged: true, ..invoice }).published(
                    RegistryEvent::InvoiceFlagged { id: invoice.id },
                ),
                Ok(()),
            ),
        }
    }

    pub open spec fn freeze_invoice(self, caller: Symbol, id: Symbol) -> Answer<()> {
        match (self.refusal(caller), self.get_invoice(id)) {
            (Some(e), _) => (self, Err(e)),
            (None, None) => (self, Err(ContractError::InvoiceNotFound)),
            (None, Some(invoice)) => (
                self.updated(id, CommittedInvoice { frozen: true, ..invoice }).published(
                    RegistryEvent::InvoiceFrozen { id: invoice.id },
                ),
                Ok(()),
            ),
        }
    }

    pub open spec fn unfreeze_invoice(
        self,
        caller: Symbol,
        id: Symbol,
        justification: Symbol,
    ) -> Answer<()> {
        match (self.refusal(caller), self.get_invoice(id)) {
            (Some(e), _) => (self, Err(e)),
            (None, None) => (self, Err(ContractError::InvoiceNotFound)),
            (None, Some(invoice)) => (
                self.updated(id, CommittedInvoice { frozen: false, ..invoice }).published(
                    RegistryEvent::InvoiceUnfrozen { justification, id: invoice.id },
                ),
                Ok(()),
            ),
        }
    }

    /// Whether `value` and `blinding` open the invoice's commitment.
    pub open spec fn verify_amount(self, id: Symbol, value: i128, blinding: i128) -> Result<
        bool,
        ContractError,
    > {
        match self.get_invoice(id) {
            None => Err(ContractError::InvoiceNotFound),
            Some(invoice) => Ok(
                invoice.commitment == pedersen::commitment(value as int, blinding as int),
            ),
        }
    }

    pub open spec fn mint_invoice_token(
        self,
        caller: Symbol,
        token_id: Symbol,
        owner: Symbol,
    ) -> Answer<()> {
        match self.refusal(caller) {
            Some(e) => (self, Err(e)),
            None => (
                RegistryState { tokens: self.tokens.mint(token_id, owner), ..self },
                Ok(()),
            ),
        }
    }

    pub open spec fn queue_upgrade(self, now: u64, caller: Symbol, hash: [u8; 32]) -> Answer<u64> {
        match self.refusal(caller) {
            Some(e) => (self, Err(e)),
            None => {
                let execute_after = (now + UPGRADE_TIMELOCK_SECS) as u64;
                (
                    RegistryState {
                        queued_upgrade: Some(
                            QueuedUpgrade { new_wasm_hash: hash, execute_after },
                        ),
                        ..self
                    },
                    Ok(execute_after),
                )
            },
        }
    }

    /// The queued upgrade is taken off the queue, and its code is what the
    /// contract has to be given.
    pub open spec fn execute_upgrade(self, now: u64) -> Answer<[u8; 32]> {
        if self.upgrades_paused {
            (self, Err(ContractError::UpgradesPaused))
        } else {
            match self.queued_upgrade {
                None => (self, Err(ContractError::NoQueuedUpgrade)),
                Some(queued) => if now < queued.execute_after {
                    (self, Err(ContractError::UpgradeTimelockNotElapsed))
                } else {
                    (RegistryState { queued_upgrade: None, ..self }, Ok(queued.new_wasm_hash))
                },
            }
        }
    }

    pub open spec fn cancel_upgrade(self, caller: Symbol) -> Answer<()> {
        match (self.refusal(caller), self.queued_upgrade) {
            (Some(e), _) => (self, Err(e)),
            (None, None) => (self, Err(ContractError::NoQueuedUpgrade)),
            (None, Some(_)) => (RegistryState { queued_upgrade: None, ..self }, Ok(())),
        }
    }

    pub open spec fn set_upgrade_paused(self, caller: Symbol, paused: bool) -> Answer<()> {
        match self.refusal(caller) {
            Some(e) => (self, Err(e)),
            None => (RegistryState { upgrades_paused: paused, ..self }, Ok(())),
        }
    }
}

/// The invoice registry. Everything it stores is in its fields; `events` holds
/// what it has announced and the ledger has not taken yet.
pub struct InvoiceRegistry {
    pub admin: Option<Symbol>,
    pub invoices: Table<InvoiceKey, CommittedInvoice>,
    pub verifiers: Table<VerifierKey, bool>,
    pub tokens: TokenLedger,
    pub queued_upgrade: Option<QueuedUpgrade>,
    pub upgrades_paused: bool,
    pub events: Vec<RegistryEvent>,
}

impl View for InvoiceRegistry {
    type V = RegistryState;

    open spec fn view(&self) -> RegistryState {
        RegistryState {
            admin: self.admin,
            invoices: self.invoices@,
            verifiers: self.verifiers@,
            tokens: self.tokens@,
            queued_upgrade: self.queued_upgrade,
            upgrades_paused: self.upgrades_paused,
            events: self.events@,
        }
    }
}

impl InvoiceRegistry {
    /// The tables are sound and the registry's invariant holds.
    pub open spec fn wf(&self) -> bool {
        &&& self.invoices.wf()
        &&& self.verifiers.wf()
        &&& self.tokens.wf()
        &&& self@.inv()
    }

    /// A registry before any call.
    pub fn new() -> (registry: InvoiceRegistry)
        ensures
            registry.wf(),
            registry@ == RegistryState::empty(),
    {
        let registry = InvoiceRegistry {
            admin: None,
            invoices: Table::new(),
            verifiers: Table::new(),
            tokens: TokenLedger::new(),
            queued_upgrade: None,
            upgrades_paused: false,
            events: Vec::new(),
        };
        assert(registry@ =~= RegistryState::empty());
        registry
    }

    /// One-time initialization with the administrator.
    pub fn initialize(&mut self, admin: Symbol) -> (r: Result<(), ContractError>)
        requires
            old(self).wf(),
        ensures
            final(self).wf(),
            (final(self)@, r) == old(self)@.initialize(admin),
    {
        if self.admin.is_some() {
            return Err(ContractError::AlreadyInitialized);
        }
        self.admin = Some(admin);
        Ok(())
    }

    fn require_admin(&self, caller: Symbol) -> (r: Result<(), ContractError>)
        ensures
            match r {
                Ok(_) => self@.refusal(caller) is None,
                Err(e) => self@.refusal(caller) == Some(e),
            },
    {
        match self.admin {
            None => Err(ContractError::NotInitialized),
            Some(admin) => if caller == admin {
                Ok(())
            } else {
                Err(ContractError::Unauthorized)
            },
        }
    }

    fn read_invoice(&self, id: Symbol) -> (r: Result<CommittedInvoice, ContractError>)
        requires
            self.wf(),
        ensures
            match r {
                Ok(invoice) => self@.get_invoice(id) == Some(invoice) && invoice.id == id,
                Err(e) => self@.get_invoice(id) is None && e == ContractError::InvoiceNotFound,
            },
    {
        match self.invoices.get(&InvoiceKey(id)) {
            Some(invoice) => Ok(*invoice),
            None => Err(ContractError::InvoiceNotFound),
        }
    }

    fn write_invoice(&mut self, invoice: CommittedInvoice)
        requires
            old(self).wf(),
        ensures
            final(self).wf(),
            final(self)@ == old(self)@.updated(invoice.id, invoice),
    {
        self.invoices.set(InvoiceKey(invoice.id), invoice);
        assert(filed(self@.invoices)) by {
            assert forall|k: InvoiceKey| #[trigger] self@.invoices.contains_key(k) implies
                self@.invoices[k].id == k.0 by {
                if k != InvoiceKey(invoice.id) {
                    assert(old(self)@.invoices.contains_key(k));
                }
            }
        }
        assert(self@ =~= old(self)@.updated(invoice.id, invoice));
    }

    /// Registers a new invoice under the commitment of its amount, which the
    /// SME has made from an amount and a blinding factor that stay secret.
    pub fn register(&mut self, id: Symbol, commitment: i128, owner: Symbol) -> (r: Result<
        (),
        ContractError,
    >)
        requires
            old(self).wf(),
        ensures
            final(self).wf(),
            (final(self)@, r) == old(self)@.register(id, commitment, owner),
    {
        if self.invoices.get(&InvoiceKey(id)).is_some() {
            return Err(ContractError::InvoiceAlreadyExists);
        }
        self.write_invoice(
            CommittedInvoice {
                id,
                commitment,
                status: InvoiceStatus::Pending,
                owner,
                fraud_flagged: false,
                frozen: false,
            },
        );
        Ok(())
    }

    /// The admin approves a pending invoice.
    pub fn approve(&mut self, caller: Symbol, id: Symbol) -> (r: Result<(), ContractError>)
        requires
            old(self).wf(),
        ensures
            final(self).wf(),
            (final(self)@, r) == old(self)@.approve(caller, id),
    {
        match self.require_admin(caller) {
            Ok(_) => {},
            Err(e) => {
                return Err(e);
            },
        }
        let invoice = match self.read_invoice(id) {
            Ok(invoice) => invoice,
            Err(e) => {
                return Err(e);
            },
        };
        if invoice.frozen {
            return Err(ContractError::InvoiceFrozen);
        }
        if invoice.status != InvoiceStatus::Pending {
            return Err(ContractError::InvalidStatus);
        }
        self.write_invoice(CommittedInvoice { status: InvoiceStatus::Approved, ..invoice });
        Ok(())
    }

    /// The admin grants or revokes the status of a verifier.
    pub fn set_verifier(&mut self, caller: Symbol, verifier: Symbol, is_verifier: bool) -> (r: Result<(), ContractError>)
        requires
            old(self).wf(),
        ensures
            final(self).wf(),
            (final(self)@, r) == old(self)@.set_verifier(caller, verifier, is_verifier),
    {
        match self.require_admin(caller) {
            Ok(_) => {},
            Err(e) => {
                return Err(e);
            },
        }
        self.verifiers.set(
            VerifierKey(Symbol { head: VERIFIER_TAG, tail: 0 }, verifier),
            is_verifier,
        );
        Ok(())
    }

    /// Whether `verifier` holds the status of a verifier.
    pub fn is_verifier(&self, verifier: Symbol) -> (r: bool)
        requires
            self.wf(),
        ensures
            r == self@.is_verifier(verifier),
    {
        match self.verifiers.get(&VerifierKey(Symbol { head: VERIFIER_TAG, tail: 0 }, verifier)) {
            Some(is_verifier) => *is_verifier,
            None => false,
        }
    }

    /// A verifier verifies a pending invoice, which approves it. So the duty can
    /// be delegated to others than the admin.
    pub fn verify_invoice(&mut self, caller: Symbol, id: Symbol) -> (r: Result<(), ContractError>)
        requires
            old(self).wf(),
        ensures
            final(self).wf(),
            (final(self)@, r) == old(self)@.verify_invoice(caller, id),
    {
        if !self.is_verifier(caller) {
            return Err(ContractError::NotVerifier);
        }
        let invoice = match self.read_invoice(id) {
            Ok(invoice) => invoice,
            Err(e) => {
                return Err(e);
            },
        };
        if invoice.frozen {
            return Err(ContractError::InvoiceFrozen);
        }
        if invoice.status != InvoiceStatus::Pending {
            return Err(ContractError::InvalidStatus);
        }
        self.write_invoice(CommittedInvoice { status: InvoiceStatus::Approved, ..invoice });
        self.events.push(RegistryEvent::InvoiceVerified { id: invoice.id });
        Ok(())
    }

    /// The admin assigns an approved invoice to a new owner.
    pub fn assign(&mut self, caller: Symbol, id: Symbol, new_owner: Symbol) -> (r: Result<(), ContractError>)
        requires
            old(self).wf(),
        ensures
            final(self).wf(),
            (final(self)@, r) == old(self)@.assign(caller, id, new_owner),
    {
        match self.require_admin(caller) {
            Ok(_) => {},
            Err(e) => {
                return Err(e);
            },
        }
        let invoice = match self.read_invoice(id) {
            Ok(invoice) => invoice,
            Err(e) => {
                return Err(e);
            },
        };
        if invoice.frozen {
            return Err(ContractError::InvoiceFrozen);
        }
        if invoice.status != InvoiceStatus::Approved {
            return Err(ContractError::InvalidStatus);
        }
        self.write_invoice(
            CommittedInvoice { status: InvoiceStatus::Assigned, owner: new_owner, ..invoice },
        );
        Ok(())
    }

    /// A pool manager, which must have authorized the call, takes the financing
    /// rights of an approved invoice for `pool`.
    pub fn assign_invoice(
        &mut self,
        auth: &Authorization,
        pool_manager: Address,
        id: Symbol,
        pool: Symbol,
    ) -> (r: Result<(), ContractError>)
        requires
            old(self).wf(),
            auth.covers(pool_manager),
        ensures
            final(self).wf(),
            (final(self)@, r) == old(self)@.assign_invoice(id, pool),
    {
        let invoice = match self.read_invoice(id) {
            Ok(invoice) => invoice,
            Err(e) => {
                return Err(e);
            },
        };
        if invoice.frozen {
            return Err(ContractError::InvoiceFrozen);
        }
        if invoice.status != InvoiceStatus::Approved {
            return Err(ContractError::InvalidStatus);
        }
        self.write_invoice(
            CommittedInvoice { status: InvoiceStatus::Assigned, owner: pool, ..invoice },
        );
        self.events.push(RegistryEvent::InvoiceAssigned { pool, id: invoice.id });
        Ok(())
    }

    /// The admin marks an assigned invoice as repaid.
    pub fn mark_repaid(&mut self, caller: Symbol, id: Symbol) -> (r: Result<(), ContractError>)
        requires
            old(self).wf(),
        ensures
            final(self).wf(),
            (final(self)@, r) == old(self)@.mark_repaid(caller, id),
    {
        match self.require_admin(caller) {
            Ok(_) => {},
            Err(e) => {
                return Err(e);
            },
        }
        let invoice = match self.read_invoice(id) {
            Ok(invoice) => invoice,
            Err(e) => {
                return Err(e);
            },
        };
        if invoice.frozen {
            return Err(ContractError::InvoiceFrozen);
        }
        if invoice.status != InvoiceStatus::Assigned {
            return Err(ContractError::InvalidStatus);
        }
        self.write_invoice(CommittedInvoice { status: InvoiceStatus::Repaid, ..invoice });
        Ok(())
    }

    /// The admin marks an invoice as suspicious. This alone blocks nothing.
    pub fn flag_invoice(&mut self, caller: Symbol, id: Symbol) -> (r: Result<(), ContractError>)
        requires
            old(self).wf(),
        ensures
            final(self).wf(),
            (final(self)@, r) == old(self)@.flag_invoice(caller, id),
    {
        match self.require_admin(caller) {
            Ok(_) => {},
            Err(e) => {
                return Err(e);
            },
        }
        let invoice = match self.read_invoice(id) {
            Ok(invoice) => invoice,
            Err(e) => {
                return Err(e);
            },
        };
        self.write_invoice(CommittedInvoice { fraud_flagged: true, ..invoice });
        self.events.push(RegistryEvent::InvoiceFlagged { id: invoice.id });
        Ok(())
    }

    /// The admin freezes an invoice, which blocks all further transitions until
    /// it is lifted: `approve`, `verify_invoice`, `assign`, `assign_invoice` and
    /// `mark_repaid` are refused.
    pub fn freeze_invoice(&mut self, caller: Symbol, id: Symbol) -> (r: Result<(), ContractError>)
        requires
            old(self).wf(),
        ensures
            final(self).wf(),
            (final(self)@, r) == old(self)@.freeze_invoice(caller, id),
    {
        match self.require_admin(caller) {
            Ok(_) => {},
            Err(e) => {
                return Err(e);
            },
        }
        let invoice = match self.read_invoice(id) {
            Ok(invoice) => invoice,
            Err(e) => {
                return Err(e);
            },
        };
        self.write_invoice(CommittedInvoice { frozen: true, ..invoice });
        self.events.push(RegistryEvent::InvoiceFrozen { id: invoice.id });
        Ok(())
    }

    /// The admin lifts a freeze and announces why.
    pub fn unfreeze_invoice(&mut self, caller: Symbol, id: Symbol, justification: Symbol) -> (r: Result<(), ContractError>)
        requires
            old(self).wf(),
        ensures
            final(self).wf(),
            (final(self)@, r) == old(self)@.unfreeze_invoice(caller, id, justification),
    {
        match self.require_admin(caller) {
            Ok(_) => {},
            Err(e) => {
                return Err(e);
            },
        }
        let invoice = match self.read_invoice(id) {
            Ok(invoice) => invoice,
            Err(e) => {
                return Err(e);
            },
        };
        self.write_invoice(CommittedInvoice { frozen: false, ..invoice });
        self.events.push(RegistryEvent::InvoiceUnfrozen { justification, id: invoice.id });
        Ok(())
    }

    /// The invoice's record, which holds its commitment and no amount.
    pub fn get_invoice(&self, id: Symbol) -> (r: Option<CommittedInvoice>)
        requires
            self.wf(),
        ensures
            r == self@.get_invoice(id),
            self.invoices@.contains_key(InvoiceKey(id)) ==> r == Some(
                self.invoices@[InvoiceKey(id)],
            ),
            !self.invoices@.contains_key(InvoiceKey(id)) ==> r is None,
    {
        match self.invoices.get(&InvoiceKey(id)) {
            Some(invoice) => Some(*invoice),
            None => None,
        }
    }

    /// Whether `value` and `blinding` open the commitment of the invoice. So an
    /// SME can reveal an amount to an auditor without storing it.
    pub fn verify_amount(&self, id: Symbol, value: i128, blinding: i128) -> (r: Result<
        bool,
        ContractError,
    >)
        requires
            self.wf(),
        ensures
            r == self@.verify_amount(id, value, blinding),
    {
        match self.read_invoice(id) {
            Ok(invoice) => Ok(pedersen::verify(invoice.commitment, value, blinding)),
            Err(e) => Err(e),
        }
    }

    /// Gives the marker back.
    pub fn ping(marker: Symbol) -> (r: Symbol)
        ensures
            r == marker,
    {
        marker
    }

    /// The version of the contract's interface.
    pub fn version() -> (r: u32)
        ensures
            r == 2,
    {
        2
    }

    /// The admin mints the token of `token_id`, which must not have been
    /// minted, to `owner`.
    pub fn mint_invoice_token(&mut self, caller: Symbol, token_id: Symbol, owner: Symbol) -> (r: Result<(), ContractError>)
        requires
            old(self).wf(),
            old(self)@.refusal(caller) is None ==> !old(self)@.tokens.minted(token_id),
        ensures
            final(self).wf(),
            (final(self)@, r) == old(self)@.mint_invoice_token(caller, token_id, owner),
    {
        match self.require_admin(caller) {
            Ok(_) => {},
            Err(e) => {
                return Err(e);
            },
        }
        nft::mint(&mut self.tokens, token_id, owner);
        Ok(())
    }

    /// Transfers a token from its owner `from` to `to`, records the transfer,
    /// and announces the royalty rate.
    pub fn transfer_invoice_token(
        &mut self,
        now: u64,
        token_id: Symbol,
        from: Symbol,
        to: Symbol,
        royalty_bps: u32,
    )
        requires
            old(self).wf(),
            old(self)@.tokens.may_transfer(token_id, from, royalty_bps),
        ensures
            final(self).wf(),
            final(self)@ == (RegistryState {
                tokens: old(self)@.tokens.transfer(now, token_id, from, to, royalty_bps),
                ..old(self)@
            }),
    {
        nft::transfer(&mut self.tokens, now, token_id, from, to, royalty_bps);
    }

    /// The owner of the token, if it has been minted.
    pub fn invoice_owner(&self, token_id: Symbol) -> (r: Option<Symbol>)
        requires
            self.wf(),
        ensures
            r == self@.tokens.owner_of(token_id),
    {
        nft::owner_of(&self.tokens, token_id)
    }

    /// All transfers of the token, oldest first.
    pub fn invoice_transfer_history(&self, token_id: Symbol) -> (r: Vec<TransferRecord>)
        requires
            self.wf(),
        ensures
            r@ == self@.tokens.transfer_history(token_id),
    {
        nft::transfer_history(&self.tokens, token_id)
    }

    /// Who earns a repayment of a minted token's invoice, and how much.
    pub fn invoice_repayment_share(&self, token_id: Symbol, total_repayment: i128) -> (r: (
        Symbol,
        i128,
    ))
        requires
            self.wf(),
            self@.tokens.minted(token_id),
        ensures
            r == (self@.tokens.tokens[token_id].owner, total_repayment),
    {
        nft::repayment_share(&self.tokens, token_id, total_repayment)
    }

    /// The admin queues an upgrade, executable no earlier than 48 hours after
    /// `now`, in place of any queued one. Returns when it becomes executable.
    pub fn queue_upgrade(&mut self, now: u64, caller: Symbol, new_wasm_hash: [u8; 32]) -> (r:
        Result<u64, ContractError>)
        requires
            old(self).wf(),
            old(self)@.refusal(caller) is None ==> now + UPGRADE_TIMELOCK_SECS <= u64::MAX,
        ensures
            final(self).wf(),
            (final(self)@, r) == old(self)@.queue_upgrade(now, caller, new_wasm_hash),
    {
        match self.require_admin(caller) {
            Ok(_) => {},
            Err(e) => {
                return Err(e);
            },
        }
        let execute_after: u64 = now + UPGRADE_TIMELOCK_SECS;
        self.queued_upgrade = Some(QueuedUpgrade { new_wasm_hash, execute_after });
        Ok(execute_after)
    }

    /// Takes the queued upgrade off the queue once its timelock has elapsed,
    /// and returns the hash of the code that the contract has to be given.
    /// Anyone may call it.
    pub fn execute_upgrade(&mut self, now: u64) -> (r: Result<[u8; 32], ContractError>)
        requires
            old(self).wf(),
        ensures
            final(self).wf(),
            (final(self)@, r) == old(self)@.execute_upgrade(now),
    {
        if self.upgrades_paused {
            return Err(ContractError::UpgradesPaused);
        }
        match self.queued_upgrade {
            None => Err(ContractError::NoQueuedUpgrade),
            Some(queued) => {
                if now < queued.execute_after {
                    return Err(ContractError::UpgradeTimelockNotElapsed);
                }
                self.queued_upgrade = None;
                Ok(queued.new_wasm_hash)
            },
        }
    }

    /// The admin cancels the queued upgrade.
    pub fn cancel_upgrade(&mut self, caller: Symbol) -> (r: Result<(), ContractError>)
        requires
            old(self).wf(),
        ensures
            final(self).wf(),
            (final(self)@, r) == old(self)@.cancel_upgrade(caller),
    {
        match self.require_admin(caller) {
            Ok(_) => {},
            Err(e) => {
                return Err(e);
            },
        }
        if self.queued_upgrade.is_none() {
            return Err(ContractError::NoQueuedUpgrade);
        }
        self.queued_upgrade = None;
        Ok(())
    }

    /// The admin pauses or resumes the execution of upgrades.
    pub fn set_upgrade_paused(&mut self, caller: Symbol, paused: bool) -> (r: Result<(), ContractError>)
        requires
            old(self).wf(),
        ensures
            final(self).wf(),
            (final(self)@, r) == old(self)@.set_upgrade_paused(caller, paused),
    {
        match self.require_admin(caller) {
            Ok(_) => {},
            Err(e) => {
                return Err(e);
            },
        }
        self.upgrades_paused = paused;
        Ok(())
    }

    pub fn queued_upgrade(&self) -> (r: Option<QueuedUpgrade>)
        ensures
            r == self@.queued_upgrade,
            r == self.queued_upgrade,
    {
        self.queued_upgrade
    }

    pub fn is_upgrade_paused(&self) -> (r: bool)
        ensures
            r == self@.upgrades_paused,
            r == self.upgrades_paused,
    {
        self.upgrades_paused
    }

    /// Hands out the events announced since the last call.
    pub fn take_events(&mut self) -> (r: Vec<RegistryEvent>)
        requires
            old(self).wf(),
        ensures
            final(self).wf(),
            r@ == old(self)@.events,
            final(self)@ == (RegistryState { events: Seq::empty(), ..old(self)@ }),
    {
        let mut taken: Vec<RegistryEvent> = Vec::new();
        std::mem::swap(&mut taken, &mut self.events);
        assert(self@ =~= (RegistryState { events: Seq::empty(), ..old(self)@ }));
        taken
    }
}

} // verus!
