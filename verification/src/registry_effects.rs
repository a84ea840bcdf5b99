//! What each call does to the invoice registry: who may make it, on which
//! invoices, what becomes of the invoice, and what stays as it was.

use vstd::prelude::*;

use crate::ident::Symbol;
use crate::invoice_registry::{
    verifier_key, CommittedInvoice, ContractError, InvoiceKey, InvoiceRegistry, InvoiceStatus,
    QueuedUpgrade, RegistryEvent, RegistryState, VerifierKey,
};
use crate::pedersen::law_commitment_weighs;

verus! {

/// A registry is seen as what its fields hold.
pub proof fn law_view(r: InvoiceRegistry)
    ensures
        r@.admin == r.admin,
        r@.invoices == r.invoices@,
        r@.verifiers == r.verifiers@,
        r@.tokens == r.tokens@,
        r@.queued_upgrade == r.queued_upgrade,
        r@.upgrades_paused == r.upgrades_paused,
        r@.events == r.events@,
{
}

/// A new registry has no admin, no invoices, no verifiers, no tokens and no
/// upgrade, and does not pause upgrades.
pub proof fn law_new_registry()
    ensures
        ({
            let s = RegistryState::empty();
            &&& s.admin is None && s.queued_upgrade is None && !s.upgrades_paused
            &&& s.invoices == Map::<InvoiceKey, CommittedInvoice>::empty()
            &&& s.verifiers == Map::<VerifierKey, bool>::empty()
            &&& s.tokens.tokens.dom() == Set::<Symbol>::empty() && s.tokens.events.len() == 0
            &&& s.events == Seq::<RegistryEvent>::empty()
        }),
{
    assert(RegistryState::empty().tokens.tokens.dom() =~= Set::<Symbol>::empty());
}

/// What the readings of a registry say of its fields: an invoice is read where
/// it is filed, a verifier is somebody whose status was granted, and a call for
/// the admin is refused to all others, and to all before there is one.
pub proof fn law_readings(s: RegistryState, id: Symbol, who: Symbol, other: Symbol)
    ensures
        s.invoices.contains_key(InvoiceKey(id)) ==> s.get_invoice(id) == Some(
            s.invoices[InvoiceKey(id)],
        ),
        !s.invoices.contains_key(InvoiceKey(id)) ==> s.get_invoice(id) is None,
        s.is_verifier(who) <==> s.verifiers.contains_key(verifier_key(who))
            && s.verifiers[verifier_key(who)],
        verifier_key(who) == VerifierKey(
            Symbol { head: 0x7665_7269_6669_6572_0000_0000_0000_0000, tail: 0 },
            who,
        ),
        who != other ==> verifier_key(who) != verifier_key(other),
        s.refusal(who) == (match s.admin {
            None => Some(ContractError::NotInitialized),
            Some(admin) => if admin == who {
                None
            } else {
                Some(ContractError::Unauthorized)
            },
        }),
{
}

/// `initialize` names the admin, once, and changes nothing else.
pub proof fn law_initialize(s: RegistryState, admin: Symbol)
    ensures
        ({
            let (next, r) = s.initialize(admin);
            match r {
                Ok(_) => {
                    &&& s.admin is None
                    &&& next.admin == Some(admin)
                    &&& next == (RegistryState { admin: next.admin, ..s })
                },
                Err(e) => next == s && s.admin is Some && e == ContractError::AlreadyInitialized,
            }
        }),
{
}

/// Registering files a pending invoice under its id, with the commitment and
/// the owner that were given, neither flagged nor frozen; every other invoice
/// and everything else stays. It is accepted from everybody, wherever the id is
/// new.
pub proof fn law_register(s: RegistryState, id: Symbol, commitment: i128, owner: Symbol)
    ensures
        ({
            let (next, r) = s.register(id, commitment, owner);
            match r {
                Ok(_) => {
                    let invoice = next.invoices[InvoiceKey(id)];
                    &&& !s.invoices.contains_key(InvoiceKey(id))
                    &&& next.invoices == s.invoices.insert(InvoiceKey(id), invoice)
                    &&& invoice.id == id && invoice.commitment == commitment
                    &&& invoice.owner == owner && invoice.status == InvoiceStatus::Pending
                    &&& !invoice.fraud_flagged && !invoice.frozen
                    &&& next == (RegistryState { invoices: next.invoices, ..s })
                },
                Err(e) => next == s && s.invoices.contains_key(InvoiceKey(id)) && e
                    == ContractError::InvoiceAlreadyExists,
            }
        }),
{
}

/// The admin approves a pending invoice that is not frozen: it becomes
/// approved, and nothing else changes.
pub proof fn law_approve(s: RegistryState, caller: Symbol, id: Symbol)
    requires
        s.inv(),
    ensures
        ({
            let (next, r) = s.approve(caller, id);
            let key = InvoiceKey(id);
            let is_admin = s.admin == Some(caller);
            let found = s.invoices.contains_key(key);
            let invoice = s.invoices[key];
            match r {
                Ok(_) => {
                    &&& is_admin && found && !invoice.frozen && invoice.status
                        == InvoiceStatus::Pending
                    &&& next.invoices == s.invoices.insert(
                        key,
                        CommittedInvoice { status: InvoiceStatus::Approved, ..invoice },
                    )
                    &&& next == (RegistryState { invoices: next.invoices, ..s })
                },
                Err(e) => next == s && {
                    ||| s.admin is None && e == ContractError::NotInitialized
                    ||| s.admin is Some && !is_admin && e == ContractError::Unauthorized
                    ||| is_admin && !found && e == ContractError::InvoiceNotFound
                    ||| is_admin && found && invoice.frozen && e == ContractError::InvoiceFrozen
                    ||| is_admin && found && !invoice.frozen && invoice.status
                        != InvoiceStatus::Pending && e == ContractError::InvalidStatus
                },
            }
        }),
{
}

/// A verifier verifies a pending invoice that is not frozen: it becomes
/// approved, which is announced, and nothing else changes.
pub proof fn law_verify_invoice(s: RegistryState, caller: Symbol, id: Symbol)
    requires
        s.inv(),
    ensures
        ({
            let (next, r) = s.verify_invoice(caller, id);
            let key = InvoiceKey(id);
            let is_verifier = s.is_verifier(caller);
            let found = s.invoices.contains_key(key);
            let invoice = s.invoices[key];
            match r {
                Ok(_) => {
                    &&& is_verifier && found && !invoice.frozen && invoice.status
                        == InvoiceStatus::Pending
                    &&& next.invoices == s.invoices.insert(
                        key,
                        CommittedInvoice { status: InvoiceStatus::Approved, ..invoice },
                    )
                    &&& next.events == s.events.push(RegistryEvent::InvoiceVerified { id })
                    &&& next == (RegistryState {
                        invoices: next.invoices,
                        events: next.events,
                        ..s
                    })
                },
                Err(e) => next == s && {
                    ||| !is_verifier && e == ContractError::NotVerifier
                    ||| is_verifier && !found && e == ContractError::InvoiceNotFound
                    ||| is_verifier && found && invoice.frozen && e == ContractError::InvoiceFrozen
                    ||| is_verifier && found && !invoice.frozen && invoice.status
                        != InvoiceStatus::Pending && e == ContractError::InvalidStatus
                },
            }
        }),
{
}

/// The admin assigns an approved invoice that is not frozen: it becomes
/// assigned and the new owner's, and nothing else changes.
pub proof fn law_assign(s: RegistryState, caller: Symbol, id: Symbol, new_owner: Symbol)
    requires
        s.inv(),
    ensures
        ({
            let (next, r) = s.assign(caller, id, new_owner);
            let key = InvoiceKey(id);
            let is_admin = s.admin == Some(caller);
            let found = s.invoices.contains_key(key);
            let invoice = s.invoices[key];
            match r {
                Ok(_) => {
                    &&& is_admin && found && !invoice.frozen && invoice.status
                        == InvoiceStatus::Approved
                    &&& next.invoices == s.invoices.insert(
                        key,
                        CommittedInvoice { status: InvoiceStatus::Assigned, owner: new_owner, ..invoice },
                    )
                    &&& next == (RegistryState { invoices: next.invoices, ..s })
                },
                Err(e) => next == s && {
                    ||| s.admin is None && e == ContractError::NotInitialized
                    ||| s.admin is Some && !is_admin && e == ContractError::Unauthorized
                    ||| is_admin && !found && e == ContractError::InvoiceNotFound
                    ||| is_admin && found && invoice.frozen && e == ContractError::InvoiceFrozen
                    ||| is_admin && found && !invoice.frozen && invoice.status
                        != InvoiceStatus::Approved && e == ContractError::InvalidStatus
                },
            }
        }),
{
}

/// A pool manager takes an approved invoice that is not frozen for a pool: it
/// becomes assigned and the pool's, which is announced, and nothing else
/// changes.
pub proof fn law_assign_invoice(s: RegistryState, id: Symbol, pool: Symbol)
    requires
        s.inv(),
    ensures
        ({
            let (next, r) = s.assign_invoice(id, pool);
            let key = InvoiceKey(id);
            let found = s.invoices.contains_key(key);
            let invoice = s.invoices[key];
            match r {
                Ok(_) => {
                    &&& found && !invoice.frozen && invoice.status == InvoiceStatus::Approved
                    &&& next.invoices == s.invoices.insert(
                        key,
                        CommittedInvoice {
                            status: InvoiceStatus::Assigned,
                            owner: pool,
                            ..invoice
                        },
                    )
                    &&& next.events == s.events.push(RegistryEvent::InvoiceAssigned { pool, id })
                    &&& next == (RegistryState {
                        invoices: next.invoices,
                        events: next.events,
                        ..s
                    })
                },
                Err(e) => next == s && {
                    ||| !found && e == ContractError::InvoiceNotFound
                    ||| found && invoice.frozen && e == ContractError::InvoiceFrozen
                    ||| found && !invoice.frozen && invoice.status != InvoiceStatus::Approved && e
                        == ContractError::InvalidStatus
                },
            }
        }),
{
}

/// The admin marks an assigned invoice that is not frozen as repaid: it becomes
/// repaid, and nothing else changes.
pub proof fn law_mark_repaid(s: RegistryState, caller: Symbol, id: Symbol)
    requires
        s.inv(),
    ensures
        ({
            let (next, r) = s.mark_repaid(caller, id);
            let key = InvoiceKey(id);
            let is_admin = s.admin == Some(caller);
            let found = s.invoices.contains_key(key);
            let invoice = s.invoices[key];
            match r {
                Ok(_) => {
                    &&& is_admin && found && !invoice.frozen && invoice.status
                        == InvoiceStatus::Assigned
                    &&& next.invoices == s.invoices.insert(
                        key,
                        CommittedInvoice { status: InvoiceStatus::Repaid, ..invoice },
                    )
                    &&& next == (RegistryState { invoices: next.invoices, ..s })
                },
                Err(e) => next == s && {
                    ||| s.admin is None && e == ContractError::NotInitialized
                    ||| s.admin is Some && !is_admin && e == ContractError::Unauthorized
                    ||| is_admin && !found && e == ContractError::InvoiceNotFound
                    ||| is_admin && found && invoice.frozen && e == ContractError::InvoiceFrozen
                    ||| is_admin && found && !invoice.frozen && invoice.status
                        != InvoiceStatus::Assigned && e == ContractError::InvalidStatus
                },
            }
        }),
{
}

/// The admin flags any invoice: the flag is set, which is announced, and
/// nothing else changes.
pub proof fn law_flag_invoice(s: RegistryState, caller: Symbol, id: Symbol)
    requires
        s.inv(),
    ensures
        ({
            let (next, r) = s.flag_invoice(caller, id);
            let key = InvoiceKey(id);
            let is_admin = s.admin == Some(caller);
            let found = s.invoices.contains_key(key);
            let invoice = s.invoices[key];
            match r {
                Ok(_) => {
                    &&& is_admin && found
                    &&& next.invoices == s.invoices.insert(
                        key,
                        CommittedInvoice { fraud_flagged: true, ..invoice },
                    )
                    &&& next.events == s.events.push(RegistryEvent::InvoiceFlagged { id })
                    &&& next == (RegistryState { invoices: next.invoices, events: next.events, ..s })
                },
                Err(e) => next == s && {
                    ||| s.admin is None && e == ContractError::NotInitialized
                    ||| s.admin is Some && !is_admin && e == ContractError::Unauthorized
                    ||| is_admin && !found && e == ContractError::InvoiceNotFound
                },
            }
        }),
{
}

/// The admin freezes any invoice: it is frozen, which is announced, and nothing
/// else changes.
pub proof fn law_freeze_invoice(s: RegistryState, caller: Symbol, id: Symbol)
    requires
        s.inv(),
    ensures
        ({
            let (next, r) = s.freeze_invoice(caller, id);
            let key = InvoiceKey(id);
            let is_admin = s.admin == Some(caller);
            let found = s.invoices.contains_key(key);
            let invoice = s.invoices[key];
            match r {
                Ok(_) => {
                    &&& is_admin && found
                    &&& next.invoices == s.invoices.insert(
                        key,
                        CommittedInvoice { frozen: true, ..invoice },
                    )
                    &&& next.events == s.events.push(RegistryEvent::InvoiceFrozen { id })
                    &&& next == (RegistryState { invoices: next.invoices, events: next.events, ..s })
                },
                Err(e) => next == s && {
                    ||| s.admin is None && e == ContractError::NotInitialized
                    ||| s.admin is Some && !is_admin && e == ContractError::Unauthorized
                    ||| is_admin && !found && e == ContractError::InvoiceNotFound
                },
            }
        }),
{
}

/// The admin lifts a freeze: the invoice is not frozen, which is announced with
/// the justification, and nothing else changes.
pub proof fn law_unfreeze_invoice(s: RegistryState, caller: Symbol, id: Symbol, justification: Symbol)
    requires
        s.inv(),
    ensures
        ({
            let (next, r) = s.unfreeze_invoice(caller, id, justification);
            let key = InvoiceKey(id);
            let is_admin = s.admin == Some(caller);
            let found = s.invoices.contains_key(key);
            let invoice = s.invoices[key];
            match r {
                Ok(_) => {
                    &&& is_admin && found
                    &&& next.invoices == s.invoices.insert(
                        key,
                        CommittedInvoice { frozen: false, ..invoice },
                    )
                    &&& next.events == s.events.push(
                        RegistryEvent::InvoiceUnfrozen { justification, id },
                    )
                    &&& next == (RegistryState { invoices: next.invoices, events: next.events, ..s })
                },
                Err(e) => next == s && {
                    ||| s.admin is None && e == ContractError::NotInitialized
                    ||| s.admin is Some && !is_admin && e == ContractError::Unauthorized
                    ||| is_admin && !found && e == ContractError::InvoiceNotFound
                },
            }
        }),
{
}

/// The admin grants or revokes a verifier's status: it is then what was asked
/// for, everybody else's stays, and nothing else changes.
pub proof fn law_set_verifier(
    s: RegistryState,
    caller: Symbol,
    verifier: Symbol,
    is_verifier: bool,
    other: Symbol,
)
    ensures
        ({
            let (next, r) = s.set_verifier(caller, verifier, is_verifier);
            match r {
                Ok(_) => {
                    &&& s.admin == Some(caller)
                    &&& next.is_verifier(verifier) == is_verifier
                    &&& other != verifier ==> next.is_verifier(other) == s.is_verifier(other)
                    &&& next.verifiers == s.verifiers.insert(verifier_key(verifier), is_verifier)
                    &&& next == (RegistryState { verifiers: next.verifiers, ..s })
                },
                Err(e) => next == s && {
                    ||| s.admin is None && e == ContractError::NotInitialized
                    ||| s.admin is Some && s.admin != Some(caller) && e
                        == ContractError::Unauthorized
                },
            }
        }),
{
}

/// An opening of a registered invoice is accepted if and only if its commitment
/// lies in the field and is, there, five times the value and seven times the
/// blinding factor.
pub proof fn law_verify_amount(s: RegistryState, id: Symbol, value: i128, blinding: i128)
    ensures
        match s.verify_amount(id, value, blinding) {
            Ok(accepted) => {
                let c = s.invoices[InvoiceKey(id)].commitment;
                &&& s.invoices.contains_key(InvoiceKey(id))
                &&& accepted <==> 0 <= c < 0x7fff_ffff_ffff_ffff_ffff_ffff_ffff_ffffint && (5
                    * value + 7 * blinding - c) % 0x7fff_ffff_ffff_ffff_ffff_ffff_ffff_ffffint == 0
            },
            Err(e) => !s.invoices.contains_key(InvoiceKey(id)) && e
                == ContractError::InvoiceNotFound,
        },
{
    law_commitment_weighs(value as int, blinding as int);
    if let Some(invoice) = s.get_invoice(id) {
        let m = 0x7fff_ffff_ffff_ffff_ffff_ffff_ffff_ffffint;
        let x = 5 * value + 7 * blinding;
        let c = invoice.commitment as int;
        if 0 <= c < m && (x - c) % m == 0 {
            vstd::arithmetic::div_mod::lemma_mod_equivalence(x, c, m);
            vstd::arithmetic::div_mod::lemma_small_mod(c as nat, m as nat);
        }
    }
}

/// The admin mints the token to the owner, as the token ledger does; nothing
/// else of the registry changes.
pub proof fn law_mint_invoice_token(
    s: RegistryState,
    caller: Symbol,
    token_id: Symbol,
    owner: Symbol,
)
    ensures
        ({
            let (next, r) = s.mint_invoice_token(caller, token_id, owner);
            match r {
                Ok(_) => {
                    &&& s.admin == Some(caller)
                    &&& next.tokens == s.tokens.mint(token_id, owner)
                    &&& next == (RegistryState { tokens: next.tokens, ..s })
                },
                Err(e) => next == s && {
                    ||| s.admin is None && e == ContractError::NotInitialized
                    ||| s.admin is Some && s.admin != Some(caller) && e
                        == ContractError::Unauthorized
                },
            }
        }),
{
}

/// The admin queues an upgrade to the given code, executable 172 800 seconds
/// later, which is the answer, in place of any queued one; nothing else
/// changes.
pub proof fn law_queue_upgrade(s: RegistryState, now: u64, caller: Symbol, hash: [u8; 32])
    requires
        s.admin == Some(caller) ==> now + 172_800 <= u64::MAX,
    ensures
        ({
            let (next, r) = s.queue_upgrade(now, caller, hash);
            match r {
                Ok(at) => {
                    &&& s.admin == Some(caller)
                    &&& at == now + 172_800
                    &&& next.queued_upgrade == Some(
                        QueuedUpgrade { new_wasm_hash: hash, execute_after: at },
                    )
                    &&& next == (RegistryState { queued_upgrade: next.queued_upgrade, ..s })
                },
                Err(e) => next == s && {
                    ||| s.admin is None && e == ContractError::NotInitialized
                    ||| s.admin is Some && s.admin != Some(caller) && e
                        == ContractError::Unauthorized
                },
            }
        }),
{
}

/// Executing hands out the queued code and empties the queue, and changes
/// nothing else. It is accepted, from everybody, wherever upgrades are not
/// paused, one is queued and its time has come.
pub proof fn law_execute_upgrade(s: RegistryState, now: u64)
    ensures
        ({
            let (next, r) = s.execute_upgrade(now);
            let queued = s.queued_upgrade;
            match r {
                Ok(hash) => {
                    &&& !s.upgrades_paused && queued is Some && now >= queued->0.execute_after
                    &&& hash == queued->0.new_wasm_hash
                    &&& next.queued_upgrade is None
                    &&& next == (RegistryState { queued_upgrade: next.queued_upgrade, ..s })
                },
                Err(e) => next == s && {
                    ||| s.upgrades_paused && e == ContractError::UpgradesPaused
                    ||| !s.upgrades_paused && queued is None && e == ContractError::NoQueuedUpgrade
                    ||| !s.upgrades_paused && queued is Some && now < queued->0.execute_after && e
                        == ContractError::UpgradeTimelockNotElapsed
                },
            }
        }),
{
}

/// The admin cancels the queued upgrade: the queue is empty, and nothing else
/// changes.
pub proof fn law_cancel_upgrade(s: RegistryState, caller: Symbol)
    ensures
        ({
            let (next, r) = s.cancel_upgrade(caller);
            match r {
                Ok(_) => {
                    &&& s.admin == Some(caller) && s.queued_upgrade is Some
                    &&& next.queued_upgrade is None
                    &&& next == (RegistryState { queued_upgrade: next.queued_upgrade, ..s })
                },
                Err(e) => next == s && {
                    ||| s.admin is None && e == ContractError::NotInitialized
                    ||| s.admin is Some && s.admin != Some(caller) && e
                        == ContractError::Unauthorized
                    ||| s.admin == Some(caller) && s.queued_upgrade is None && e
                        == ContractError::NoQueuedUpgrade
                },
            }
        }),
{
}

/// The admin pauses or resumes upgrades: they are then as asked for, and
/// nothing else changes, the queued upgrade included.
pub proof fn law_set_upgrade_paused(s: RegistryState, caller: Symbol, paused: bool)
    ensures
        ({
            let (next, r) = s.set_upgrade_paused(caller, paused);
            match r {
                Ok(_) => {
                    &&& s.admin == Some(caller)
                    &&& next.upgrades_paused == paused
                    &&& next == (RegistryState { upgrades_paused: next.upgrades_paused, ..s })
                },
                Err(e) => next == s && {
                    ||| s.admin is None && e == ContractError::NotInitialized
                    ||| s.admin is Some && s.admin != Some(caller) && e
                        == ContractError::Unauthorized
                },
            }
        }),
{
}

} // verus!
