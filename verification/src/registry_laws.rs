//! What holds of the invoice registry over any run of calls: the order of an
//! invoice's life, its commitment, the admin's rights, freezes, and the
//! timelock of upgrades.

use vstd::prelude::*;

use crate::ident::Symbol;
use crate::invoice_registry::{
    filed, CommittedInvoice, ContractError, InvoiceKey, InvoiceStatus, RegistryState,
    UPGRADE_TIMELOCK_SECS,
};
use crate::nft::{law_mint_starts_a_chain, law_transfer_extends_the_chain};
use crate::pedersen::{commitment, law_openings_are_bound, P};

verus! {

/// A call that changes a registry.
pub ghost enum RegistryCall {
    Initialize { admin: Symbol },
    Register { id: Symbol, commitment: i128, owner: Symbol },
    Approve { caller: Symbol, id: Symbol },
    SetVerifier { caller: Symbol, verifier: Symbol, is_verifier: bool },
    VerifyInvoice { caller: Symbol, id: Symbol },
    Assign { caller: Symbol, id: Symbol, new_owner: Symbol },
    AssignInvoice { id: Symbol, pool: Symbol },
    MarkRepaid { caller: Symbol, id: Symbol },
    FlagInvoice { caller: Symbol, id: Symbol },
    FreezeInvoice { caller: Symbol, id: Symbol },
    UnfreezeInvoice { caller: Symbol, id: Symbol, justification: Symbol },
    MintInvoiceToken { caller: Symbol, token_id: Symbol, owner: Symbol },
    TransferInvoiceToken { now: u64, token_id: Symbol, from: Symbol, to: Symbol, royalty_bps: u32 },
    QueueUpgrade { now: u64, caller: Symbol, new_wasm_hash: [u8; 32] },
    ExecuteUpgrade { now: u64 },
    CancelUpgrade { caller: Symbol },
    SetUpgradePaused { caller: Symbol, paused: bool },
}

/// The state that a call leaves, and whether it was accepted.
pub open spec fn answer(s: RegistryState, call: RegistryCall) -> (RegistryState, bool) {
    match call {
        RegistryCall::Initialize { admin } => {
            let a = s.initialize(admin);
            (a.0, a.1 is Ok)
        },
        RegistryCall::Register { id, commitment, owner } => {
            let a = s.register(id, commitment, owner);
            (a.0, a.1 is Ok)
        },
        RegistryCall::Approve { caller, id } => {
            let a = s.approve(caller, id);
            (a.0, a.1 is Ok)
        },
        RegistryCall::SetVerifier { caller, verifier, is_verifier } => {
            let a = s.set_verifier(caller, verifier, is_verifier);
            (a.0, a.1 is Ok)
        },
        RegistryCall::VerifyInvoice { caller, id } => {
            let a = s.verify_invoice(caller, id);
            (a.0, a.1 is Ok)
        },
        RegistryCall::Assign { caller, id, new_owner } => {
            let a = s.assign(caller, id, new_owner);
            (a.0, a.1 is Ok)
        },
        RegistryCall::AssignInvoice { id, pool } => {
            let a = s.assign_invoice(id, pool);
            (a.0, a.1 is Ok)
        },
        RegistryCall::MarkRepaid { caller, id } => {
            let a = s.mark_repaid(caller, id);
            (a.0, a.1 is Ok)
        },
        RegistryCall::FlagInvoice { caller, id } => {
            let a = s.flag_invoice(caller, id);
            (a.0, a.1 is Ok)
        },
        RegistryCall::FreezeInvoice { caller, id } => {
            let a = s.freeze_invoice(caller, id);
            (a.0, a.1 is Ok)
        },
        RegistryCall::UnfreezeInvoice { caller, id, justification } => {
            let a = s.unfreeze_invoice(caller, id, justification);
            (a.0, a.1 is Ok)
        },
        RegistryCall::MintInvoiceToken { caller, token_id, owner } => {
            let a = s.mint_invoice_token(caller, token_id, owner);
            (a.0, a.1 is Ok)
        },
        RegistryCall::TransferInvoiceToken { now, token_id, from, to, royalty_bps } => (
            RegistryState {
                tokens: s.tokens.transfer(now, token_id, from, to, royalty_bps),
                ..s
            },
            true,
        ),
        RegistryCall::QueueUpgrade { now, caller, new_wasm_hash } => {
            let a = s.queue_upgrade(now, caller, new_wasm_hash);
            (a.0, a.1 is Ok)
        },
        RegistryCall::ExecuteUpgrade { now } => {
            let a = s.execute_upgrade(now);
            (a.0, a.1 is Ok)
        },
        RegistryCall::CancelUpgrade { caller } => {
            let a = s.cancel_upgrade(caller);
            (a.0, a.1 is Ok)
        },
        RegistryCall::SetUpgradePaused { caller, paused } => {
            let a = s.set_upgrade_paused(caller, paused);
            (a.0, a.1 is Ok)
        },
    }
}

/// The call can be made: a token is minted once, and transferred by its owner.
pub open spec fn possible(s: RegistryState, call: RegistryCall) -> bool {
    match call {
        RegistryCall::MintInvoiceToken { caller, token_id, owner } => s.refusal(caller) is None
            ==> !s.tokens.minted(token_id),
        RegistryCall::TransferInvoiceToken { token_id, from, royalty_bps, .. } =>
        s.tokens.may_transfer(token_id, from, royalty_bps),
        RegistryCall::QueueUpgrade { now, caller, .. } => s.refusal(caller) is None ==> now
            + UPGRADE_TIMELOCK_SECS <= u64::MAX,
        _ => true,
    }
}

/// The state that a run of calls leaves.
pub open spec fn run(s: RegistryState, calls: Seq<RegistryCall>) -> RegistryState
    decreases calls.len(),
{
    if calls.len() == 0 {
        s
    } else {
        answer(run(s, calls.drop_last()), calls.last()).0
    }
}

/// Every call of the run can be made.
pub open spec fn run_possible(s: RegistryState, calls: Seq<RegistryCall>) -> bool
    decreases calls.len(),
{
    calls.len() > 0 ==> run_possible(s, calls.drop_last()) && possible(
        run(s, calls.drop_last()),
        calls.last(),
    )
}

/// A refused call leaves the registry as it was.
#[verifier::rlimit(50)]
pub proof fn law_refused_call_changes_nothing(s: RegistryState, call: RegistryCall)
    ensures
        !answer(s, call).1 ==> answer(s, call).0 == s,
{
}

/// The registry is initialized at most once: the admin is never replaced.
#[verifier::rlimit(50)]
pub proof fn law_initialized_once(s: RegistryState, call: RegistryCall, admin: Symbol)
    requires
        s.admin is Some,
    ensures
        answer(s, call).0.admin == s.admin,
        s.initialize(admin) == (s, Err::<(), ContractError>(ContractError::AlreadyInitialized)),
{
}

proof fn lemma_filed_updated(s: RegistryState, invoice: CommittedInvoice)
    requires
        filed(s.invoices),
    ensures
        filed(s.invoices.insert(InvoiceKey(invoice.id), invoice)),
{
    let m = s.invoices.insert(InvoiceKey(invoice.id), invoice);
    assert forall|k: InvoiceKey| #[trigger] m.contains_key(k) implies m[k].id == k.0 by {
        if k != InvoiceKey(invoice.id) {
            assert(s.invoices.contains_key(k));
        }
    }
}

/// Every call keeps the registry's invariant.
pub proof fn law_call_keeps_registry_sound(s: RegistryState, call: RegistryCall)
    requires
        s.inv(),
        possible(s, call),
    ensures
        answer(s, call).0.inv(),
{
    let next = answer(s, call).0;
    match call {
        RegistryCall::MintInvoiceToken { caller, token_id, owner } => {
            law_mint_starts_a_chain(s.tokens, token_id, owner);
        },
        RegistryCall::TransferInvoiceToken { now, token_id, from, to, royalty_bps } => {
            law_transfer_extends_the_chain(s.tokens, now, token_id, from, to, royalty_bps);
        },
        RegistryCall::Register { id, .. } => {
            lemma_filed_updated(s, next.invoices[InvoiceKey(id)]);
        },
        RegistryCall::Approve { id, .. } => {
            lemma_filed_updated(s, next.invoices[InvoiceKey(id)]);
        },
        RegistryCall::VerifyInvoice { id, .. } => {
            lemma_filed_updated(s, next.invoices[InvoiceKey(id)]);
        },
        RegistryCall::Assign { id, .. } => {
            lemma_filed_updated(s, next.invoices[InvoiceKey(id)]);
        },
        RegistryCall::AssignInvoice { id, .. } => {
            lemma_filed_updated(s, next.invoices[InvoiceKey(id)]);
        },
        RegistryCall::MarkRepaid { id, .. } => {
            lemma_filed_updated(s, next.invoices[InvoiceKey(id)]);
        },
        RegistryCall::FlagInvoice { id, .. } => {
            lemma_filed_updated(s, next.invoices[InvoiceKey(id)]);
        },
        RegistryCall::FreezeInvoice { id, .. } => {
            lemma_filed_updated(s, next.invoices[InvoiceKey(id)]);
        },
        RegistryCall::UnfreezeInvoice { id, .. } => {
            lemma_filed_updated(s, next.invoices[InvoiceKey(id)]);
        },
        _ => {},
    }
}

/// The stages of an invoice's life, counted.
pub open spec fn stage(status: InvoiceStatus) -> int {
    match status {
        InvoiceStatus::Pending => 0,
        InvoiceStatus::Approved => 1,
        InvoiceStatus::Assigned => 2,
        InvoiceStatus::Repaid => 3,
    }
}

/// What a call may make of an invoice.
pub open spec fn one_stage_at_most(before: CommittedInvoice, after: Option<CommittedInvoice>) -> bool {
    after matches Some(after) && {
        &&& after.id == before.id
        &&& after.commitment == before.commitment
        &&& stage(before.status) <= stage(after.status) <= stage(before.status) + 1
        &&& after.owner != before.owner ==> before.status == InvoiceStatus::Approved && after.status
            == InvoiceStatus::Assigned
        &&& before.fraud_flagged ==> after.fraud_flagged
    }
}

/// A call never removes an invoice, never changes its id or its commitment,
/// never takes a fraud flag back, and takes the invoice at most one stage
/// further: no stage is skipped and none is gone back to. The owner changes
/// only with the assignment.
#[verifier::rlimit(50)]
pub proof fn law_invoice_moves_one_stage(s: RegistryState, call: RegistryCall, id: Symbol)
    requires
        s.inv(),
        s.get_invoice(id) is Some,
    ensures
        one_stage_at_most(s.get_invoice(id)->0, answer(s, call).0.get_invoice(id)),
{
    // Most calls leave all invoices alone.
    assert(answer(s, call).0.invoices == s.invoices || call is Register || call is Approve || call
        is VerifyInvoice || call is Assign || call is AssignInvoice || call is MarkRepaid || call
        is FlagInvoice || call is FreezeInvoice || call is UnfreezeInvoice);
}

/// Over any run of calls an invoice stays registered under its id and
/// commitment and never goes back to an earlier stage.
pub proof fn law_invoice_keeps_its_commitment(
    s: RegistryState,
    calls: Seq<RegistryCall>,
    id: Symbol,
)
    requires
        s.inv(),
        run_possible(s, calls),
        s.get_invoice(id) is Some,
    ensures
        run(s, calls).inv(),
        run(s, calls).get_invoice(id) matches Some(after) && after.id == s.get_invoice(id)->0.id
            && after.commitment == s.get_invoice(id)->0.commitment && stage(
            s.get_invoice(id)->0.status,
        ) <= stage(after.status),
    decreases calls.len(),
{
    if calls.len() > 0 {
        law_invoice_keeps_its_commitment(s, calls.drop_last(), id);
        let mid = run(s, calls.drop_last());
        law_invoice_moves_one_stage(mid, calls.last(), id);
        law_call_keeps_registry_sound(mid, calls.last());
    }
}

/// The calls that take an invoice out of the given stage.
pub open spec fn moves_on(status: InvoiceStatus, call: RegistryCall) -> bool {
    match status {
        InvoiceStatus::Pending => call is Approve || call is VerifyInvoice,
        InvoiceStatus::Approved => call is Assign || call is AssignInvoice,
        InvoiceStatus::Assigned => call is MarkRepaid,
        InvoiceStatus::Repaid => false,
    }
}

/// Which calls move an invoice: approval and verification a pending one,
/// assignment an approved one, repayment an assigned one, and none a repaid
/// one.
#[verifier::rlimit(50)]
pub proof fn law_each_stage_has_its_calls(s: RegistryState, call: RegistryCall, id: Symbol)
    requires
        s.inv(),
        s.get_invoice(id) is Some,
        answer(s, call).0.get_invoice(id)->0.status != s.get_invoice(id)->0.status,
    ensures
        moves_on(s.get_invoice(id)->0.status, call),
{
}

/// An invoice is registered at most once: a second registration under its id
/// is refused and changes nothing.
pub proof fn law_ids_are_unique(s: RegistryState, id: Symbol, c: i128, owner: Symbol)
    ensures
        s.get_invoice(id) is Some <==> s.register(id, c, owner) == (
            s,
            Err::<(), ContractError>(ContractError::InvoiceAlreadyExists),
        ),
        s.register(id, c, owner).0.get_invoice(id) is Some,
{
}

/// Who asks for a call that is for the admin alone.
pub open spec fn needs_admin(call: RegistryCall) -> Option<Symbol> {
    match call {
        RegistryCall::Approve { caller, .. } => Some(caller),
        RegistryCall::SetVerifier { caller, .. } => Some(caller),
        RegistryCall::Assign { caller, .. } => Some(caller),
        RegistryCall::MarkRepaid { caller, .. } => Some(caller),
        RegistryCall::FlagInvoice { caller, .. } => Some(caller),
        RegistryCall::FreezeInvoice { caller, .. } => Some(caller),
        RegistryCall::UnfreezeInvoice { caller, .. } => Some(caller),
        RegistryCall::MintInvoiceToken { caller, .. } => Some(caller),
        RegistryCall::QueueUpgrade { caller, .. } => Some(caller),
        RegistryCall::CancelUpgrade { caller } => Some(caller),
        RegistryCall::SetUpgradePaused { caller, .. } => Some(caller),
        _ => None,
    }
}

/// A call for the admin is refused to everybody else, and to everybody before
/// there is an admin, and then changes nothing.
#[verifier::rlimit(50)]
pub proof fn law_admin_alone(s: RegistryState, call: RegistryCall)
    requires
        needs_admin(call) is Some,
        s.admin != needs_admin(call),
    ensures
        answer(s, call) == (s, false),
{
}

/// The call is the admin's, and sets the status of `who`.
pub open spec fn grants(s: RegistryState, call: RegistryCall, who: Symbol) -> bool {
    call matches RegistryCall::SetVerifier { caller, verifier, .. } && s.admin == Some(caller)
        && verifier == who
}

/// Only the admin grants and revokes the status of a verifier, and without it
/// nobody verifies an invoice.
#[verifier::rlimit(50)]
pub proof fn law_verifiers_are_granted(s: RegistryState, call: RegistryCall, who: Symbol, id: Symbol)
    ensures
        answer(s, call).0.is_verifier(who) != s.is_verifier(who) ==> grants(s, call, who),
        !s.is_verifier(who) ==> s.verify_invoice(who, id) == (
            s,
            Err::<(), ContractError>(ContractError::NotVerifier),
        ),
{
    if !(call is SetVerifier) {
        assert(answer(s, call).0.verifiers == s.verifiers);
    }
}

/// A frozen invoice stays in its stage: approval, assignment and repayment by
/// the admin, verification by a verifier and assignment by a pool manager are
/// each refused as frozen and change nothing.
pub proof fn law_frozen_blocks(s: RegistryState, caller: Symbol, id: Symbol, new_owner: Symbol)
    requires
        s.get_invoice(id) matches Some(invoice) && invoice.frozen,
    ensures
        s.refusal(caller) is None ==> {
            let refused = (s, Err::<(), ContractError>(ContractError::InvoiceFrozen));
            &&& s.approve(caller, id) == refused
            &&& s.assign(caller, id, new_owner) == refused
            &&& s.mark_repaid(caller, id) == refused
        },
        s.is_verifier(caller) ==> s.verify_invoice(caller, id) == (
            s,
            Err::<(), ContractError>(ContractError::InvoiceFrozen),
        ),
        s.assign_invoice(id, new_owner) == (
            s,
            Err::<(), ContractError>(ContractError::InvoiceFrozen),
        ),
{
}

/// While an invoice is frozen no call takes it to another stage.
pub proof fn law_frozen_invoice_stays(s: RegistryState, call: RegistryCall, id: Symbol)
    requires
        s.inv(),
        s.get_invoice(id) matches Some(invoice) && invoice.frozen,
    ensures
        answer(s, call).0.get_invoice(id) matches Some(after) && after.status == s.get_invoice(
            id,
        )->0.status && after.owner == s.get_invoice(id)->0.owner,
{
    law_invoice_moves_one_stage(s, call, id);
    if answer(s, call).0.get_invoice(id)->0.status != s.get_invoice(id)->0.status {
        law_each_stage_has_its_calls(s, call, id);
    }
}

/// Only the admin freezes an invoice and only the admin lifts a freeze.
#[verifier::rlimit(50)]
pub proof fn law_freezes_are_the_admins(s: RegistryState, call: RegistryCall, id: Symbol)
    requires
        s.get_invoice(id) is Some,
        answer(s, call).0.get_invoice(id)->0.frozen != s.get_invoice(id)->0.frozen,
    ensures
        match call {
            RegistryCall::FreezeInvoice { caller, id: i } => s.admin == Some(caller) && i == id
                && answer(s, call).0.get_invoice(id)->0.frozen,
            RegistryCall::UnfreezeInvoice { caller, id: i, .. } => s.admin == Some(caller) && i
                == id && !answer(s, call).0.get_invoice(id)->0.frozen,
            _ => false,
        },
{
}

/// Lifting a freeze undoes it: every invoice is as it was before.
pub proof fn law_unfreeze_undoes_freeze(
    s: RegistryState,
    caller: Symbol,
    id: Symbol,
    justification: Symbol,
)
    requires
        s.refusal(caller) is None,
        s.get_invoice(id) matches Some(invoice) && !invoice.frozen,
    ensures
        s.freeze_invoice(caller, id).0.unfreeze_invoice(caller, id, justification).0.invoices
            == s.invoices,
{
    assert(s.freeze_invoice(caller, id).0.unfreeze_invoice(caller, id, justification).0.invoices
        =~= s.invoices);
}

/// A fraud flag blocks nothing: with it every lifecycle call is answered as
/// without it.
pub proof fn law_flag_blocks_nothing(
    s: RegistryState,
    admin: Symbol,
    id: Symbol,
    caller: Symbol,
    owner: Symbol,
)
    requires
        s.flag_invoice(admin, id).1 is Ok,
    ensures
        ({
            let flagged = s.flag_invoice(admin, id).0;
            &&& flagged.approve(caller, id).1 == s.approve(caller, id).1
            &&& flagged.verify_invoice(caller, id).1 == s.verify_invoice(caller, id).1
            &&& flagged.assign(caller, id, owner).1 == s.assign(caller, id, owner).1
            &&& flagged.assign_invoice(id, owner).1 == s.assign_invoice(id, owner).1
            &&& flagged.mark_repaid(caller, id).1 == s.mark_repaid(caller, id).1
        }),
{
}

/// The amount behind an invoice can be proved at any later time, whatever has
/// happened to it: the opening that its commitment was made from is accepted,
/// and with the same blinding factor no other value is, but for those that are
/// equal to it in the field.
pub proof fn law_amount_can_be_proved(
    s: RegistryState,
    id: Symbol,
    owner: Symbol,
    value: i128,
    blinding: i128,
    calls: Seq<RegistryCall>,
    other: i128,
)
    requires
        s.inv(),
        s.get_invoice(id) is None,
        run_possible(
            s.register(id, commitment(value as int, blinding as int) as i128, owner).0,
            calls,
        ),
    ensures
        ({
            let c = commitment(value as int, blinding as int) as i128;
            let end = run(s.register(id, c, owner).0, calls);
            &&& end.verify_amount(id, value, blinding) == Ok::<bool, ContractError>(true)
            &&& end.verify_amount(id, other, blinding) == Ok::<bool, ContractError>(
                value as int % (P as int) == other as int % (P as int),
            )
        }),
{
    let c = commitment(value as int, blinding as int) as i128;
    assert(0 <= commitment(value as int, blinding as int) < P);
    law_call_keeps_registry_sound(s, RegistryCall::Register { id, commitment: c, owner });
    law_invoice_keeps_its_commitment(s.register(id, c, owner).0, calls, id);
    law_openings_are_bound(value as int, blinding as int, other as int);
}

#[verifier::rlimit(50)]
proof fn lemma_queue_kept(s: RegistryState, call: RegistryCall)
    requires
        !(call is QueueUpgrade),
    ensures
        answer(s, call).0.queued_upgrade is None || answer(s, call).0.queued_upgrade
            == s.queued_upgrade,
{
}

/// Without a new one queued, the queued upgrade stays as it is or leaves the
/// queue.
proof fn lemma_queue_only_empties(s: RegistryState, calls: Seq<RegistryCall>)
    requires
        forall|i: int| 0 <= i < calls.len() ==> !(#[trigger] calls[i] is QueueUpgrade),
    ensures
        run(s, calls).queued_upgrade is None || run(s, calls).queued_upgrade == s.queued_upgrade,
    decreases calls.len(),
{
    if calls.len() > 0 {
        assert forall|i: int| 0 <= i < calls.drop_last().len() implies !(
        #[trigger] calls.drop_last()[i] is QueueUpgrade) by {
            assert(!(calls[i] is QueueUpgrade));
        }
        lemma_queue_only_empties(s, calls.drop_last());
        assert(!(calls[calls.len() - 1] is QueueUpgrade));
        lemma_queue_kept(run(s, calls.drop_last()), calls.last());
    }
}

/// An upgrade waits out its 48 hours: whatever is called in between, short of
/// queuing another, it is not executed before.
pub proof fn law_no_early_upgrade(
    s: RegistryState,
    queued: u64,
    caller: Symbol,
    hash: [u8; 32],
    calls: Seq<RegistryCall>,
    now: u64,
)
    requires
        s.refusal(caller) is None,
        queued + UPGRADE_TIMELOCK_SECS <= u64::MAX,
        forall|i: int| 0 <= i < calls.len() ==> !(#[trigger] calls[i] is QueueUpgrade),
        now < queued + UPGRADE_TIMELOCK_SECS,
    ensures
        ({
            let end = run(s.queue_upgrade(queued, caller, hash).0, calls);
            end.execute_upgrade(now).0 == end && end.execute_upgrade(now).1 is Err
        }),
{
    lemma_queue_only_empties(s.queue_upgrade(queued, caller, hash).0, calls);
}

/// An upgrade that was executed or cancelled is gone: whatever is called
/// after it, short of queuing another, none is executed.
pub proof fn law_upgrade_leaves_the_queue(
    s: RegistryState,
    call: RegistryCall,
    calls: Seq<RegistryCall>,
    now: u64,
)
    requires
        call is ExecuteUpgrade || call is CancelUpgrade,
        answer(s, call).1,
        forall|i: int| 0 <= i < calls.len() ==> !(#[trigger] calls[i] is QueueUpgrade),
    ensures
        run(answer(s, call).0, calls).execute_upgrade(now).1 is Err,
{
    lemma_queue_only_empties(answer(s, call).0, calls);
}

/// A queued upgrade executes, with the queued code, once its time has come and
/// upgrades are not paused; while they are paused none does.
pub proof fn law_upgrade_executes_in_time(
    s: RegistryState,
    queued: u64,
    caller: Symbol,
    hash: [u8; 32],
    now: u64,
)
    requires
        s.refusal(caller) is None,
        queued + UPGRADE_TIMELOCK_SECS <= now,
    ensures
        ({
            let mid = s.queue_upgrade(queued, caller, hash).0;
            mid.execute_upgrade(now).1 == (if s.upgrades_paused {
                Err::<[u8; 32], ContractError>(ContractError::UpgradesPaused)
            } else {
                Ok(hash)
            })
        }),
{
}

} // verus!
