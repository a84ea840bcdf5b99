use invoicelift::ident::{Address, Authorization, Symbol};
use invoicelift::invoice_registry::{
    ContractError, InvoiceRegistry, InvoiceStatus, QueuedUpgrade, RegistryEvent,
};
use invoicelift::pedersen;

fn sym(text: &str) -> Symbol {
    let mut bytes = [0u8; 32];
    bytes[..text.len()].copy_from_slice(text.as_bytes());
    Symbol {
        head: u128::from_be_bytes(bytes[..16].try_into().unwrap()),
        tail: u128::from_be_bytes(bytes[16..].try_into().unwrap()),
    }
}

fn setup() -> InvoiceRegistry {
    let mut registry = InvoiceRegistry::new();
    registry.initialize(sym("admin")).unwrap();
    registry
}

fn test_commitment(value: i128, blinding: i128) -> i128 {
    pedersen::commit(value, blinding)
}

fn registered(id: &str, commitment: i128) -> InvoiceRegistry {
    let mut registry = setup();
    registry.register(sym(id), commitment, sym("sme1")).unwrap();
    registry
}

#[test]
fn test_register_invoice_stores_commitment() {
    let mut registry = setup();
    let inv_id = sym("INV001");
    let commitment = test_commitment(50_000, 12345);
    registry.register(inv_id, commitment, sym("sme1")).unwrap();

    let invoice = registry.get_invoice(inv_id).expect("invoice missing");
    assert_eq!(invoice.commitment, commitment);
    assert_eq!(invoice.status, InvoiceStatus::Pending);
    assert_eq!(invoice.owner, sym("sme1"));
}

#[test]
fn test_register_duplicate_errors() {
    let mut registry = setup();
    let inv_id = sym("INV002");
    let commitment = test_commitment(10_000, 999);
    registry.register(inv_id, commitment, sym("sme1")).unwrap();
    let err = registry.register(inv_id, commitment, sym("sme1"));
    assert_eq!(err, Err(ContractError::InvoiceAlreadyExists));
}

#[test]
fn test_approve_transitions_status() {
    let inv_id = sym("INV003");
    let mut registry = registered("INV003", test_commitment(20_000, 555));
    registry.approve(sym("admin"), inv_id).unwrap();
    let invoice = registry.get_invoice(inv_id).expect("missing");
    assert_eq!(invoice.status, InvoiceStatus::Approved);
}

#[test]
fn test_approve_non_admin_errors() {
    let mut registry = registered("INV004", test_commitment(30_000, 777));
    let err = registry.approve(sym("hacker"), sym("INV004"));
    assert_eq!(err, Err(ContractError::Unauthorized));
}

#[test]
fn test_verify_invoice_by_granted_verifier_transitions_status() {
    let inv_id = sym("INV010");
    let mut registry = registered("INV010", test_commitment(15_000, 111));
    registry.set_verifier(sym("admin"), sym("ver1"), true).unwrap();
    registry.verify_invoice(sym("ver1"), inv_id).unwrap();

    let invoice = registry.get_invoice(inv_id).expect("missing");
    assert_eq!(invoice.status, InvoiceStatus::Approved);
}

#[test]
fn test_verify_invoice_non_verifier_errors() {
    let mut registry = registered("INV011", test_commitment(15_000, 222));
    let err = registry.verify_invoice(sym("rando"), sym("INV011"));
    assert_eq!(err, Err(ContractError::NotVerifier));
}

#[test]
fn test_verify_invoice_wrong_state_errors() {
    let inv_id = sym("INV012");
    let mut registry = registered("INV012", test_commitment(15_000, 333));
    registry.set_verifier(sym("admin"), sym("ver1"), true).unwrap();
    registry.approve(sym("admin"), inv_id).unwrap();
    let err = registry.verify_invoice(sym("ver1"), inv_id);
    assert_eq!(err, Err(ContractError::InvalidStatus));
}

#[test]
fn test_assign_transitions_owner() {
    let inv_id = sym("INV005");
    let mut registry = registered("INV005", test_commitment(40_000, 888));
    registry.approve(sym("admin"), inv_id).unwrap();
    registry.assign(sym("admin"), inv_id, sym("pool1")).unwrap();

    let invoice = registry.get_invoice(inv_id).expect("missing");
    assert_eq!(invoice.status, InvoiceStatus::Assigned);
    assert_eq!(invoice.owner, sym("pool1"));
}

fn pool_manager() -> (Address, Authorization) {
    let address = Address { is_contract: true, head: 3, tail: 4 };
    (address, Authorization { granted: vec![address] })
}

#[test]
fn test_assign_invoice_by_pool_manager_stores_pool_address() {
    let inv_id = sym("INV013");
    let mut registry = registered("INV013", test_commitment(45_000, 444));
    let (address, auth) = pool_manager();
    registry.approve(sym("admin"), inv_id).unwrap();
    registry.assign_invoice(&auth, address, inv_id, sym("pool9")).unwrap();

    let invoice = registry.get_invoice(inv_id).expect("missing");
    assert_eq!(invoice.status, InvoiceStatus::Assigned);
    assert_eq!(invoice.owner, sym("pool9"));
}

#[test]
fn test_assign_invoice_wrong_state_errors() {
    let mut registry = registered("INV014", test_commitment(45_000, 555));
    let (address, auth) = pool_manager();
    let err = registry.assign_invoice(&auth, address, sym("INV014"), sym("pool9"));
    assert_eq!(err, Err(ContractError::InvalidStatus));
}

#[test]
fn test_mark_repaid_transitions_status() {
    let inv_id = sym("INV006");
    let mut registry = registered("INV006", test_commitment(60_000, 321));
    registry.approve(sym("admin"), inv_id).unwrap();
    registry.assign(sym("admin"), inv_id, sym("pool1")).unwrap();
    registry.mark_repaid(sym("admin"), inv_id).unwrap();

    let invoice = registry.get_invoice(inv_id).expect("missing");
    assert_eq!(invoice.status, InvoiceStatus::Repaid);
}

#[test]
fn test_flag_invoice_sets_fraud_flag() {
    let inv_id = sym("INV015");
    let mut registry = registered("INV015", test_commitment(10_000, 1));
    registry.flag_invoice(sym("admin"), inv_id).unwrap();
    let invoice = registry.get_invoice(inv_id).expect("missing");
    assert!(invoice.fraud_flagged);
}

#[test]
fn test_freeze_invoice_blocks_approve() {
    let inv_id = sym("INV016");
    let mut registry = registered("INV016", test_commitment(10_000, 2));
    registry.freeze_invoice(sym("admin"), inv_id).unwrap();
    let err = registry.approve(sym("admin"), inv_id);
    assert_eq!(err, Err(ContractError::InvoiceFrozen));
}

#[test]
fn test_unfreeze_invoice_lifts_block() {
    let inv_id = sym("INV017");
    let mut registry = registered("INV017", test_commitment(10_000, 3));
    registry.freeze_invoice(sym("admin"), inv_id).unwrap();
    registry.unfreeze_invoice(sym("admin"), inv_id, sym("cleared")).unwrap();
    registry.approve(sym("admin"), inv_id).unwrap();

    let invoice = registry.get_invoice(inv_id).expect("missing");
    assert_eq!(invoice.status, InvoiceStatus::Approved);
    assert!(!invoice.frozen);
}

#[test]
fn test_verify_amount_correct_opening() {
    let value: i128 = 75_000;
    let blinding: i128 = 13579;
    let registry = registered("INV007", test_commitment(value, blinding));
    let verified = registry.verify_amount(sym("INV007"), value, blinding).unwrap();
    assert!(verified);
}

#[test]
fn test_verify_amount_wrong_opening_fails() {
    let registry = registered("INV008", test_commitment(75_000, 13579));
    let verified = registry.verify_amount(sym("INV008"), 99_999, 13579).unwrap();
    assert!(!verified);
}

#[test]
fn test_get_invoice_non_existent_returns_none() {
    let registry = setup();
    let result = registry.get_invoice(sym("GHOST"));
    assert!(result.is_none());
}

#[test]
fn test_version_returns_two() {
    assert_eq!(InvoiceRegistry::version(), 2);
}

#[test]
fn test_full_lifecycle() {
    let mut registry = setup();
    let inv_id = sym("INV009");
    let value: i128 = 100_000;
    let blinding: i128 = 24680;
    let commitment = test_commitment(value, blinding);

    registry.register(inv_id, commitment, sym("sme1")).unwrap();
    assert_eq!(registry.get_invoice(inv_id).unwrap().status, InvoiceStatus::Pending);

    registry.approve(sym("admin"), inv_id).unwrap();
    assert_eq!(registry.get_invoice(inv_id).unwrap().status, InvoiceStatus::Approved);

    registry.assign(sym("admin"), inv_id, sym("pool1")).unwrap();
    assert_eq!(registry.get_invoice(inv_id).unwrap().status, InvoiceStatus::Assigned);

    registry.mark_repaid(sym("admin"), inv_id).unwrap();
    assert_eq!(registry.get_invoice(inv_id).unwrap().status, InvoiceStatus::Repaid);

    assert!(registry.verify_amount(inv_id, value, blinding).unwrap());
}

fn dummy_wasm_hash() -> [u8; 32] {
    [7u8; 32]
}

#[test]
fn queue_upgrade_requires_admin() {
    let mut registry = setup();
    let err = registry.queue_upgrade(0, sym("hacker"), dummy_wasm_hash());
    assert_eq!(err, Err(ContractError::Unauthorized));
}

#[test]
fn queue_upgrade_sets_execute_after_48h_out() {
    let mut registry = setup();
    let queued_at = 1_000;
    let execute_after =
        registry.queue_upgrade(queued_at, sym("admin"), dummy_wasm_hash()).unwrap();
    assert_eq!(execute_after, queued_at + 48 * 60 * 60);
}

#[test]
fn execute_upgrade_before_timelock_elapses_errors() {
    let mut registry = setup();
    registry.queue_upgrade(0, sym("admin"), dummy_wasm_hash()).unwrap();
    let err = registry.execute_upgrade(0);
    assert_eq!(err, Err(ContractError::UpgradeTimelockNotElapsed));
}

#[test]
fn execute_upgrade_with_nothing_queued_errors() {
    let mut registry = setup();
    let err = registry.execute_upgrade(0);
    assert_eq!(err, Err(ContractError::NoQueuedUpgrade));
}

#[test]
fn cancel_upgrade_clears_the_queue() {
    let mut registry = setup();
    registry.queue_upgrade(0, sym("admin"), dummy_wasm_hash()).unwrap();
    registry.cancel_upgrade(sym("admin")).unwrap();
    assert!(registry.queued_upgrade().is_none());
}

#[test]
fn execute_upgrade_while_paused_errors_even_after_timelock_elapses() {
    let mut registry = setup();
    registry.queue_upgrade(0, sym("admin"), dummy_wasm_hash()).unwrap();
    registry.set_upgrade_paused(sym("admin"), true).unwrap();
    let err = registry.execute_upgrade(48 * 60 * 60);
    assert_eq!(err, Err(ContractError::UpgradesPaused));
}

#[test]
fn an_upgrade_executes_once_in_its_time() {
    let mut registry = setup();
    let execute_after = registry.queue_upgrade(9, sym("admin"), dummy_wasm_hash()).unwrap();
    assert_eq!(
        registry.queued_upgrade(),
        Some(QueuedUpgrade { new_wasm_hash: dummy_wasm_hash(), execute_after })
    );
    assert_eq!(
        registry.execute_upgrade(execute_after - 1),
        Err(ContractError::UpgradeTimelockNotElapsed)
    );
    assert_eq!(registry.execute_upgrade(execute_after), Ok(dummy_wasm_hash()));
    assert_eq!(registry.execute_upgrade(execute_after), Err(ContractError::NoQueuedUpgrade));
    assert_eq!(registry.cancel_upgrade(sym("admin")), Err(ContractError::NoQueuedUpgrade));
}

#[test]
fn a_pause_can_be_lifted() {
    let mut registry = setup();
    registry.queue_upgrade(0, sym("admin"), [8; 32]).unwrap();
    registry.set_upgrade_paused(sym("admin"), true).unwrap();
    assert!(registry.is_upgrade_paused());
    registry.set_upgrade_paused(sym("admin"), false).unwrap();
    assert!(!registry.is_upgrade_paused());
    assert_eq!(registry.execute_upgrade(48 * 60 * 60), Ok([8; 32]));
}

#[test]
fn a_registry_is_initialized_once() {
    let mut registry = setup();
    assert_eq!(registry.initialize(sym("other")), Err(ContractError::AlreadyInitialized));
    assert_eq!(registry.set_verifier(sym("other"), sym("v"), true), Err(ContractError::Unauthorized));
}

#[test]
fn without_an_admin_nothing_is_administered() {
    let mut registry = InvoiceRegistry::new();
    registry.register(sym("INV1"), 1, sym("sme1")).unwrap();
    let expected = Err(ContractError::NotInitialized);
    assert_eq!(registry.approve(sym("admin"), sym("INV1")), expected);
    assert_eq!(registry.assign(sym("admin"), sym("INV1"), sym("p")), expected);
    assert_eq!(registry.mark_repaid(sym("admin"), sym("INV1")), expected);
    assert_eq!(registry.flag_invoice(sym("admin"), sym("INV1")), expected);
    assert_eq!(registry.freeze_invoice(sym("admin"), sym("INV1")), expected);
    assert_eq!(registry.unfreeze_invoice(sym("admin"), sym("INV1"), sym("x")), expected);
    assert_eq!(registry.mint_invoice_token(sym("admin"), sym("INV1"), sym("x")), expected);
    assert_eq!(registry.cancel_upgrade(sym("admin")), expected);
    assert_eq!(registry.set_upgrade_paused(sym("admin"), true), expected);
}

#[test]
fn an_unknown_invoice_is_not_found() {
    let mut registry = setup();
    registry.set_verifier(sym("admin"), sym("ver1"), true).unwrap();
    let (address, auth) = pool_manager();
    let ghost = sym("GHOST");
    let expected = Err(ContractError::InvoiceNotFound);
    assert_eq!(registry.approve(sym("admin"), ghost), expected);
    assert_eq!(registry.verify_invoice(sym("ver1"), ghost), expected);
    assert_eq!(registry.assign(sym("admin"), ghost, sym("p")), expected);
    assert_eq!(registry.assign_invoice(&auth, address, ghost, sym("p")), expected);
    assert_eq!(registry.mark_repaid(sym("admin"), ghost), expected);
    assert_eq!(registry.flag_invoice(sym("admin"), ghost), expected);
    assert_eq!(registry.verify_amount(ghost, 1, 1), Err(ContractError::InvoiceNotFound));
}

#[test]
fn stages_are_neither_skipped_nor_repeated() {
    let id = sym("INV1");
    let mut registry = registered("INV1", 1);
    assert_eq!(registry.assign(sym("admin"), id, sym("p")), Err(ContractError::InvalidStatus));
    assert_eq!(registry.mark_repaid(sym("admin"), id), Err(ContractError::InvalidStatus));
    registry.approve(sym("admin"), id).unwrap();
    assert_eq!(registry.approve(sym("admin"), id), Err(ContractError::InvalidStatus));
    registry.assign(sym("admin"), id, sym("p")).unwrap();
    assert_eq!(registry.assign(sym("admin"), id, sym("q")), Err(ContractError::InvalidStatus));
    registry.mark_repaid(sym("admin"), id).unwrap();
    assert_eq!(registry.mark_repaid(sym("admin"), id), Err(ContractError::InvalidStatus));
    assert_eq!(registry.get_invoice(id).unwrap().owner, sym("p"));
}

#[test]
fn a_freeze_blocks_assignment_and_repayment() {
    let id = sym("INV1");
    let mut registry = registered("INV1", 1);
    registry.approve(sym("admin"), id).unwrap();
    registry.freeze_invoice(sym("admin"), id).unwrap();
    assert_eq!(registry.assign(sym("admin"), id, sym("p")), Err(ContractError::InvoiceFrozen));
    registry.unfreeze_invoice(sym("admin"), id, sym("ok")).unwrap();
    registry.assign(sym("admin"), id, sym("p")).unwrap();
    registry.freeze_invoice(sym("admin"), id).unwrap();
    assert_eq!(registry.mark_repaid(sym("admin"), id), Err(ContractError::InvoiceFrozen));
    assert_eq!(
        registry.take_events(),
        vec![
            RegistryEvent::InvoiceFrozen { id },
            RegistryEvent::InvoiceUnfrozen { justification: sym("ok"), id },
            RegistryEvent::InvoiceFrozen { id },
        ]
    );
}

#[test]
fn a_flag_blocks_nothing() {
    let id = sym("INV1");
    let mut registry = registered("INV1", 1);
    registry.flag_invoice(sym("admin"), id).unwrap();
    registry.approve(sym("admin"), id).unwrap();
    registry.assign(sym("admin"), id, sym("p")).unwrap();
    registry.mark_repaid(sym("admin"), id).unwrap();
    assert!(registry.get_invoice(id).unwrap().fraud_flagged);
    assert_eq!(registry.take_events(), vec![RegistryEvent::InvoiceFlagged { id }]);
}

#[test]
fn a_verifier_can_be_revoked() {
    let mut registry = registered("INV1", 1);
    assert!(!registry.is_verifier(sym("ver1")));
    registry.set_verifier(sym("admin"), sym("ver1"), true).unwrap();
    assert!(registry.is_verifier(sym("ver1")));
    registry.set_verifier(sym("admin"), sym("ver1"), false).unwrap();
    assert!(!registry.is_verifier(sym("ver1")));
    assert_eq!(
        registry.verify_invoice(sym("ver1"), sym("INV1")),
        Err(ContractError::NotVerifier)
    );
}

#[test]
fn verification_and_assignment_are_announced() {
    let id = sym("INV1");
    let mut registry = registered("INV1", 1);
    registry.set_verifier(sym("admin"), sym("ver1"), true).unwrap();
    registry.verify_invoice(sym("ver1"), id).unwrap();
    let (address, auth) = pool_manager();
    registry.assign_invoice(&auth, address, id, sym("pool9")).unwrap();
    assert_eq!(
        registry.take_events(),
        vec![
            RegistryEvent::InvoiceVerified { id },
            RegistryEvent::InvoiceAssigned { pool: sym("pool9"), id },
        ]
    );
}

#[test]
fn invoice_tokens_pass_through_the_registry() {
    let id = sym("INV1");
    let mut registry = setup();
    assert_eq!(registry.invoice_owner(id), None);
    assert_eq!(
        registry.mint_invoice_token(sym("hacker"), id, sym("hacker")),
        Err(ContractError::Unauthorized)
    );
    registry.mint_invoice_token(sym("admin"), id, sym("sme1")).unwrap();
    registry.transfer_invoice_token(4, id, sym("sme1"), sym("pool1"), 500);
    assert_eq!(registry.invoice_owner(id), Some(sym("pool1")));
    assert_eq!(registry.invoice_transfer_history(id).len(), 1);
    assert_eq!(registry.invoice_repayment_share(id, 99), (sym("pool1"), 99));
}

#[test]
fn the_registry_answers_pings() {
    assert_eq!(InvoiceRegistry::ping(sym("hello")), sym("hello"));
}

#[test]
fn a_freeze_blocks_verification() {
    let id = sym("INV1");
    let mut registry = registered("INV1", 1);
    registry.set_verifier(sym("admin"), sym("ver1"), true).unwrap();
    registry.freeze_invoice(sym("admin"), id).unwrap();
    assert_eq!(registry.verify_invoice(sym("ver1"), id), Err(ContractError::InvoiceFrozen));
    assert_eq!(registry.get_invoice(id).unwrap().status, InvoiceStatus::Pending);
    registry.unfreeze_invoice(sym("admin"), id, sym("ok")).unwrap();
    assert_eq!(registry.verify_invoice(sym("ver1"), id), Ok(()));
    assert_eq!(registry.get_invoice(id).unwrap().status, InvoiceStatus::Approved);
}

#[test]
fn a_freeze_blocks_assignment_by_a_pool_manager() {
    let id = sym("INV1");
    let mut registry = registered("INV1", 1);
    let (address, auth) = pool_manager();
    registry.approve(sym("admin"), id).unwrap();
    registry.freeze_invoice(sym("admin"), id).unwrap();
    assert_eq!(
        registry.assign_invoice(&auth, address, id, sym("pool9")),
        Err(ContractError::InvoiceFrozen)
    );
    let invoice = registry.get_invoice(id).unwrap();
    assert_eq!((invoice.status, invoice.owner), (InvoiceStatus::Approved, sym("sme1")));
    registry.unfreeze_invoice(sym("admin"), id, sym("ok")).unwrap();
    assert_eq!(registry.assign_invoice(&auth, address, id, sym("pool9")), Ok(()));
}

#[test]
fn a_freeze_is_found_before_a_wrong_status() {
    let id = sym("INV1");
    let mut registry = registered("INV1", 1);
    let (address, auth) = pool_manager();
    registry.set_verifier(sym("admin"), sym("ver1"), true).unwrap();
    registry.freeze_invoice(sym("admin"), id).unwrap();
    assert_eq!(
        registry.assign_invoice(&auth, address, id, sym("pool9")),
        Err(ContractError::InvoiceFrozen)
    );
    assert_eq!(registry.verify_invoice(sym("rando"), id), Err(ContractError::NotVerifier));
}
