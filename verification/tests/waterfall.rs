use invoicelift::ident::{Address, Symbol};
use invoicelift::pedersen::{mod_mul, reduce_u128, G, H, P};
use invoicelift::pool_manager::PoolManager;
use invoicelift::repayment_waterfall::{
    mod_inverse, scale_commitment, ContractError, RepaymentWaterfall, WaterfallEvent,
    WaterfallTier,
};

fn sym(text: &str) -> Symbol {
    let mut bytes = [0u8; 32];
    bytes[..text.len()].copy_from_slice(text.as_bytes());
    Symbol {
        head: u128::from_be_bytes(bytes[..16].try_into().unwrap()),
        tail: u128::from_be_bytes(bytes[16..].try_into().unwrap()),
    }
}

fn pool_addr() -> Address {
    Address { is_contract: true, head: 0, tail: 77 }
}

fn setup() -> (RepaymentWaterfall, PoolManager) {
    let mut pool = PoolManager::new();
    pool.initialize(sym("admin"), 8_000).unwrap();
    pool.deposit(sym("alice"), 100_000).unwrap();
    let mut waterfall = RepaymentWaterfall::new();
    waterfall.initialize(sym("admin"), pool_addr()).unwrap();
    (waterfall, pool)
}

/// Processes a repayment and credits the pool with it.
fn repay(waterfall: &RepaymentWaterfall, pool: &mut PoolManager, amount: i128) {
    let credit = waterfall.process_repayment(amount).unwrap();
    assert_eq!(credit.pool_manager, pool_addr());
    assert!(pool.reserve_delta_fits(credit.delta));
    pool.apply_reserve_delta(credit.delta).unwrap();
}

#[test]
fn process_repayment_credits_pool_manager_capital() {
    let (waterfall, mut pool) = setup();
    repay(&waterfall, &mut pool, 5_000);
    assert_eq!(pool.total_capital(), 105_000);
    assert_eq!(pool.nav(), 1_050_000);
}

#[test]
fn process_repayment_rejects_non_positive_amount() {
    let (waterfall, _pool) = setup();
    let err = waterfall.process_repayment(0);
    assert_eq!(err, Err(ContractError::InvalidAmount));
}

#[test]
fn process_repayment_needs_a_pool_manager() {
    let waterfall = RepaymentWaterfall::new();
    assert_eq!(
        waterfall.process_repayment(1),
        Err(ContractError::PoolManagerNotConfigured)
    );
    assert_eq!(waterfall.process_repayment(-1), Err(ContractError::InvalidAmount));
}

#[test]
fn a_waterfall_is_initialized_once() {
    let (mut waterfall, _pool) = setup();
    let other = Address { is_contract: true, head: 0, tail: 1 };
    assert_eq!(
        waterfall.initialize(sym("other"), other),
        Err(ContractError::AlreadyInitialized)
    );
    assert_eq!(waterfall.process_repayment(1).unwrap().pool_manager, pool_addr());
}

#[test]
fn record_default_accumulates_within_window() {
    let (mut waterfall, _pool) = setup();
    waterfall.record_default(0, 1_000);
    waterfall.record_default(0, 2_000);
    assert_eq!(waterfall.current_default_volume(), 3_000);
    assert!(!waterfall.circuit_breaker_active());
}

#[test]
fn record_default_resets_after_24h() {
    let (mut waterfall, _pool) = setup();
    waterfall.record_default(0, 1_000);
    waterfall.record_default(86_400, 500);
    assert_eq!(waterfall.current_default_volume(), 500);
}

#[test]
fn a_window_is_full_one_second_short_of_a_day() {
    let (mut waterfall, _pool) = setup();
    waterfall.record_default(100, 1_000);
    waterfall.record_default(100 + 86_399, 500);
    assert_eq!(waterfall.current_default_volume(), 1_500);
    waterfall.record_default(100 + 86_400, 7);
    assert_eq!(waterfall.current_default_volume(), 7);
    waterfall.record_default(3, 7);
    assert_eq!(waterfall.current_default_volume(), 14);
}

#[test]
fn circuit_breaker_trips_at_threshold() {
    let (mut waterfall, _pool) = setup();
    waterfall.set_circuit_breaker_threshold(sym("admin"), 5_000);
    assert!(!waterfall.circuit_breaker_active());

    waterfall.record_default(0, 5_000);
    assert!(waterfall.circuit_breaker_active());
}

#[test]
fn a_trip_is_announced_with_volume_and_threshold() {
    let (mut waterfall, _pool) = setup();
    waterfall.set_circuit_breaker_threshold(sym("admin"), 5_000);
    waterfall.record_default(0, 4_999);
    assert!(!waterfall.circuit_breaker_active());
    assert!(waterfall.take_events().is_empty());
    waterfall.record_default(1, 2);
    assert_eq!(
        waterfall.take_events(),
        vec![WaterfallEvent::CircuitBreakerTripped { volume: 5_001, threshold: 5_000 }]
    );
    waterfall.record_default(90_000, 1);
    assert!(waterfall.circuit_breaker_active());
}

#[test]
fn admin_can_resume_processing_after_trip() {
    let (mut waterfall, mut pool) = setup();
    waterfall.set_circuit_breaker_threshold(sym("admin"), 1_000);
    waterfall.record_default(0, 1_000);
    assert!(waterfall.circuit_breaker_active());

    waterfall.resume_processing(0, sym("admin"));
    assert!(!waterfall.circuit_breaker_active());
    assert_eq!(waterfall.current_default_volume(), 0);

    repay(&waterfall, &mut pool, 100);
    assert_eq!(pool.total_capital(), 100_100);
}

#[test]
fn a_default_beyond_the_range_is_known_before() {
    let (mut waterfall, _pool) = setup();
    assert!(waterfall.default_fits(0, i128::MAX));
    waterfall.record_default(0, i128::MAX);
    assert!(!waterfall.default_fits(1, 1));
    assert!(waterfall.default_fits(86_400, 1));
}

fn test_commitment(value: i128, blinding: i128) -> i128 {
    let vg = mod_mul(value, G, P);
    let rh = mod_mul(blinding, H, P);
    let sum = (vg as u128) + (rh as u128);
    reduce_u128(sum) as i128
}

fn tier(recipient: &str, share_bps: i128) -> WaterfallTier {
    WaterfallTier { recipient: sym(recipient), share_bps }
}

#[test]
fn test_split_commitment_two_tiers_sums_correctly() {
    let waterfall = RepaymentWaterfall::new();
    let total_c = test_commitment(100_000, 1234);
    let tiers = vec![tier("lender", 8_000), tier("fee", 2_000)];
    assert!(RepaymentWaterfall::shares_in_range(&tiers));

    let results = waterfall.split_commitment(total_c, &tiers).unwrap();
    assert_eq!(results.len(), 2);

    let parts: Vec<i128> = results.iter().map(|r| r.commitment).collect();
    assert!(RepaymentWaterfall::parts_in_range(&parts));
    assert!(RepaymentWaterfall::verify_split(&parts, total_c));
}

#[test]
fn test_split_commitment_three_tiers_sums_correctly() {
    let waterfall = RepaymentWaterfall::new();
    let total_c = test_commitment(250_000, 9999);
    let tiers = vec![tier("lender1", 5_000), tier("lender2", 4_500), tier("fee", 500)];

    let results = waterfall.split_commitment(total_c, &tiers).unwrap();
    assert_eq!(results.len(), 3);

    let parts: Vec<i128> = results.iter().map(|r| r.commitment).collect();
    assert!(RepaymentWaterfall::verify_split(&parts, total_c));
}

#[test]
fn test_split_invalid_bps_sum_errors() {
    let waterfall = RepaymentWaterfall::new();
    let total_c = test_commitment(100_000, 1234);
    let tiers = vec![tier("lender", 8_000), tier("fee", 1_999)];
    let result = waterfall.split_commitment(total_c, &tiers);
    assert_eq!(result, Err(ContractError::InvalidBpsSum));
}

#[test]
fn test_split_zero_bps_errors() {
    let waterfall = RepaymentWaterfall::new();
    let total_c = test_commitment(100_000, 1234);
    let tiers = vec![tier("lender", 10_000), tier("fee", 0)];
    let result = waterfall.split_commitment(total_c, &tiers);
    assert_eq!(result, Err(ContractError::InvalidTierShare));
}

#[test]
fn test_verify_split_tampered_fails() {
    let total_c = test_commitment(100_000, 1234);
    let parts = vec![test_commitment(50_000, 1234), test_commitment(49_000, 1234)];
    assert!(!RepaymentWaterfall::verify_split(&parts, total_c));
}

#[test]
fn parts_go_to_their_recipients_in_order() {
    let waterfall = RepaymentWaterfall::new();
    let total_c = test_commitment(100_000, 20_000);
    let tiers = vec![tier("lender", 7_500), tier("fee", 2_500)];
    let results = waterfall.split_commitment(total_c, &tiers).unwrap();
    assert_eq!(results[0].recipient, sym("lender"));
    assert_eq!(results[0].commitment, test_commitment(75_000, 15_000));
    assert_eq!(results[1].recipient, sym("fee"));
    assert_eq!(results[1].commitment, test_commitment(25_000, 5_000));
}

#[test]
fn negative_and_unreduced_totals_split_as_well() {
    let waterfall = RepaymentWaterfall::new();
    let tiers = vec![tier("a", 3_333), tier("b", 3_333), tier("c", 3_334)];
    for total in [-1, i128::MIN, i128::MAX, 0, P - 1] {
        let results = waterfall.split_commitment(total, &tiers).unwrap();
        let parts: Vec<i128> = results.iter().map(|r| r.commitment).collect();
        assert!(RepaymentWaterfall::verify_split(&parts, total));
    }
    assert_eq!(waterfall.split_commitment(5, &vec![]), Err(ContractError::InvalidBpsSum));
}

#[test]
fn sums_beyond_the_range_are_known_before() {
    assert!(!RepaymentWaterfall::shares_in_range(&vec![tier("a", i128::MAX), tier("b", 1)]));
    assert!(RepaymentWaterfall::shares_in_range(&vec![
        tier("a", -1),
        tier("b", i128::MAX),
        tier("c", 1)
    ]));
    assert!(!RepaymentWaterfall::parts_in_range(&vec![1, -1]));
    assert!(RepaymentWaterfall::parts_in_range(&vec![-1, 1]));
    assert!(RepaymentWaterfall::verify_split(&vec![-1, 1], 2));
}

#[test]
fn a_scale_without_inverse_is_refused() {
    assert_eq!(scale_commitment(5, 1, 0), Err(ContractError::ScaleNotInvertible));
    assert_eq!(mod_inverse(6, 9), Err(ContractError::ScaleNotInvertible));
    assert_eq!(mod_inverse(3, 7), Ok(5));
    assert_eq!(scale_commitment(12, 1, 4), Ok(3));
}

#[test]
fn the_waterfall_answers_pings_with_its_version() {
    assert_eq!(RepaymentWaterfall::ping(sym("hello")), sym("hello"));
    assert_eq!(RepaymentWaterfall::version(), 1);
}
