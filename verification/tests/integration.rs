use invoicelift::ident::{Address, Symbol};
use invoicelift::invoice_registry::InvoiceRegistry;
use invoicelift::pool_manager::PoolManager;
use invoicelift::repayment_waterfall::RepaymentWaterfall;

fn sym(text: &str) -> Symbol {
    let mut bytes = [0u8; 32];
    bytes[..text.len()].copy_from_slice(text.as_bytes());
    Symbol {
        head: u128::from_be_bytes(bytes[..16].try_into().unwrap()),
        tail: u128::from_be_bytes(bytes[16..].try_into().unwrap()),
    }
}

#[test]
fn happy_path_invoice_financed_and_repaid_through_waterfall() {
    let pool_id = Address { is_contract: true, head: 0, tail: 2 };
    let mut registry = InvoiceRegistry::new();
    let mut pool = PoolManager::new();
    let mut waterfall = RepaymentWaterfall::new();
    registry.initialize(sym("admin")).unwrap();
    pool.initialize(sym("admin"), 8_000).unwrap();
    waterfall.initialize(sym("admin"), pool_id).unwrap();

    let invoice_ref = sym("inv001");
    assert_eq!(InvoiceRegistry::ping(invoice_ref), invoice_ref);

    pool.deposit(sym("lender1"), 100_000).unwrap();
    pool.finance(40_000).unwrap();
    assert_eq!(pool.total_capital(), 100_000);
    assert_eq!(pool.financed_amount(), 40_000);
    assert_eq!(pool.reserve(), 60_000);

    let credit = waterfall.process_repayment(40_000).unwrap();
    assert_eq!(credit.pool_manager, pool_id);
    pool.apply_reserve_delta(credit.delta).unwrap();
    assert_eq!(pool.total_capital(), 140_000);
    assert_eq!(pool.reserve(), 100_000);
}

#[test]
fn deploys_all_three_contracts_in_the_same_env() {
    let pool_id = Address { is_contract: true, head: 0, tail: 2 };
    let mut registry = InvoiceRegistry::new();
    let mut pool = PoolManager::new();
    let mut waterfall = RepaymentWaterfall::new();
    registry.initialize(sym("admin")).unwrap();
    pool.initialize(sym("admin"), 8_000).unwrap();
    waterfall.initialize(sym("admin"), pool_id).unwrap();

    assert_eq!(PoolManager::version(), 1);
    assert_eq!(RepaymentWaterfall::version(), 1);
}
