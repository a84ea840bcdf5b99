use invoicelift::ident::{Address, Authorization, Symbol};
use invoicelift::pool_manager::{
    ContractError, PoolEvent, PoolManager, PoolReport, Rebalance, NAV_SCALE,
};

fn sym(text: &str) -> Symbol {
    let mut bytes = [0u8; 32];
    bytes[..text.len()].copy_from_slice(text.as_bytes());
    Symbol {
        head: u128::from_be_bytes(bytes[..16].try_into().unwrap()),
        tail: u128::from_be_bytes(bytes[16..].try_into().unwrap()),
    }
}

fn addr(n: u128) -> Address {
    Address { is_contract: true, head: 0, tail: n }
}

fn signed(who: Address) -> Authorization {
    Authorization { granted: vec![who] }
}

fn deploy_pool(max_utilisation: i128) -> PoolManager {
    let mut pool = PoolManager::new();
    pool.initialize(sym("admin"), max_utilisation).unwrap();
    pool
}

fn setup() -> PoolManager {
    deploy_pool(8_000)
}

fn deposit(pool: &mut PoolManager, lender: &str, amount: i128) -> i128 {
    assert!(pool.deposit_fits(sym(lender), amount));
    pool.deposit(sym(lender), amount).unwrap()
}

fn finance(pool: &mut PoolManager, amount: i128) {
    assert!(pool.finance_fits(amount));
    pool.finance(amount).unwrap();
}

fn capital_is_worth_of_shares(pool: &PoolManager) -> bool {
    pool.total_shares() * pool.nav() / NAV_SCALE == pool.total_capital()
}

/// Runs a rebalance at `pools[at]` and carries out the other pools' sides.
fn rebalance(pools: &mut [(Address, PoolManager)], at: usize) -> Option<Rebalance> {
    let own = pools[at].0;
    let peers: Vec<PoolReport> = pools
        .iter()
        .enumerate()
        .filter(|(i, _)| *i != at)
        .map(|(_, (a, p))| p.pool_report(*a))
        .collect();
    assert!(pools[at].1.rebalance_fits(own, &peers));
    let moved = pools[at].1.rebalance_reserves(own, &peers).unwrap();
    if let Some(t) = moved {
        for (a, p) in pools.iter_mut() {
            let delta = t.side_of(*a);
            if *a != own && delta != 0 {
                p.apply_reserve_delta(delta).unwrap();
            }
        }
    }
    moved
}

#[test]
fn create_pool_stores_limits_and_config() {
    let mut pool = setup();
    pool.create_pool(2_000, 1_000, 100, 1_000_000, 500).unwrap();

    assert_eq!(pool.buyer_limit_bps(), 2_000);
    assert_eq!(pool.sme_limit_bps(), 1_000);
    assert_eq!(pool.min_deposit(), 100);
    assert_eq!(pool.max_deposit(), 1_000_000);
    assert_eq!(pool.reserve_ratio_bps(), 500);
}

#[test]
fn create_pool_rejects_duplicate_configuration() {
    let mut pool = setup();
    pool.create_pool(2_000, 1_000, 100, 1_000_000, 500).unwrap();
    let err = pool.create_pool(2_000, 1_000, 100, 1_000_000, 500);
    assert_eq!(err, Err(ContractError::PoolAlreadyCreated));
}

#[test]
fn create_pool_requires_prior_initialize() {
    let mut pool = PoolManager::new();
    let err = pool.create_pool(2_000, 1_000, 100, 1_000_000, 500);
    assert_eq!(err, Err(ContractError::PoolNotInitialized));
}

#[test]
fn create_pool_rejects_shares_and_ranges() {
    let mut pool = setup();
    assert_eq!(pool.create_pool(0, 1_000, 100, 1_000, 500), Err(ContractError::InvalidBps));
    assert_eq!(pool.create_pool(2_000, 10_001, 100, 1_000, 500), Err(ContractError::InvalidBps));
    assert_eq!(pool.create_pool(2_000, 1_000, 100, 1_000, 0), Err(ContractError::InvalidBps));
    assert_eq!(pool.create_pool(2_000, 1_000, 0, 1_000, 1), Err(ContractError::InvalidDepositRange));
    assert_eq!(pool.create_pool(2_000, 1_000, 9, 8, 1), Err(ContractError::InvalidDepositRange));
    assert_eq!(pool.min_deposit(), 0);
    assert_eq!(pool.create_pool(10_000, 1, 8, 8, 10_000), Ok(()));
    assert!(matches!(pool.take_events()[..], [PoolEvent::PoolCreated { .. }]));
    assert!(pool.take_events().is_empty());
}

#[test]
fn join_pool_first_deposit_prices_shares_one_to_one() {
    let mut pool = setup();
    let alice = addr(1);
    let shares = pool.join_pool(&signed(alice), alice, sym("alice"), 10_000).unwrap();
    assert_eq!(shares, 10_000);
}

#[test]
fn join_pool_subsequent_deposit_mints_at_current_nav() {
    let mut pool = setup();
    let alice = addr(1);
    let bob = addr(2);
    pool.join_pool(&signed(alice), alice, sym("alice"), 10_000).unwrap();
    pool.set_nav(2_000_000).unwrap();

    let bob_shares = pool.join_pool(&signed(bob), bob, sym("bob"), 10_000).unwrap();
    assert_eq!(bob_shares, 5_000);
}

#[test]
fn join_pool_announces_the_minted_shares() {
    let mut pool = setup();
    let alice = addr(1);
    pool.join_pool(&signed(alice), alice, sym("alice"), 10_000).unwrap();
    let refused = pool.join_pool(&signed(alice), alice, sym("alice"), 0);
    assert_eq!(refused, Err(ContractError::InvalidAmount));
    assert_eq!(
        pool.take_events(),
        vec![PoolEvent::SharesMinted { lender: alice, shares: 10_000 }]
    );
}

#[test]
fn invariant_shares_nav_equals_capital_after_deposits() {
    let mut pool = setup();
    deposit(&mut pool, "alice", 10_000);
    deposit(&mut pool, "bob", 5_000);

    let tot_sh = pool.total_shares();
    let nav = pool.nav();
    let tot_cap = pool.total_capital();
    assert_eq!(tot_sh * nav / NAV_SCALE, tot_cap);
}

#[test]
fn invariant_shares_nav_equals_capital_after_withdrawal() {
    let mut pool = setup();
    deposit(&mut pool, "alice", 20_000);

    let shares_to_withdraw = pool.lender_shares(sym("alice")) / 2;
    pool.withdraw(sym("alice"), shares_to_withdraw).unwrap();

    let tot_sh = pool.total_shares();
    let nav = pool.nav();
    let tot_cap = pool.total_capital();
    assert_eq!(tot_sh * nav / NAV_SCALE, tot_cap);
}

#[test]
fn invariant_shares_nav_equals_capital_after_nav_change() {
    let mut pool = setup();
    deposit(&mut pool, "alice", 10_000);
    pool.set_nav(1_200_000).unwrap();
    deposit(&mut pool, "bob", 5_000);

    let tot_sh = pool.total_shares();
    let nav = pool.nav();
    let tot_cap = pool.total_capital();
    assert_eq!(tot_sh * nav / NAV_SCALE, tot_cap);
}

#[test]
fn invariant_capital_matches_deposited_value() {
    let mut pool = setup();
    assert_eq!(deposit(&mut pool, "alice", 10_000), 10_000);
    assert_eq!(deposit(&mut pool, "bob", 5_000), 5_000);

    assert_eq!(pool.total_shares(), 15_000);
    assert_eq!(pool.total_capital(), 15_000);

    let withdrawn = pool.withdraw(sym("alice"), 10_000).unwrap();
    assert_eq!(withdrawn, 10_000);

    assert_eq!(pool.total_shares(), 5_000);
    assert_eq!(pool.total_capital(), 5_000);
}

#[test]
fn invariant_financed_within_utilisation_limit() {
    let mut pool = setup();
    deposit(&mut pool, "alice", 100_000);
    finance(&mut pool, 80_000);

    let fin = pool.financed_amount();
    let cap = pool.total_capital();
    let max = pool.max_utilisation();
    assert_eq!(fin, cap * max / 10_000);
}

#[test]
fn invariant_financed_stays_within_after_withdrawal() {
    let mut pool = setup();
    deposit(&mut pool, "alice", 50_000);
    deposit(&mut pool, "bob", 50_000);
    finance(&mut pool, 40_000);

    let sh = pool.lender_shares(sym("alice"));
    pool.withdraw(sym("alice"), sh * 3 / 5).unwrap();

    let fin = pool.financed_amount();
    let cap = pool.total_capital();
    let max = pool.max_utilisation();
    assert!(fin <= cap * max / 10_000);
}

#[test]
fn invariant_lender_share_never_exceeds_total() {
    let mut pool = setup();
    deposit(&mut pool, "alice", 30_000);
    deposit(&mut pool, "bob", 70_000);

    let alice_sh = pool.lender_shares(sym("alice"));
    let bob_sh = pool.lender_shares(sym("bob"));
    let tot = pool.total_shares();
    assert!(alice_sh <= tot);
    assert!(bob_sh <= tot);
    assert_eq!(alice_sh + bob_sh, tot);
}

#[test]
fn invariant_withdraw_cannot_exceed_lender_position() {
    let mut pool = setup();
    deposit(&mut pool, "alice", 10_000);

    let alice_shares = pool.lender_shares(sym("alice"));
    pool.withdraw(sym("alice"), alice_shares).unwrap();

    let sh = pool.lender_shares(sym("alice"));
    assert_eq!(sh, 0);
}

#[test]
fn fuzz_10000_operation_sequence() {
    let mut pool = setup();
    let lenders = [sym("l1"), sym("l2"), sym("l3"), sym("l4"), sym("l5")];

    let mut rng_state: u64 = 12345;

    for op in 0..10_000u64 {
        rng_state = rng_state.wrapping_mul(6364136223846793005).wrapping_add(1);
        let pick = rng_state as usize % 100;

        let lender_idx = (rng_state >> 8) as usize % lenders.len();
        let lender = lenders[lender_idx];

        if pick < 60 {
            let amount = ((rng_state >> 16) % 50_000 + 100) as i128;
            assert!(pool.deposit_fits(lender, amount));
            pool.deposit(lender, amount).unwrap();
        } else if pick < 85 {
            let sh = pool.lender_shares(lender);
            if sh > 0 {
                let withdraw_sh = ((rng_state >> 16) % (sh as u64 + 1)) as i128;
                if withdraw_sh > 0 {
                    assert!(pool.withdraw_fits(lender, withdraw_sh));
                    pool.withdraw(lender, withdraw_sh).unwrap();
                }
            }
        } else if pick < 95 {
            let amount = ((rng_state >> 16) % 10_000 + 100) as i128;
            let fin = pool.financed_amount();
            let cap = pool.total_capital();
            let max = pool.max_utilisation();
            if fin + amount <= cap * max / 10_000 {
                pool.finance(amount).unwrap();
            }
        } else {
            let new_nav = ((rng_state >> 16) % 2_000_000 + 500_000) as i128;
            assert!(pool.set_nav_fits(new_nav));
            pool.set_nav(new_nav).unwrap();
        }

        if op % 100 == 0 {
            let tot_sh = pool.total_shares();
            let nav = pool.nav();
            let tot_cap = pool.total_capital();
            assert_eq!(
                tot_sh * nav / NAV_SCALE, tot_cap,
                "INVARIANT 1 violated at op {op}: tot_sh={tot_sh} nav={nav} tot_cap={tot_cap}"
            );

            let fin = pool.financed_amount();
            let cap = pool.total_capital();
            let max = pool.max_utilisation();
            assert!(
                fin <= cap * max / 10_000,
                "INVARIANT 2 violated at op {op}: fin={fin} cap={cap} max={max}"
            );

            for l in lenders.iter() {
                let lsh = pool.lender_shares(*l);
                assert!(
                    lsh <= tot_sh,
                    "INVARIANT 3 violated at op {op}: lender shares {lsh} > total {tot_sh}"
                );
            }
        }
    }

    let tot_sh = pool.total_shares();
    let nav = pool.nav();
    let tot_cap = pool.total_capital();
    assert_eq!(tot_sh * nav / NAV_SCALE, tot_cap);

    let fin = pool.financed_amount();
    let cap = pool.total_capital();
    let max = pool.max_utilisation();
    assert!(fin <= cap * max / 10_000);

    for l in lenders.iter() {
        let lsh = pool.lender_shares(*l);
        assert!(lsh <= tot_sh);
    }
}

#[test]
fn reserve_reflects_idle_capital() {
    let mut pool = setup();
    deposit(&mut pool, "alice", 10_000);
    finance(&mut pool, 4_000);
    assert_eq!(pool.reserve(), 6_000);
}

#[test]
fn rebalance_moves_capital_from_richest_to_neediest_pool() {
    let mut donor = deploy_pool(8_000);
    deposit(&mut donor, "alice", 100_000);
    let mut needy = deploy_pool(10_000);
    deposit(&mut needy, "bob", 100_000);
    finance(&mut needy, 98_000);

    let mut pools = [(addr(1), donor), (addr(2), needy)];
    let moved = rebalance(&mut pools, 0);
    assert!(moved.is_some());

    assert_eq!(pools[1].1.total_capital(), 103_000);
    assert_eq!(pools[1].1.reserve(), 5_000);
    assert_eq!(pools[0].1.total_capital(), 97_000);
}

#[test]
fn rebalance_is_noop_when_all_pools_healthy() {
    let mut a = deploy_pool(8_000);
    deposit(&mut a, "alice", 100_000);
    let mut b = deploy_pool(8_000);
    deposit(&mut b, "bob", 100_000);

    let mut pools = [(addr(1), a), (addr(2), b)];
    let moved = rebalance(&mut pools, 0);
    assert!(!moved.is_some());
    assert!(pools[0].1.take_events().is_empty());
}

#[test]
fn rebalance_skips_donor_blocked_by_governance() {
    let mut rich = deploy_pool(8_000);
    deposit(&mut rich, "alice", 200_000);
    rich.set_donor_blocked(true);
    let mut modest = deploy_pool(8_000);
    deposit(&mut modest, "carol", 50_000);
    let mut needy = deploy_pool(10_000);
    deposit(&mut needy, "bob", 100_000);
    finance(&mut needy, 98_000);

    let mut pools = [(addr(1), rich), (addr(2), modest), (addr(3), needy)];
    let moved = rebalance(&mut pools, 2);
    assert!(moved.is_some());

    assert_eq!(pools[0].1.total_capital(), 200_000);
    assert_eq!(pools[1].1.total_capital(), 47_000);
}

#[test]
fn rebalance_transfer_capped_at_half_donor_excess() {
    let mut donor = deploy_pool(8_000);
    deposit(&mut donor, "alice", 1_000);
    let mut needy = deploy_pool(10_000);
    deposit(&mut needy, "bob", 100_000);
    finance(&mut needy, 99_000);

    let mut pools = [(addr(1), donor), (addr(2), needy)];
    let moved = rebalance(&mut pools, 0);
    assert!(moved.is_some());

    assert_eq!(pools[0].1.total_capital(), 525);
    assert_eq!(pools[1].1.total_capital(), 100_475);
    assert_eq!(pools[1].1.reserve(), 1_475);
}

#[test]
fn rebalance_between_peers_leaves_the_starting_pool_alone() {
    let mut start = deploy_pool(8_000);
    deposit(&mut start, "alice", 10_000);
    let mut donor = deploy_pool(8_000);
    deposit(&mut donor, "carol", 100_000);
    let mut needy = deploy_pool(10_000);
    deposit(&mut needy, "bob", 100_000);
    finance(&mut needy, 98_000);

    let mut pools = [(addr(1), start), (addr(2), donor), (addr(3), needy)];
    let moved = rebalance(&mut pools, 0);
    let transfer = Rebalance { donor: addr(2), needy: addr(3), amount: 3_000 };
    assert_eq!(moved, Some(transfer));
    assert_eq!(pools[0].1.total_capital(), 10_000);
    assert_eq!(pools[1].1.total_capital() + pools[2].1.total_capital(), 200_000);
    assert_eq!(
        pools[0].1.take_events(),
        vec![PoolEvent::ReserveRebalanced { transfer }]
    );
}

#[test]
fn rebalance_takes_the_first_of_equal_pools() {
    let mut donor = deploy_pool(8_000);
    deposit(&mut donor, "alice", 100_000);
    let mut first = deploy_pool(10_000);
    deposit(&mut first, "bob", 100_000);
    finance(&mut first, 98_000);
    let mut second = deploy_pool(10_000);
    deposit(&mut second, "carol", 100_000);
    finance(&mut second, 98_000);

    let mut pools = [(addr(1), donor), (addr(2), first), (addr(3), second)];
    assert_eq!(
        rebalance(&mut pools, 0),
        Some(Rebalance { donor: addr(1), needy: addr(2), amount: 3_000 })
    );
}

#[test]
fn rebalance_with_every_donor_blocked_moves_nothing() {
    let mut donor = deploy_pool(8_000);
    deposit(&mut donor, "alice", 100_000);
    donor.set_donor_blocked(true);
    assert!(donor.is_donor_blocked());
    let mut needy = deploy_pool(10_000);
    deposit(&mut needy, "bob", 100_000);
    finance(&mut needy, 98_000);
    needy.set_donor_blocked(true);
    let mut pools = [(addr(1), donor), (addr(2), needy)];
    assert_eq!(rebalance(&mut pools, 0), None);
}

const HOUR: u64 = 60 * 60;

fn queue_max_util(pool: &mut PoolManager, now: u64, value: i128) -> u32 {
    let admin = addr(9);
    pool.set_timelock_admin(admin).unwrap();
    assert!(pool.queue_fits(now));
    pool.queue_parameter_change(&signed(admin), now, PoolManager::max_util_param(), value).unwrap()
}

#[test]
fn queue_execute_and_read_a_parameter_change() {
    let mut pool = setup();
    let id = queue_max_util(&mut pool, 0, 9_000);

    let action = pool.get_queued_action(id).unwrap();
    assert_eq!(action.new_value, 9_000);
    assert!(!action.executed);
    assert!(!action.cancelled);
    assert_eq!(action.execute_after - action.queued_at, 48 * 60 * 60);

    let now = 48 * HOUR;
    assert!(pool.execute_fits(now, id));
    pool.execute_parameter_change(now, id).unwrap();
    assert_eq!(pool.max_utilisation(), 9_000);
    let action = pool.get_queued_action(id).unwrap();
    assert!(action.executed);
}

#[test]
fn execute_before_timelock_elapses_errors() {
    let mut pool = setup();
    let id = queue_max_util(&mut pool, 0, 9_000);
    let err = pool.execute_parameter_change(47 * HOUR, id);
    assert_eq!(err, Err(ContractError::TimelockNotElapsed));
}

#[test]
fn cancel_marks_the_action_cancelled() {
    let mut pool = setup();
    let id = queue_max_util(&mut pool, 0, 9_000);
    pool.cancel_parameter_change(&signed(addr(9)), id).unwrap();
    let action = pool.get_queued_action(id).unwrap();
    assert!(action.cancelled);
}

#[test]
fn execute_after_cancel_errors() {
    let mut pool = setup();
    let id = queue_max_util(&mut pool, 0, 9_000);
    pool.cancel_parameter_change(&signed(addr(9)), id).unwrap();
    let err = pool.execute_parameter_change(48 * HOUR, id);
    assert_eq!(err, Err(ContractError::ActionCancelled));
}

#[test]
fn execute_reclamps_financed_amount_when_ceiling_drops() {
    let mut pool = setup();
    deposit(&mut pool, "alice", 100_000);
    finance(&mut pool, 75_000);
    let id = queue_max_util(&mut pool, 0, 5_000);
    pool.execute_parameter_change(48 * HOUR, id).unwrap();
    assert_eq!(pool.max_utilisation(), 5_000);
    assert_eq!(pool.financed_amount(), 50_000);
}

#[test]
fn queue_without_timelock_admin_set_errors() {
    let mut pool = setup();
    let nobody = Authorization { granted: vec![] };
    let err = pool.queue_parameter_change(&nobody, 0, PoolManager::max_util_param(), 9_000);
    assert_eq!(err, Err(ContractError::TimelockAdminNotSet));
}

#[test]
fn set_timelock_admin_is_one_time() {
    let mut pool = setup();
    pool.set_timelock_admin(addr(1)).unwrap();
    let err = pool.set_timelock_admin(addr(2));
    assert_eq!(err, Err(ContractError::TimelockAdminAlreadySet));
    assert_eq!(pool.timelock_admin(), Some(addr(1)));
}

#[test]
fn timelocked_actions_refuse_what_is_over() {
    let mut pool = setup();
    let nobody = Authorization { granted: vec![] };
    assert_eq!(
        pool.cancel_parameter_change(&nobody, 0),
        Err(ContractError::TimelockAdminNotSet)
    );
    let first = queue_max_util(&mut pool, 10, 9_000);
    let admin = signed(addr(9));
    let second = pool.queue_parameter_change(&admin, 11, sym("other"), 1).unwrap();
    assert_eq!((first, second), (0, 1));
    assert_eq!(pool.execute_parameter_change(0, 7), Err(ContractError::ActionNotFound));
    assert_eq!(pool.cancel_parameter_change(&admin, 7), Err(ContractError::ActionNotFound));
    assert_eq!(
        pool.execute_parameter_change(11 + 48 * HOUR, second),
        Err(ContractError::UnknownParameter)
    );
    assert!(!pool.get_queued_action(second).unwrap().executed);
    assert_eq!(
        pool.execute_parameter_change(9 + 48 * HOUR, first),
        Err(ContractError::TimelockNotElapsed)
    );
    pool.execute_parameter_change(10 + 48 * HOUR, first).unwrap();
    assert_eq!(
        pool.execute_parameter_change(10 + 49 * HOUR, first),
        Err(ContractError::ActionAlreadyExecuted)
    );
    assert_eq!(
        pool.cancel_parameter_change(&admin, first),
        Err(ContractError::ActionAlreadyExecuted)
    );
    pool.cancel_parameter_change(&admin, second).unwrap();
    assert_eq!(
        pool.cancel_parameter_change(&admin, second),
        Err(ContractError::ActionAlreadyCancelled)
    );
    let param = PoolManager::max_util_param();
    assert_eq!(param, sym("max_ut"));
    assert_eq!(
        pool.take_events(),
        vec![
            PoolEvent::ActionQueued {
                id: 0,
                param,
                new_value: 9_000,
                execute_after: 10 + 48 * HOUR
            },
            PoolEvent::ActionQueued {
                id: 1,
                param: sym("other"),
                new_value: 1,
                execute_after: 11 + 48 * HOUR
            },
            PoolEvent::ActionExecuted { id: 0, param, new_value: 9_000 },
            PoolEvent::ActionCancelled { id: 1, param: sym("other") },
        ]
    );
}

#[test]
fn a_pool_is_initialized_once() {
    let mut pool = setup();
    assert_eq!(pool.initialize(sym("other"), 1), Err(ContractError::AlreadyInitialized));
    assert_eq!(pool.max_utilisation(), 8_000);
}

#[test]
fn an_uninitialized_pool_refuses_and_reads_zero() {
    let mut pool = PoolManager::new();
    assert_eq!(pool.deposit(sym("alice"), 1), Err(ContractError::NotInitialized));
    assert_eq!(pool.finance(1), Err(ContractError::NotInitialized));
    assert_eq!(pool.set_nav(1), Err(ContractError::NotInitialized));
    assert_eq!(pool.withdraw(sym("alice"), 1), Err(ContractError::InsufficientShares));
    assert_eq!(pool.total_capital(), 0);
    assert_eq!(pool.nav(), NAV_SCALE);
    assert_eq!(pool.reserve(), 0);
    assert_eq!(pool.timelock_admin(), None);
    assert_eq!(PoolManager::version(), 1);
}

#[test]
fn amounts_out_of_bounds_are_refused() {
    let mut pool = setup();
    assert_eq!(pool.deposit(sym("alice"), 0), Err(ContractError::InvalidAmount));
    assert_eq!(pool.finance(-1), Err(ContractError::InvalidAmount));
    assert_eq!(pool.withdraw(sym("alice"), 0), Err(ContractError::InvalidShares));
    assert_eq!(pool.set_nav(0), Err(ContractError::InvalidNav));
    deposit(&mut pool, "alice", 10_000);
    assert_eq!(pool.finance(8_001), Err(ContractError::MaxUtilisationExceeded));
    assert_eq!(pool.withdraw(sym("alice"), 10_001), Err(ContractError::InsufficientShares));
    assert_eq!(pool.withdraw(sym("bob"), 1), Err(ContractError::InsufficientShares));
    assert_eq!(pool.financed_amount(), 0);
}

#[test]
fn a_deposit_buys_whole_shares_rounded_down() {
    let mut pool = setup();
    pool.set_nav(1_500_000).unwrap();
    assert_eq!(deposit(&mut pool, "alice", 1_000), 666);
    assert_eq!(pool.total_capital(), 999);
    let paid = pool.withdraw(sym("alice"), 666).unwrap();
    assert_eq!(paid, 999);
    assert_eq!(pool.total_shares(), 0);
}

#[test]
fn a_lower_nav_clamps_the_financed_amount() {
    let mut pool = setup();
    deposit(&mut pool, "alice", 100_000);
    finance(&mut pool, 80_000);
    pool.set_nav(500_000).unwrap();
    assert_eq!(pool.total_capital(), 50_000);
    assert_eq!(pool.financed_amount(), 40_000);
}

#[test]
fn a_reserve_delta_derives_the_nav() {
    let mut pool = setup();
    deposit(&mut pool, "alice", 3);
    pool.apply_reserve_delta(1).unwrap();
    assert_eq!(pool.total_capital(), 4);
    assert_eq!(pool.nav(), 1_333_333);
    assert!(!capital_is_worth_of_shares(&pool));
    pool.apply_reserve_delta(2).unwrap();
    assert_eq!(pool.nav(), 2_000_000);
    assert!(capital_is_worth_of_shares(&pool));
}

#[test]
fn a_reserve_delta_never_empties_a_pool_below_zero() {
    let mut pool = setup();
    deposit(&mut pool, "alice", 100);
    assert_eq!(pool.apply_reserve_delta(-101), Err(ContractError::NegativeCapital));
    assert_eq!(pool.apply_reserve_delta(-100), Err(ContractError::ZeroNav));
    assert_eq!(pool.total_capital(), 100);
}

#[test]
fn calls_that_would_leave_the_range_are_known_before() {
    let mut pool = setup();
    assert!(!pool.deposit_fits(sym("alice"), i128::MAX));
    assert!(pool.deposit_fits(sym("alice"), -1));
    deposit(&mut pool, "alice", 1_000_000_000_000_000);
    assert!(!pool.set_nav_fits(i128::MAX));
    assert!(!pool.reserve_delta_fits(i128::MAX));
    assert!(pool.reserve_delta_fits(-1));
    assert!(!pool.finance_fits(i128::MAX) || pool.financed_amount() == 0);
    assert!(pool.withdraw_fits(sym("alice"), 1));
    pool.set_timelock_admin(addr(1)).unwrap();
    assert!(!pool.queue_fits(u64::MAX));
    assert!(pool.queue_fits(u64::MAX - 48 * HOUR));
    let peers = vec![PoolReport {
        address: addr(5),
        capital: i128::MAX,
        financed: -1,
        donor_blocked: false,
    }];
    assert!(!pool.rebalance_fits(addr(1), &peers));
}

#[test]
fn a_donor_stays_within_its_ceiling() {
    let mut donor = deploy_pool(8_000);
    deposit(&mut donor, "alice", 100_000);
    finance(&mut donor, 80_000);
    let mut needy = deploy_pool(10_000);
    deposit(&mut needy, "bob", 100_000);
    finance(&mut needy, 98_000);
    let mut pools = [(addr(1), donor), (addr(2), needy)];
    assert_eq!(
        rebalance(&mut pools, 1),
        Some(Rebalance { donor: addr(1), needy: addr(2), amount: 3_000 })
    );
    assert_eq!(pools[0].1.total_capital(), 97_000);
    assert_eq!(pools[0].1.financed_amount(), 77_600);
}

#[test]
fn lenders_do_not_touch_each_others_shares() {
    let mut pool = setup();
    deposit(&mut pool, "alice", 10_000);
    deposit(&mut pool, "bob", 5_000);
    pool.set_nav(1_250_000).unwrap();
    pool.withdraw(sym("bob"), 5_000).unwrap();
    pool.apply_reserve_delta(100).unwrap();
    assert_eq!(pool.lender_shares(sym("alice")), 10_000);
    assert_eq!(pool.lender_shares(sym("bob")), 0);
    assert_eq!(pool.total_shares(), 10_000);
}

#[test]
fn joining_and_depositing_keep_the_same_accounts() {
    let mut joined = setup();
    let mut deposited = setup();
    joined.set_nav(1_300_000).unwrap();
    deposited.set_nav(1_300_000).unwrap();
    let alice = addr(1);
    let by_join = joined.join_pool(&signed(alice), alice, sym("alice"), 777).unwrap();
    let by_deposit = deposit(&mut deposited, "alice", 777);
    assert_eq!(by_join, by_deposit);
    assert_eq!(joined.total_capital(), deposited.total_capital());
    assert_eq!(joined.lender_shares(sym("alice")), deposited.lender_shares(sym("alice")));
}

#[test]
fn each_side_of_a_transfer_has_its_delta() {
    let t = Rebalance { donor: addr(1), needy: addr(2), amount: 30 };
    assert_eq!(t.side_of(addr(1)), -30);
    assert_eq!(t.side_of(addr(2)), 30);
    assert_eq!(t.side_of(addr(3)), 0);
}

#[test]
fn a_rebalance_touches_two_pools_and_no_shares() {
    let mut idle = deploy_pool(8_000);
    deposit(&mut idle, "dave", 20_000);
    let mut donor = deploy_pool(8_000);
    deposit(&mut donor, "alice", 100_000);
    let mut needy = deploy_pool(10_000);
    deposit(&mut needy, "bob", 100_000);
    finance(&mut needy, 98_000);
    let mut pools = [(addr(1), donor), (addr(2), idle), (addr(3), needy)];
    assert!(rebalance(&mut pools, 0).is_some());
    let capitals: Vec<i128> = pools.iter().map(|(_, p)| p.total_capital()).collect();
    assert_eq!(capitals, vec![97_000, 20_000, 103_000]);
    let shares: Vec<i128> = pools.iter().map(|(_, p)| p.total_shares()).collect();
    assert_eq!(shares, vec![100_000, 20_000, 100_000]);
    assert_eq!(pools[0].1.lender_shares(sym("alice")), 100_000);
    assert_eq!(pools[2].1.lender_shares(sym("bob")), 100_000);
    assert!(pools[1].1.take_events().is_empty());
    assert!(pools[2].1.take_events().is_empty());
}

#[test]
fn an_emptied_pool_has_nothing_financed() {
    let mut pool = setup();
    deposit(&mut pool, "alice", 1_000);
    finance(&mut pool, 800);
    pool.withdraw(sym("alice"), 1_000).unwrap();
    assert_eq!(pool.financed_amount(), 0);
    assert_eq!(pool.total_capital(), 0);
}

#[test]
fn the_accounts_balance_under_a_negative_ceiling() {
    let mut pool = deploy_pool(-1);
    deposit(&mut pool, "alice", 10_000);
    assert!(capital_is_worth_of_shares(&pool));
    assert_eq!(pool.finance(1), Err(ContractError::MaxUtilisationExceeded));
    pool.set_nav(1_234_567).unwrap();
    assert!(capital_is_worth_of_shares(&pool));
    assert_eq!(pool.total_capital(), 12_345);
    assert_eq!(pool.financed_amount(), -1);
    pool.withdraw(sym("alice"), 3_333).unwrap();
    assert!(capital_is_worth_of_shares(&pool));
}

#[test]
fn moved_reserve_leaves_the_shares_covered() {
    let mut pool = setup();
    deposit(&mut pool, "alice", 7);
    for delta in [1, 2, -3, 5, 1] {
        pool.apply_reserve_delta(delta).unwrap();
        assert!(pool.total_shares() * pool.nav() / NAV_SCALE <= pool.total_capital());
    }
    deposit(&mut pool, "bob", 9);
    assert!(capital_is_worth_of_shares(&pool));
}
