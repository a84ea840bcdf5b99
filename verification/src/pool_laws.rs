//! What holds of a pool over any run of calls: its accounts, its utilisation
//! ceiling, its timelock, and the reserve that moves between pools.

use vstd::prelude::*;

use crate::arith::{fits, lemma_quotient_monotone};
use crate::ident::{Address, Symbol};
use crate::pool_manager::{
    donation_cap, excess, financing_limit, is_max_util, lemma_file, minted, neediest, no_debts,
    plan_fits, planned, richest, shares_in, worth, ActionKey, ContractError, LenderKey,
    LenderPosition, PoolConfig, PoolReport, PoolState, QueuedAction, Rebalance, BPS_SCALE,
    NAV_SCALE, RESERVE_FLOOR_BPS, TIMELOCK_SECS,
};
use crate::table::{lemma_sum_insert, sum_of};

verus! {

/// A call that changes a pool.
pub ghost enum PoolCall {
    Initialize { admin: Symbol, max_utilisation: i128 },
    CreatePool { config: PoolConfig },
    Deposit { lender: Symbol, amount: i128 },
    JoinPool { account: Address, lender: Symbol, amount: i128 },
    Withdraw { lender: Symbol, shares: i128 },
    Finance { amount: i128 },
    SetNav { new_nav: i128 },
    SetDonorBlocked { blocked: bool },
    ApplyReserveDelta { delta: i128 },
    RebalanceReserves { self_addr: Address, peers: Seq<PoolReport> },
    SetTimelockAdmin { timelock_admin: Address },
    QueueParameterChange { now: u64, param: Symbol, new_value: i128 },
    ExecuteParameterChange { now: u64, id: u32 },
    CancelParameterChange { id: u32 },
}

/// The state that a call leaves, and whether it was accepted.
pub open spec fn answer(s: PoolState, call: PoolCall) -> (PoolState, bool) {
    match call {
        PoolCall::Initialize { admin, max_utilisation } => {
            let a = s.initialize(admin, max_utilisation);
            (a.0, a.1 is Ok)
        },
        PoolCall::CreatePool { config } => {
            let a = s.create_pool(config);
            (a.0, a.1 is Ok)
        },
        PoolCall::Deposit { lender, amount } => {
            let a = s.deposit(lender, amount);
            (a.0, a.1 is Ok)
        },
        PoolCall::JoinPool { account, lender, amount } => {
            let a = s.join_pool(account, lender, amount);
            (a.0, a.1 is Ok)
        },
        PoolCall::Withdraw { lender, shares } => {
            let a = s.withdraw(lender, shares);
            (a.0, a.1 is Ok)
        },
        PoolCall::Finance { amount } => {
            let a = s.finance(amount);
            (a.0, a.1 is Ok)
        },
        PoolCall::SetNav { new_nav } => {
            let a = s.set_nav(new_nav);
            (a.0, a.1 is Ok)
        },
        PoolCall::SetDonorBlocked { blocked } => (s.set_donor_blocked(blocked), true),
        PoolCall::ApplyReserveDelta { delta } => {
            let a = s.apply_reserve_delta(delta);
            (a.0, a.1 is Ok)
        },
        PoolCall::RebalanceReserves { self_addr, peers } => {
            let a = s.rebalance_reserves(self_addr, peers);
            (a.0, a.1 is Ok)
        },
        PoolCall::SetTimelockAdmin { timelock_admin } => {
            let a = s.set_timelock_admin(timelock_admin);
            (a.0, a.1 is Ok)
        },
        PoolCall::QueueParameterChange { now, param, new_value } => {
            let a = s.queue_parameter_change(now, param, new_value);
            (a.0, a.1 is Ok)
        },
        PoolCall::ExecuteParameterChange { now, id } => {
            let a = s.execute_parameter_change(now, id);
            (a.0, a.1 is Ok)
        },
        PoolCall::CancelParameterChange { id } => {
            let a = s.cancel_parameter_change(id);
            (a.0, a.1 is Ok)
        },
    }
}

/// The call stays in range.
pub open spec fn call_fits(s: PoolState, call: PoolCall) -> bool {
    match call {
        PoolCall::Deposit { lender, amount } => s.deposit_fits(lender, amount),
        PoolCall::JoinPool { account, lender, amount } => s.deposit_fits(lender, amount),
        PoolCall::Withdraw { lender, shares } => s.withdraw_fits(lender, shares),
        PoolCall::Finance { amount } => s.finance_fits(amount),
        PoolCall::SetNav { new_nav } => s.set_nav_fits(new_nav),
        PoolCall::ApplyReserveDelta { delta } => s.reserve_delta_fits(delta),
        PoolCall::RebalanceReserves { self_addr, peers } => s.rebalance_fits(self_addr, peers),
        PoolCall::QueueParameterChange { now, .. } => s.queue_fits(now),
        PoolCall::ExecuteParameterChange { now, id } => s.execute_fits(now, id),
        _ => true,
    }
}

/// The state that a run of calls leaves.
pub open spec fn run(s: PoolState, calls: Seq<PoolCall>) -> PoolState
    decreases calls.len(),
{
    if calls.len() == 0 {
        s
    } else {
        answer(run(s, calls.drop_last()), calls.last()).0
    }
}

/// Every call of the run stays in range.
pub open spec fn run_fits(s: PoolState, calls: Seq<PoolCall>) -> bool
    decreases calls.len(),
{
    calls.len() > 0 ==> run_fits(s, calls.drop_last()) && call_fits(
        run(s, calls.drop_last()),
        calls.last(),
    )
}

/// The call can move reserve in or out of the pool.
pub open spec fn moves_reserve(call: PoolCall) -> bool {
    call is ApplyReserveDelta || call is RebalanceReserves
}

/// The capital is what the issued shares are worth at the NAV.
pub open spec fn balanced(s: PoolState) -> bool {
    s.nav matches Some(nav) ==> s.capital() == worth(s.issued(), nav as int)
}

/// No more is financed than capital and ceiling allow.
pub open spec fn within_ceiling(s: PoolState) -> bool {
    s.financed() <= financing_limit(s.capital(), s.ceiling())
}

/// The lenders hold together exactly what was issued.
pub open spec fn conserved(s: PoolState) -> bool {
    s.held() == s.issued()
}

/// A refused call leaves the pool as it was.
#[verifier::rlimit(50)]
pub proof fn law_refused_call_changes_nothing(s: PoolState, call: PoolCall)
    ensures
        !answer(s, call).1 ==> answer(s, call).0 == s,
{
}

/// A pool is initialized at most once: no call changes the admin of an
/// initialized pool, and `initialize` is refused on it.
#[verifier::rlimit(50)]
pub proof fn law_initialized_once(s: PoolState, call: PoolCall, admin: Symbol, max: i128)
    requires
        s.admin is Some,
    ensures
        answer(s, call).0.admin == s.admin,
        s.initialize(admin, max) == (s, Err::<(), ContractError>(ContractError::AlreadyInitialized)),
{
    match call {
        PoolCall::RebalanceReserves { self_addr, peers } => {},
        PoolCall::ExecuteParameterChange { now, id } => {},
        _ => {},
    }
}

proof fn lemma_worth_bounds(shares: int, nav: int)
    requires
        shares >= 0,
        nav > 0,
        fits(shares * nav),
    ensures
        fits(worth(shares, nav)),
        worth(shares, nav) >= 0,
{
    assert(shares * nav >= 0) by (nonlinear_arith)
        requires
            shares >= 0,
            nav > 0,
    ;
}

proof fn lemma_minted_bounds(amount: int, nav: int)
    requires
        amount >= 0,
        nav > 0,
    ensures
        0 <= minted(amount, nav) <= amount * NAV_SCALE,
{
    vstd::arithmetic::div_mod::lemma_div_pos_is_pos(amount * NAV_SCALE, nav);
    vstd::arithmetic::div_mod::lemma_div_is_ordered_by_denominator(amount * NAV_SCALE, 1, nav);
}

proof fn lemma_limit_fits(capital: int, ceiling: int)
    requires
        fits(capital * ceiling),
    ensures
        fits(financing_limit(capital, ceiling)),
{
    if capital * ceiling < 0 {
        let a = -(capital * ceiling);
        vstd::arithmetic::div_mod::lemma_div_pos_is_pos(a, BPS_SCALE as int);
        vstd::arithmetic::div_mod::lemma_div_is_ordered_by_denominator(a, 1, BPS_SCALE as int);
    }
}

/// After `deposit` the capital is what the issued shares are worth.
pub proof fn law_deposit_balances(s: PoolState, lender: Symbol, amount: i128)
    requires
        s.inv(),
        s.deposit_fits(lender, amount),
    ensures
        s.deposit(lender, amount).1 is Ok ==> balanced(s.deposit(lender, amount).0),
{
    if s.deposit(lender, amount).1 is Ok {
        let nav = s.nav->0 as int;
        let shares = minted(amount as int, nav);
        lemma_minted_bounds(amount as int, nav);
        lemma_worth_bounds(s.issued() + shares, nav);
    }
}

/// After `withdraw` the capital is what the remaining shares are worth.
pub proof fn law_withdraw_balances(s: PoolState, lender: Symbol, shares: i128)
    requires
        s.inv(),
        s.withdraw_fits(lender, shares),
    ensures
        s.withdraw(lender, shares).1 is Ok ==> balanced(s.withdraw(lender, shares).0),
{
    if s.withdraw(lender, shares).1 is Ok {
        s.law_lender_within_total(lender);
        lemma_worth_bounds(s.issued() - shares, s.nav->0 as int);
    }
}

/// After `set_nav` the capital is what the issued shares are worth.
pub proof fn law_set_nav_balances(s: PoolState, new_nav: i128)
    requires
        s.inv(),
        s.set_nav_fits(new_nav),
    ensures
        s.set_nav(new_nav).1 is Ok ==> balanced(s.set_nav(new_nav).0),
{
    if s.set_nav(new_nav).1 is Ok {
        lemma_worth_bounds(s.issued(), new_nav as int);
    }
}

/// After a reserve delta, which derives the NAV from the capital by rounding
/// down, the capital is what the issued shares are worth exactly where the
/// derivation leaves no remainder; with no shares issued, exactly where no
/// capital is left. The issued shares are never worth more than the capital.
pub proof fn law_reserve_delta_rounds_down(s: PoolState, delta: i128)
    requires
        s.inv(),
        s.admin is Some,
        s.reserve_delta_fits(delta),
        s.apply_reserve_delta(delta).1 is Ok,
    ensures
        ({
            let next = s.apply_reserve_delta(delta).0;
            let capital = s.capital() + delta;
            &&& next.capital() == capital
            &&& next.nav matches Some(nav) && worth(next.issued(), nav as int) <= capital
            &&& s.issued() > 0 ==> (balanced(next) <==> (capital * NAV_SCALE) % s.issued() == 0)
            &&& s.issued() == 0 ==> (balanced(next) <==> capital == 0)
        }),
{
    let next = s.apply_reserve_delta(delta).0;
    let capital = s.capital() + delta;
    if s.issued() > 0 {
        let issued = s.issued();
        let a = capital * NAV_SCALE;
        let nav = a / issued;
        vstd::arithmetic::div_mod::lemma_fundamental_div_mod(a, issued);
        vstd::arithmetic::div_mod::lemma_mod_division_less_than_divisor(a, issued);
        lemma_minted_bounds(capital, issued);
        assert(issued * nav <= a);
        assert(issued * nav >= 0) by (nonlinear_arith)
            requires
                issued > 0,
                nav > 0,
        ;
        assert(worth(issued, nav) <= capital);
        assert(next.nav == Some(nav as i128));
    } else {
        let nav = s.nav->0 as int;
        assert(0 * nav == 0);
        assert(worth(0, nav) == 0);
    }
}

/// After `finance`, `withdraw`, `set_nav`, a reserve delta or a changed
/// ceiling, no more is financed than capital and ceiling allow.
pub proof fn law_utilisation_capped(s: PoolState, call: PoolCall)
    requires
        s.inv(),
        call_fits(s, call),
        answer(s, call).1,
        call is Finance || call is Withdraw || call is SetNav || call is ApplyReserveDelta
            || call is ExecuteParameterChange,
    ensures
        within_ceiling(answer(s, call).0),
{
    match call {
        PoolCall::Finance { amount } => {},
        PoolCall::Withdraw { lender, shares } => {
            let nav = s.nav->0 as int;
            s.law_lender_within_total(lender);
            lemma_worth_bounds(s.issued() - shares, nav);
            lemma_limit_fits(worth(s.issued() - shares, nav), s.ceiling());
        },
        PoolCall::SetNav { new_nav } => {
            lemma_worth_bounds(s.issued(), new_nav as int);
            lemma_limit_fits(worth(s.issued(), new_nav as int), s.ceiling());
        },
        PoolCall::ApplyReserveDelta { delta } => {
            lemma_limit_fits(s.capital() + delta, s.ceiling());
        },
        PoolCall::ExecuteParameterChange { now, id } => {
            let action = s.actions[ActionKey(id)];
            lemma_limit_fits(s.capital(), action.new_value as int);
        },
        _ => {},
    }
}

/// A larger capital supports at least as much financing, where the ceiling is
/// not negative.
proof fn lemma_limit_monotone(a: int, b: int, ceiling: int)
    requires
        a <= b,
        ceiling >= 0,
    ensures
        financing_limit(a, ceiling) <= financing_limit(b, ceiling),
{
    assert(a * ceiling <= b * ceiling) by (nonlinear_arith)
        requires
            a <= b,
            ceiling >= 0,
    ;
    lemma_quotient_monotone(a * ceiling, b * ceiling, BPS_SCALE as int);
}

/// A deposit does not push a pool above its ceiling: where the accounts are
/// balanced and the ceiling is not negative, a pool within it stays within it.
pub proof fn law_deposit_stays_within_ceiling(s: PoolState, lender: Symbol, amount: i128)
    requires
        s.inv(),
        s.deposit_fits(lender, amount),
        balanced(s),
        within_ceiling(s),
        s.ceiling() >= 0,
    ensures
        within_ceiling(s.deposit(lender, amount).0),
{
    if s.deposit(lender, amount).1 is Ok {
        let nav = s.nav->0 as int;
        let shares = minted(amount as int, nav);
        lemma_minted_bounds(amount as int, nav);
        lemma_worth_bounds(s.issued() + shares, nav);
        assert(s.issued() * nav <= (s.issued() + shares) * nav) by (nonlinear_arith)
            requires
                shares >= 0,
                nav > 0,
        ;
        vstd::arithmetic::div_mod::lemma_div_is_ordered(
            s.issued() * nav,
            (s.issued() + shares) * nav,
            NAV_SCALE as int,
        );
        lemma_limit_monotone(s.capital(), worth(s.issued() + shares, nav), s.ceiling());
    }
}

/// Crediting a lender moves the held and the issued shares by the same number.
proof fn lemma_credit(s: PoolState, lender: Symbol, shares: int, nav: int)
    requires
        s.inv(),
        fits(s.shares_of(lender) + shares),
        fits(s.issued() + shares),
        s.shares_of(lender) + shares >= 0,
    ensures
        s.credited(lender, shares, nav).held() == s.held() + shares,
        s.credited(lender, shares, nav).issued() == s.issued() + shares,
        s.credited(lender, shares, nav).lenders.dom().finite(),
        no_debts(s.credited(lender, shares, nav).lenders),
{
    let p = LenderPosition { shares: (s.shares_of(lender) + shares) as i128 };
    lemma_sum_insert(s.lenders, shares_in(), LenderKey(lender), p);
    let next = s.lenders.insert(LenderKey(lender), p);
    assert forall|k: LenderKey| #[trigger] next.contains_key(k) implies next[k].shares >= 0 by {
        if k != LenderKey(lender) {
            assert(s.lenders.contains_key(k));
        }
    }
}

/// A reserve delta keeps the pool's invariant and touches no lender.
proof fn lemma_reserve_delta(s: PoolState, delta: i128)
    requires
        s.inv(),
        s.reserve_delta_fits(delta),
    ensures
        s.apply_reserve_delta(delta).0.inv(),
        s.apply_reserve_delta(delta).0.lenders == s.lenders,
        s.apply_reserve_delta(delta).0.total_shares == s.total_shares,
        s.apply_reserve_delta(delta).0.actions == s.actions,
        s.apply_reserve_delta(delta).0.next_action == s.next_action,
        s.apply_reserve_delta(delta).0.max_utilisation == s.max_utilisation,
{
    if s.apply_reserve_delta(delta).1 is Ok && s.issued() > 0 {
        let capital = s.capital() + delta;
        lemma_minted_bounds(capital, s.issued());
    }
}

/// Every call keeps the pool's invariant, and the shares that are issued but
/// held by no recorded lender: shares are never made or lost.
#[verifier::rlimit(50)]
pub proof fn law_shares_are_conserved(s: PoolState, call: PoolCall)
    requires
        s.inv(),
        call_fits(s, call),
    ensures
        answer(s, call).0.inv(),
        s.admin is Some ==> answer(s, call).0.issued() - answer(s, call).0.held() == s.issued()
            - s.held(),
        conserved(s) ==> conserved(answer(s, call).0),
{
    match call {
        PoolCall::Deposit { lender, amount } => {
            if s.deposit(lender, amount).1 is Ok {
                lemma_minted_bounds(amount as int, s.nav->0 as int);
                lemma_credit(s, lender, minted(amount as int, s.nav->0 as int), s.nav->0 as int);
                s.law_lender_within_total(lender);
            }
        },
        PoolCall::JoinPool { account, lender, amount } => {
            if s.deposit(lender, amount).1 is Ok {
                lemma_minted_bounds(amount as int, s.nav->0 as int);
                s.law_lender_within_total(lender);
                lemma_credit(
                    s,
                    lender,
                    minted(amount as int, s.nav->0 as int),
                    s.nav->0 as int,
                );
            }
        },
        PoolCall::Withdraw { lender, shares } => {
            if s.withdraw(lender, shares).1 is Ok {
                s.law_lender_within_total(lender);
                lemma_credit(s, lender, -shares, s.nav->0 as int);
            }
        },
        PoolCall::ApplyReserveDelta { delta } => {
            lemma_reserve_delta(s, delta);
        },
        PoolCall::RebalanceReserves { self_addr, peers } => {
            match planned(s.considered(self_addr, peers)) {
                Some(t) => {
                    if t.donor == self_addr {
                        lemma_reserve_delta(s, (-t.amount) as i128);
                    } else if t.needy == self_addr {
                        lemma_reserve_delta(s, t.amount);
                    }
                },
                None => {},
            }
        },
        PoolCall::QueueParameterChange { now, param, new_value } => {
            if s.timelock_admin is Some {
                let next = s.queue_parameter_change(now, param, new_value).0;
                lemma_file(
                    s.actions,
                    s.next_action,
                    next.next_action,
                    next.actions[ActionKey(s.next_action)],
                );
            }
        },
        PoolCall::ExecuteParameterChange { now, id } => {
            if s.execute_parameter_change(now, id).1 is Ok {
                let a = s.actions[ActionKey(id)];
                lemma_file(
                    s.actions,
                    s.next_action,
                    s.next_action,
                    QueuedAction { executed: true, ..a },
                );
            }
        },
        PoolCall::CancelParameterChange { id } => {
            if s.cancel_parameter_change(id).1 is Ok {
                let a = s.actions[ActionKey(id)];
                lemma_file(
                    s.actions,
                    s.next_action,
                    s.next_action,
                    QueuedAction { cancelled: true, ..a },
                );
            }
        },
        _ => {},
    }
}

/// A call that moves no reserve keeps the capital what the issued shares are
/// worth.
pub proof fn law_call_keeps_balance(s: PoolState, call: PoolCall)
    requires
        s.inv(),
        balanced(s),
        !moves_reserve(call),
        call_fits(s, call),
    ensures
        balanced(answer(s, call).0),
{
    match call {
        PoolCall::Deposit { lender, amount } => {
            law_deposit_balances(s, lender, amount);
        },
        PoolCall::JoinPool { account, lender, amount } => {
            law_deposit_balances(s, lender, amount);
        },
        PoolCall::Withdraw { lender, shares } => {
            law_withdraw_balances(s, lender, shares);
        },
        PoolCall::SetNav { new_nav } => {
            law_set_nav_balances(s, new_nav);
        },
        PoolCall::Initialize { .. } => {
            assert(worth(0, NAV_SCALE as int) == 0);
        },
        _ => {},
    }
}

/// The accounting identity: over any run of calls on a new pool that moves no
/// reserve, whatever the ceilings, the capital is what the issued shares are
/// worth at a positive NAV.
pub proof fn law_run_keeps_balance(calls: Seq<PoolCall>)
    requires
        forall|i: int| 0 <= i < calls.len() ==> !moves_reserve(#[trigger] calls[i]),
        run_fits(PoolState::empty(), calls),
    ensures
        run(PoolState::empty(), calls).inv(),
        balanced(run(PoolState::empty(), calls)),
        run(PoolState::empty(), calls).nav matches Some(nav) ==> nav > 0,
    decreases calls.len(),
{
    if calls.len() == 0 {
        assert(sum_of(PoolState::empty().lenders, shares_in()) == 0);
    } else {
        let rest = calls.drop_last();
        assert forall|i: int| 0 <= i < rest.len() implies !moves_reserve(#[trigger] rest[i]) by {
            assert(!moves_reserve(calls[i]));
        }
        law_run_keeps_balance(rest);
        let mid = run(PoolState::empty(), rest);
        assert(!moves_reserve(calls[calls.len() - 1]));
        law_shares_are_conserved(mid, calls.last());
        law_call_keeps_balance(mid, calls.last());
    }
}

/// The issued shares are worth no more than the capital.
pub open spec fn covered(s: PoolState) -> bool {
    s.nav matches Some(nav) ==> worth(s.issued(), nav as int) <= s.capital()
}

/// A reserve delta leaves the issued shares worth no more than the capital.
proof fn lemma_delta_keeps_cover(s: PoolState, delta: i128)
    requires
        s.inv(),
        covered(s),
        s.reserve_delta_fits(delta),
    ensures
        covered(s.apply_reserve_delta(delta).0),
{
    if s.admin is Some && s.apply_reserve_delta(delta).1 is Ok {
        law_reserve_delta_rounds_down(s, delta);
    }
}

/// Every call, moves of reserve among them, leaves the issued shares worth no
/// more than the capital.
pub proof fn law_call_keeps_cover(s: PoolState, call: PoolCall)
    requires
        s.inv(),
        covered(s),
        call_fits(s, call),
    ensures
        covered(answer(s, call).0),
{
    match call {
        PoolCall::Deposit { lender, amount } => {
            law_deposit_balances(s, lender, amount);
        },
        PoolCall::JoinPool { account, lender, amount } => {
            law_deposit_balances(s, lender, amount);
        },
        PoolCall::Withdraw { lender, shares } => {
            law_withdraw_balances(s, lender, shares);
        },
        PoolCall::SetNav { new_nav } => {
            law_set_nav_balances(s, new_nav);
        },
        PoolCall::Initialize { .. } => {
            assert(worth(0, NAV_SCALE as int) == 0);
        },
        PoolCall::ApplyReserveDelta { delta } => {
            lemma_delta_keeps_cover(s, delta);
        },
        PoolCall::RebalanceReserves { self_addr, peers } => {
            if let Some(t) = planned(s.considered(self_addr, peers)) {
                if t.donor == self_addr {
                    lemma_delta_keeps_cover(s, (-t.amount) as i128);
                } else if t.needy == self_addr {
                    lemma_delta_keeps_cover(s, t.amount);
                }
            }
        },
        _ => {},
    }
}

/// Over any run of calls on a new pool the issued shares are worth no more
/// than the capital: what rounding leaves over stays in the pool.
pub proof fn law_run_keeps_cover(calls: Seq<PoolCall>)
    requires
        run_fits(PoolState::empty(), calls),
    ensures
        run(PoolState::empty(), calls).inv(),
        covered(run(PoolState::empty(), calls)),
    decreases calls.len(),
{
    if calls.len() == 0 {
        assert(sum_of(PoolState::empty().lenders, shares_in()) == 0);
    } else {
        law_run_keeps_cover(calls.drop_last());
        let mid = run(PoolState::empty(), calls.drop_last());
        law_shares_are_conserved(mid, calls.last());
        law_call_keeps_cover(mid, calls.last());
    }
}

/// No ceiling that is set or queued is negative.
pub open spec fn ceilings_not_negative(s: PoolState) -> bool {
    &&& s.ceiling() >= 0
    &&& forall|k: ActionKey| #[trigger]
        s.actions.contains_key(k) && is_max_util(s.actions[k].param) ==> s.actions[k].new_value >= 0
}

/// The call sets or queues no negative ceiling and moves no reserve.
pub open spec fn ordinary(call: PoolCall) -> bool {
    match call {
        PoolCall::Initialize { max_utilisation, .. } => max_utilisation >= 0,
        PoolCall::QueueParameterChange { new_value, .. } => new_value >= 0,
        _ => !moves_reserve(call),
    }
}

/// What an ordinary run of calls keeps.
pub open spec fn sound(s: PoolState) -> bool {
    &&& s.inv()
    &&& conserved(s)
    &&& balanced(s)
    &&& s.capital() >= 0
    &&& s.financed() >= 0
    &&& within_ceiling(s)
    &&& ceilings_not_negative(s)
}

#[verifier::rlimit(50)]
proof fn lemma_ceilings_kept(s: PoolState, call: PoolCall)
    requires
        s.inv(),
        ceilings_not_negative(s),
        ordinary(call),
    ensures
        ceilings_not_negative(answer(s, call).0),
{
    let next = answer(s, call).0;
    assert forall|k: ActionKey| #[trigger]
        next.actions.contains_key(k) && is_max_util(next.actions[k].param) implies
        next.actions[k].new_value >= 0 by {
        match call {
            PoolCall::QueueParameterChange { now, param, new_value } => {
                if k != ActionKey(s.next_action) {
                    assert(s.actions.contains_key(k));
                }
            },
            _ => {
                assert(s.actions.contains_key(k));
            },
        }
    }
}

/// The limit on financing is not negative where capital and ceiling are not.
proof fn lemma_limit_not_negative(capital: int, ceiling: int)
    requires
        capital >= 0,
        ceiling >= 0,
    ensures
        financing_limit(capital, ceiling) >= 0,
{
    assert(capital * ceiling >= 0) by (nonlinear_arith)
        requires
            capital >= 0,
            ceiling >= 0,
    ;
}

/// Capital and financed amount of a sound pool do not become negative.
proof fn lemma_amounts_not_negative(s: PoolState, call: PoolCall)
    requires
        sound(s),
        ordinary(call),
        call_fits(s, call),
        answer(s, call).1,
    ensures
        answer(s, call).0.capital() >= 0,
        answer(s, call).0.financed() >= 0,
{
    let next = answer(s, call).0;
    match call {
        PoolCall::Deposit { lender, amount } => {
            let nav = s.nav->0 as int;
            lemma_minted_bounds(amount as int, nav);
            lemma_worth_bounds(s.issued() + minted(amount as int, nav), nav);
        },
        PoolCall::JoinPool { account, lender, amount } => {
            let nav = s.nav->0 as int;
            lemma_minted_bounds(amount as int, nav);
            lemma_worth_bounds(s.issued() + minted(amount as int, nav), nav);
        },
        PoolCall::Withdraw { lender, shares } => {
            let nav = s.nav->0 as int;
            s.law_lender_within_total(lender);
            let capital = worth(s.issued() - shares, nav);
            lemma_worth_bounds(s.issued() - shares, nav);
            lemma_limit_not_negative(capital, s.ceiling());
            lemma_limit_fits(capital, s.ceiling());
        },
        PoolCall::SetNav { new_nav } => {
            let capital = worth(s.issued(), new_nav as int);
            lemma_worth_bounds(s.issued(), new_nav as int);
            lemma_limit_not_negative(capital, s.ceiling());
            lemma_limit_fits(capital, s.ceiling());
        },
        PoolCall::ExecuteParameterChange { now, id } => {
            let value = s.actions[ActionKey(id)].new_value as int;
            assert(s.actions.contains_key(ActionKey(id)) && is_max_util(
                s.actions[ActionKey(id)].param,
            ));
            lemma_limit_not_negative(s.capital(), value);
            lemma_limit_fits(s.capital(), value);
        },
        _ => {},
    }
}

/// One ordinary call keeps a sound pool sound.
pub proof fn law_call_keeps_pool_sound(s: PoolState, call: PoolCall)
    requires
        sound(s),
        ordinary(call),
        call_fits(s, call),
    ensures
        sound(answer(s, call).0),
{
    law_shares_are_conserved(s, call);
    lemma_ceilings_kept(s, call);
    if answer(s, call).1 {
        lemma_amounts_not_negative(s, call);
        match call {
            PoolCall::Deposit { lender, amount } => {
                law_deposit_balances(s, lender, amount);
                law_deposit_stays_within_ceiling(s, lender, amount);
            },
            PoolCall::JoinPool { account, lender, amount } => {
                law_deposit_balances(s, lender, amount);
                law_deposit_stays_within_ceiling(s, lender, amount);
            },
            PoolCall::Withdraw { lender, shares } => {
                law_withdraw_balances(s, lender, shares);
                law_utilisation_capped(s, call);
            },
            PoolCall::SetNav { new_nav } => {
                law_set_nav_balances(s, new_nav);
                law_utilisation_capped(s, call);
            },
            PoolCall::Finance { amount } => {
                law_utilisation_capped(s, call);
            },
            PoolCall::ExecuteParameterChange { now, id } => {
                law_utilisation_capped(s, call);
            },
            PoolCall::Initialize { admin, max_utilisation } => {
                assert(0 * max_utilisation == 0);
                assert(worth(0, NAV_SCALE as int) == 0);
            },
            _ => {},
        }
    } else {
        law_refused_call_changes_nothing(s, call);
    }
}

/// Over any run of ordinary calls on a new pool, in any order and however many
/// of them are refused: the capital is what the issued shares are worth, the
/// financed amount is not negative and stays within the ceiling, the lenders
/// hold exactly what was issued, and no lender holds more than that.
pub proof fn law_run_keeps_accounts(calls: Seq<PoolCall>, lender: Symbol)
    requires
        forall|i: int| 0 <= i < calls.len() ==> #[trigger] ordinary(calls[i]),
        run_fits(PoolState::empty(), calls),
    ensures
        sound(run(PoolState::empty(), calls)),
        0 <= run(PoolState::empty(), calls).shares_of(lender) <= run(
            PoolState::empty(),
            calls,
        ).issued(),
    decreases calls.len(),
{
    if calls.len() == 0 {
        assert(sum_of(PoolState::empty().lenders, shares_in()) == 0);
        assert(0int * 0int == 0);
    } else {
        assert forall|i: int| 0 <= i < calls.drop_last().len() implies #[trigger] ordinary(
            calls.drop_last()[i],
        ) by {
            assert(ordinary(calls[i]));
        }
        law_run_keeps_accounts(calls.drop_last(), lender);
        assert(ordinary(calls[calls.len() - 1]));
        law_call_keeps_pool_sound(run(PoolState::empty(), calls.drop_last()), calls.last());
    }
    run(PoolState::empty(), calls).law_lender_within_total(lender);
}

/// A withdrawal beyond the lender's position is refused and changes nothing.
pub proof fn law_withdraw_within_position(s: PoolState, lender: Symbol, shares: i128)
    requires
        shares > 0,
        shares > s.shares_of(lender),
    ensures
        s.withdraw(lender, shares) == (
            s,
            Err::<i128, ContractError>(ContractError::InsufficientShares),
        ),
{
}

/// What a deposit buys is worth no more than was paid, and less than that by
/// under one unit and one share; at a NAV of one it is worth exactly what was
/// paid, share for unit.
pub proof fn law_deposit_is_priced_fairly(amount: int, nav: int)
    requires
        amount > 0,
        nav > 0,
    ensures
        worth(minted(amount, nav), nav) <= amount,
        amount * NAV_SCALE < (worth(minted(amount, nav), nav) + 1) * NAV_SCALE + nav,
        nav == NAV_SCALE ==> minted(amount, nav) == amount && worth(amount, nav) == amount,
{
    let a = amount * NAV_SCALE;
    let shares = a / nav;
    vstd::arithmetic::div_mod::lemma_fundamental_div_mod(a, nav);
    vstd::arithmetic::div_mod::lemma_mod_division_less_than_divisor(a, nav);
    assert(shares * nav == nav * shares) by (nonlinear_arith);
    assert(a - nav < shares * nav <= a);
    if nav == NAV_SCALE {
        vstd::arithmetic::div_mod::lemma_div_multiples_vanish(amount, NAV_SCALE as int);
        assert(NAV_SCALE * amount == amount * NAV_SCALE) by (nonlinear_arith);
    }
}

/// Withdrawing what a deposit has just bought restores every lender's holding
/// and the number of issued shares, and pays back no more than was deposited.
pub proof fn law_deposit_then_withdraw(s: PoolState, lender: Symbol, amount: i128, other: Symbol)
    requires
        s.inv(),
        s.deposit_fits(lender, amount),
        s.deposit(lender, amount).1 matches Ok(shares) && shares > 0,
        s.deposit(lender, amount).0.withdraw_fits(lender, s.deposit(lender, amount).1->Ok_0),
    ensures
        ({
            let (mid, bought) = s.deposit(lender, amount);
            let (end, paid) = mid.withdraw(lender, bought->Ok_0);
            &&& paid matches Ok(value) && 0 <= value <= amount
            &&& end.shares_of(other) == s.shares_of(other)
            &&& end.issued() == s.issued()
        }),
{
    let nav = s.nav->0 as int;
    let shares = minted(amount as int, nav);
    lemma_minted_bounds(amount as int, nav);
    law_deposit_is_priced_fairly(amount as int, nav);
    s.law_lender_within_total(lender);
    lemma_worth_bounds(shares, nav);
}

/// A rebalance does not push a pool above its ceiling, whichever side of the
/// transfer the pool is on.
pub proof fn law_rebalance_stays_within_ceiling(
    s: PoolState,
    self_addr: Address,
    peers: Seq<PoolReport>,
)
    requires
        s.inv(),
        s.rebalance_fits(self_addr, peers),
        within_ceiling(s),
    ensures
        within_ceiling(s.rebalance_reserves(self_addr, peers).0),
{
    if let Some(t) = planned(s.considered(self_addr, peers)) {
        if s.rebalance_reserves(self_addr, peers).1 is Ok {
            if t.donor == self_addr {
                law_utilisation_capped(
                    s,
                    PoolCall::ApplyReserveDelta { delta: (-t.amount) as i128 },
                );
            } else if t.needy == self_addr {
                law_utilisation_capped(s, PoolCall::ApplyReserveDelta { delta: t.amount });
            }
        }
    }
}

/// Over any run of calls on a new pool, moves of reserve among them, the
/// lenders hold exactly what was issued, and no lender holds more than that.
pub proof fn law_run_conserves_shares(calls: Seq<PoolCall>, lender: Symbol)
    requires
        run_fits(PoolState::empty(), calls),
    ensures
        run(PoolState::empty(), calls).inv(),
        conserved(run(PoolState::empty(), calls)),
        0 <= run(PoolState::empty(), calls).shares_of(lender) <= run(
            PoolState::empty(),
            calls,
        ).issued(),
    decreases calls.len(),
{
    if calls.len() == 0 {
        assert(sum_of(PoolState::empty().lenders, shares_in()) == 0);
    } else {
        law_run_conserves_shares(calls.drop_last(), lender);
        law_shares_are_conserved(run(PoolState::empty(), calls.drop_last()), calls.last());
    }
    run(PoolState::empty(), calls).law_lender_within_total(lender);
}

/// Who the call is made for, where it can change a lender's shares.
pub open spec fn lender_of(call: PoolCall) -> Option<Symbol> {
    match call {
        PoolCall::Deposit { lender, .. } => Some(lender),
        PoolCall::JoinPool { lender, .. } => Some(lender),
        PoolCall::Withdraw { lender, .. } => Some(lender),
        _ => None,
    }
}

/// A lender's shares change only by their own deposits and withdrawals.
#[verifier::rlimit(50)]
pub proof fn law_shares_change_by_own_calls(s: PoolState, call: PoolCall, lender: Symbol)
    requires
        lender_of(call) != Some(lender),
    ensures
        answer(s, call).0.shares_of(lender) == s.shares_of(lender),
{
    match call {
        PoolCall::Deposit { .. } => {
            assert(answer(s, call).0.shares_of(lender) == s.shares_of(lender));
        },
        PoolCall::JoinPool { .. } => {
            assert(answer(s, call).0.shares_of(lender) == s.shares_of(lender));
        },
        PoolCall::Withdraw { .. } => {
            assert(answer(s, call).0.shares_of(lender) == s.shares_of(lender));
        },
        PoolCall::RebalanceReserves { .. } => {
            assert(answer(s, call).0.lenders == s.lenders);
        },
        _ => {
            assert(answer(s, call).0.lenders == s.lenders);
        },
    }
}

/// `join_pool` keeps the same accounts as `deposit`: it answers alike and
/// leaves the same state, but for the shares that it announces.
pub proof fn law_join_pool_deposits(s: PoolState, account: Address, lender: Symbol, amount: i128)
    ensures
        s.join_pool(account, lender, amount).1 == s.deposit(lender, amount).1,
        s.join_pool(account, lender, amount).0 == (PoolState {
            events: s.join_pool(account, lender, amount).0.events,
            ..s.deposit(lender, amount).0
        }),
{
}

/// A queued action stays what it was, and its marks are never taken back: the
/// same change under the same id and delay, still executed where it was, still
/// cancelled where it was.
pub open spec fn carried_on(a: QueuedAction, b: QueuedAction) -> bool {
    &&& b == QueuedAction { executed: b.executed, cancelled: b.cancelled, ..a }
    &&& a.executed ==> b.executed
    &&& a.cancelled ==> b.cancelled
}

/// Every call carries every queued action on.
#[verifier::rlimit(50)]
pub proof fn law_actions_are_carried_on(s: PoolState, call: PoolCall, id: u32)
    requires
        s.inv(),
        s.actions.contains_key(ActionKey(id)),
    ensures
        answer(s, call).0.actions.contains_key(ActionKey(id)),
        carried_on(s.actions[ActionKey(id)], answer(s, call).0.actions[ActionKey(id)]),
{
    match call {
        PoolCall::QueueParameterChange { now, param, new_value } => {
            assert(s.actions[ActionKey(id)].id < s.next_action);
        },
        PoolCall::RebalanceReserves { self_addr, peers } => {},
        _ => {},
    }
}

/// Every run of calls carries every queued action on.
pub proof fn law_run_carries_actions_on(s: PoolState, calls: Seq<PoolCall>, id: u32)
    requires
        s.inv(),
        run_fits(s, calls),
        s.actions.contains_key(ActionKey(id)),
    ensures
        run(s, calls).inv(),
        run(s, calls).actions.contains_key(ActionKey(id)),
        carried_on(s.actions[ActionKey(id)], run(s, calls).actions[ActionKey(id)]),
    decreases calls.len(),
{
    if calls.len() > 0 {
        law_run_carries_actions_on(s, calls.drop_last(), id);
        let mid = run(s, calls.drop_last());
        law_shares_are_conserved(mid, calls.last());
        law_actions_are_carried_on(mid, calls.last(), id);
    }
}

/// Lenders have their full exit window: a change that was queued at `queued`
/// is not executed, whatever happens in between, before 48 hours have passed.
pub proof fn law_exit_window(
    s: PoolState,
    queued: u64,
    param: Symbol,
    new_value: i128,
    calls: Seq<PoolCall>,
    now: u64,
)
    requires
        s.inv(),
        s.queue_fits(queued),
        s.timelock_admin is Some,
        run_fits(s.queue_parameter_change(queued, param, new_value).0, calls),
        now < queued + TIMELOCK_SECS,
    ensures
        ({
            let (mid, id) = s.queue_parameter_change(queued, param, new_value);
            let end = run(mid, calls);
            &&& id == Ok::<u32, ContractError>(s.next_action)
            &&& end.execute_parameter_change(now, s.next_action).0 == end
            &&& end.execute_parameter_change(now, s.next_action).1 is Err
        }),
{
    law_shares_are_conserved(s, PoolCall::QueueParameterChange { now: queued, param, new_value });
    let mid = s.queue_parameter_change(queued, param, new_value).0;
    law_run_carries_actions_on(mid, calls, s.next_action);
}

/// A change executes at most once: once it has been executed, no later
/// execution or cancellation of it is accepted.
pub proof fn law_executed_once(
    s: PoolState,
    now: u64,
    id: u32,
    calls: Seq<PoolCall>,
    later: u64,
)
    requires
        s.inv(),
        s.execute_fits(now, id),
        s.execute_parameter_change(now, id).1 is Ok,
        run_fits(s.execute_parameter_change(now, id).0, calls),
        s.timelock_admin is Some,
    ensures
        ({
            let end = run(s.execute_parameter_change(now, id).0, calls);
            &&& end.execute_parameter_change(later, id) == (
                end,
                Err::<(), ContractError>(ContractError::ActionAlreadyExecuted),
            )
            &&& end.cancel_parameter_change(id).0 == end
            &&& end.cancel_parameter_change(id).1 is Err
        }),
{
    law_shares_are_conserved(s, PoolCall::ExecuteParameterChange { now, id });
    let mid = s.execute_parameter_change(now, id).0;
    lemma_not_both(mid, calls, id);
    law_run_carries_actions_on(mid, calls, id);
}

/// An action that is executed and not cancelled stays so.
proof fn lemma_not_both(s: PoolState, calls: Seq<PoolCall>, id: u32)
    requires
        s.inv(),
        run_fits(s, calls),
        s.actions.contains_key(ActionKey(id)),
        s.actions[ActionKey(id)].executed,
        !s.actions[ActionKey(id)].cancelled,
    ensures
        run(s, calls).actions.contains_key(ActionKey(id)),
        run(s, calls).actions[ActionKey(id)].executed,
        !run(s, calls).actions[ActionKey(id)].cancelled,
    decreases calls.len(),
{
    if calls.len() > 0 {
        lemma_not_both(s, calls.drop_last(), id);
        law_run_carries_actions_on(s, calls.drop_last(), id);
        let mid = run(s, calls.drop_last());
        law_actions_are_carried_on(mid, calls.last(), id);
        match calls.last() {
            PoolCall::QueueParameterChange { now, param, new_value } => {
                assert(mid.actions[ActionKey(id)].id < mid.next_action);
            },
            PoolCall::RebalanceReserves { self_addr, peers } => {},
            _ => {},
        }
    }
}

/// A cancelled change is never executed, whatever happens after it.
pub proof fn law_cancelled_never_executes(
    s: PoolState,
    id: u32,
    calls: Seq<PoolCall>,
    later: u64,
)
    requires
        s.inv(),
        s.cancel_parameter_change(id).1 is Ok,
        run_fits(s.cancel_parameter_change(id).0, calls),
    ensures
        ({
            let end = run(s.cancel_parameter_change(id).0, calls);
            end.execute_parameter_change(later, id) == (
                end,
                Err::<(), ContractError>(ContractError::ActionCancelled),
            )
        }),
{
    law_shares_are_conserved(s, PoolCall::CancelParameterChange { id });
    law_run_carries_actions_on(s.cancel_parameter_change(id).0, calls, id);
}

/// The ceiling of an initialized pool changes only by executing a queued
/// change, and then to the queued value.
#[verifier::rlimit(50)]
pub proof fn law_ceiling_changes_only_by_queue(s: PoolState, call: PoolCall)
    requires
        s.inv(),
        s.admin is Some,
        answer(s, call).0.max_utilisation != s.max_utilisation,
    ensures
        call matches PoolCall::ExecuteParameterChange { now, id } && s.actions.contains_key(
            ActionKey(id),
        ) && is_max_util(s.actions[ActionKey(id)].param) && now
            >= s.actions[ActionKey(id)].execute_after && answer(s, call).0.max_utilisation == Some(
            s.actions[ActionKey(id)].new_value,
        ),
{
    match call {
        PoolCall::ExecuteParameterChange { now, id } => {},
        PoolCall::RebalanceReserves { self_addr, peers } => {},
        _ => {},
    }
}

/// The neediest pool has capital, covers less than the floor, and no pool with
/// capital covers less; of those that cover as little it comes first. There is
/// none exactly where every pool with capital reaches the floor.
pub proof fn law_neediest(pools: Seq<PoolReport>)
    ensures
        match neediest(pools) {
            Some(n) => {
                &&& 0 <= n < pools.len()
                &&& pools[n].capital > 0
                &&& pools[n].coverage() < RESERVE_FLOOR_BPS
                &&& forall|i: int|
                    0 <= i < pools.len() && (#[trigger] pools[i]).capital > 0
                        ==> pools[n].coverage() <= pools[i].coverage() && (i < n
                        ==> pools[n].coverage() < pools[i].coverage())
            },
            None => forall|i: int|
                0 <= i < pools.len() && (#[trigger] pools[i]).capital > 0 ==> pools[i].coverage()
                    >= RESERVE_FLOOR_BPS,
        },
    decreases pools.len(),
{
    if pools.len() > 0 {
        let rest = pools.drop_last();
        law_neediest(rest);
        assert forall|i: int| 0 <= i < rest.len() implies #[trigger] pools[i] == rest[i] by {}
    }
}

/// The donor is not blocked, and no pool that may donate has a higher reserve;
/// of those with as high a reserve it comes first. There is none exactly where
/// every pool is blocked.
pub proof fn law_richest(pools: Seq<PoolReport>)
    ensures
        match richest(pools) {
            Some(d) => {
                &&& 0 <= d < pools.len()
                &&& !pools[d].donor_blocked
                &&& forall|i: int|
                    0 <= i < pools.len() && !(#[trigger] pools[i]).donor_blocked
                        ==> pools[d].reserve() >= pools[i].reserve() && (i < d
                        ==> pools[d].reserve() > pools[i].reserve())
            },
            None => forall|i: int| 0 <= i < pools.len() ==> (#[trigger] pools[i]).donor_blocked,
        },
    decreases pools.len(),
{
    if pools.len() > 0 {
        let rest = pools.drop_last();
        law_richest(rest);
        assert forall|i: int| 0 <= i < rest.len() implies #[trigger] pools[i] == rest[i] by {}
    }
}

/// A rebalance takes no more than half of what the donor has above its floor,
/// so that the donor still reaches its floor, and gives the needy pool no more
/// than it lacks to reach its own.
pub proof fn law_transfer_is_bounded(pools: Seq<PoolReport>)
    requires
        plan_fits(pools),
    ensures
        planned(pools) matches Some(t) ==> {
            let needy = pools[neediest(pools)->0];
            let donor = pools[richest(pools)->0];
            &&& t.donor == donor.address && t.needy == needy.address && t.donor != t.needy
            &&& 0 < t.amount
            &&& 2 * t.amount <= excess(donor)
            &&& donor.reserve() - t.amount >= donor.floor()
            &&& needy.reserve() + t.amount <= needy.floor()
        },
{
    law_neediest(pools);
    law_richest(pools);
    if planned(pools) is Some {
        let donor = pools[richest(pools)->0];
        assert(2 * donation_cap(donor) <= excess(donor));
    }
}

/// Nothing moves where every pool with capital reaches the floor.
pub proof fn law_healthy_pools_keep_their_reserve(pools: Seq<PoolReport>)
    requires
        forall|i: int|
            0 <= i < pools.len() && (#[trigger] pools[i]).capital > 0 ==> pools[i].coverage()
                >= RESERVE_FLOOR_BPS,
    ensures
        planned(pools) is None,
{
    law_neediest(pools);
}

/// What the donor gives up the needy pool receives: the two sides of a
/// transfer leave the pools' capital together unchanged.
pub proof fn law_transfer_conserves_capital(donor: PoolState, needy: PoolState, t: Rebalance)
    requires
        t.amount > 0,
        donor.reserve_delta_fits((-t.amount) as i128),
        needy.reserve_delta_fits(t.amount),
        donor.apply_reserve_delta((-t.amount) as i128).1 is Ok,
        needy.apply_reserve_delta(t.amount).1 is Ok,
    ensures
        donor.apply_reserve_delta((-t.amount) as i128).0.capital() + needy.apply_reserve_delta(
            t.amount,
        ).0.capital() == donor.capital() + needy.capital(),
{
}

/// The pools of a rebalance: the one that it is started at, and its peers.
pub ghost struct Pools {
    pub addresses: Seq<Address>,
    pub states: Seq<PoolState>,
}

impl Pools {
    /// Every pool has an address of its own, and there is a pool to start at.
    pub open spec fn distinct(self) -> bool {
        &&& self.states.len() == self.addresses.len()
        &&& self.states.len() > 0
        &&& self.addresses.no_duplicates()
    }

    /// What the peers report.
    pub open spec fn peers(self) -> Seq<PoolReport> {
        Seq::new(
            (self.states.len() - 1) as nat,
            |i: int| self.states[i + 1].report(self.addresses[i + 1]),
        )
    }

    /// What the pool that the rebalance is started at leaves and answers.
    pub open spec fn started(self) -> (PoolState, Result<Option<Rebalance>, ContractError>) {
        self.states[0].rebalance_reserves(self.addresses[0], self.peers())
    }

    /// What each pool has to be given.
    pub open spec fn delta(self, i: int) -> int {
        match self.started().1 {
            Ok(Some(t)) => t.side(self.addresses[i]),
            _ => 0,
        }
    }

    /// The states after the rebalance: the pool it was started at has applied
    /// its own side, and every other pool that takes part applies its side.
    pub open spec fn rebalanced(self) -> Seq<PoolState> {
        Seq::new(
            self.states.len(),
            |i: int|
                if i == 0 {
                    self.started().0
                } else if self.delta(i) != 0 {
                    self.states[i].apply_reserve_delta(self.delta(i) as i128).0
                } else {
                    self.states[i]
                },
        )
    }

    /// The rebalance goes through: it stays in range, it is accepted where it
    /// is started, and every other pool that takes part accepts its side.
    pub open spec fn goes_through(self) -> bool {
        &&& self.states[0].rebalance_fits(self.addresses[0], self.peers())
        &&& self.started().1 is Ok
        &&& forall|i: int|
            0 < i < self.states.len() && #[trigger] self.delta(i) != 0
                ==> self.states[i].reserve_delta_fits(self.delta(i) as i128)
                && self.states[i].apply_reserve_delta(self.delta(i) as i128).1 is Ok
    }
}

/// The capital of all pools together.
pub open spec fn total_capital(states: Seq<PoolState>) -> int
    decreases states.len(),
{
    if states.len() == 0 {
        0
    } else {
        total_capital(states.drop_last()) + states.last().capital()
    }
}

/// What a transfer adds to the capital of the pools at `addresses` together.
spec fn total_sides(t: Rebalance, addresses: Seq<Address>) -> int
    decreases addresses.len(),
{
    if addresses.len() == 0 {
        0
    } else {
        total_sides(t, addresses.drop_last()) + t.side(addresses.last())
    }
}

/// Each of two parties is counted once, if it is there.
proof fn lemma_total_sides(t: Rebalance, addresses: Seq<Address>)
    requires
        addresses.no_duplicates(),
        t.donor != t.needy,
    ensures
        total_sides(t, addresses) == (if addresses.contains(t.needy) {
            t.amount as int
        } else {
            0
        }) - (if addresses.contains(t.donor) {
            t.amount as int
        } else {
            0
        }),
    decreases addresses.len(),
{
    if addresses.len() > 0 {
        let rest = addresses.drop_last();
        let last = addresses.last();
        lemma_total_sides(t, rest);
        assert forall|x: Address| x != last implies addresses.contains(x) == rest.contains(x) by {
            if addresses.contains(x) {
                let i = choose|i: int| 0 <= i < addresses.len() && addresses[i] == x;
                assert(rest[i] == x);
            }
            if rest.contains(x) {
                let i = choose|i: int| 0 <= i < rest.len() && rest[i] == x;
                assert(addresses[i] == x);
            }
        }
        assert(addresses.contains(last)) by {
            assert(addresses[addresses.len() - 1] == last);
        }
        assert(!rest.contains(last)) by {
            if rest.contains(last) {
                let i = choose|i: int| 0 <= i < rest.len() && rest[i] == last;
                assert(addresses[i] == addresses[addresses.len() - 1]);
            }
        }
    }
}

/// Where every pool's capital grows by its side, the total grows by all sides.
proof fn lemma_total_moves(
    t: Rebalance,
    addresses: Seq<Address>,
    before: Seq<PoolState>,
    after: Seq<PoolState>,
)
    requires
        before.len() == addresses.len(),
        after.len() == addresses.len(),
        forall|i: int|
            0 <= i < after.len() ==> (#[trigger] after[i]).capital() == before[i].capital() + t.side(
                addresses[i],
            ),
    ensures
        total_capital(after) == total_capital(before) + total_sides(t, addresses),
    decreases addresses.len(),
{
    if addresses.len() > 0 {
        lemma_total_moves(t, addresses.drop_last(), before.drop_last(), after.drop_last());
    }
}

/// A reserve delta that is accepted adds to the capital and touches neither
/// shares nor lenders.
proof fn lemma_delta_effect(s: PoolState, delta: i128)
    requires
        s.reserve_delta_fits(delta),
        s.apply_reserve_delta(delta).1 is Ok,
    ensures
        s.apply_reserve_delta(delta).0.capital() == s.capital() + delta,
        s.apply_reserve_delta(delta).0.total_shares == s.total_shares,
        s.apply_reserve_delta(delta).0.lenders == s.lenders,
{
}

/// Over a whole rebalance, whichever pool it is started at: the capital of all
/// pools together is unchanged, and so are the shares and the lenders'
/// positions of every pool; apart from what the starting pool announces, only
/// the donor and the needy pool change, each by the transferred amount. Where
/// nothing is transferred no pool changes in any way.
pub proof fn law_rebalance_conserves(p: Pools)
    requires
        p.distinct(),
        p.goes_through(),
    ensures
        total_capital(p.rebalanced()) == total_capital(p.states),
        forall|i: int|
            0 <= i < p.states.len() ==> {
                &&& (#[trigger] p.rebalanced()[i]).capital() == p.states[i].capital() + p.delta(i)
                &&& p.rebalanced()[i].total_shares == p.states[i].total_shares
                &&& p.rebalanced()[i].lenders == p.states[i].lenders
            },
        match p.started().1 {
            Ok(Some(t)) => {
                &&& t.donor != t.needy && t.amount > 0
                &&& p.addresses.contains(t.donor) && p.addresses.contains(t.needy)
                &&& forall|i: int|
                    0 <= i < p.states.len() && p.addresses[i] != t.donor && p.addresses[i]
                        != t.needy ==> #[trigger] p.rebalanced()[i] == (PoolState {
                        events: p.rebalanced()[i].events,
                        ..p.states[i]
                    })
            },
            _ => p.rebalanced() == p.states,
        },
{
    let own = p.states[0];
    let pools = own.considered(p.addresses[0], p.peers());
    let after = p.rebalanced();
    match p.started().1 {
        Ok(Some(t)) => {
            law_transfer_is_bounded(pools);
            law_neediest(pools);
            law_richest(pools);
            assert forall|i: int| 0 <= i < pools.len() implies p.addresses[i] == (
            #[trigger] pools[i]).address by {}
            let (n, d) = (neediest(pools)->0, richest(pools)->0);
            assert(p.addresses[n] == t.needy && p.addresses[d] == t.donor);
            assert forall|i: int| 0 <= i < after.len() implies {
                &&& (#[trigger] after[i]).capital() == p.states[i].capital() + t.side(
                    p.addresses[i],
                )
                &&& after[i].total_shares == p.states[i].total_shares
                &&& after[i].lenders == p.states[i].lenders
            } by {
                let side = p.delta(i);
                if i == 0 {
                    if t.donor == p.addresses[0] {
                        lemma_delta_effect(own, (-t.amount) as i128);
                    } else if t.needy == p.addresses[0] {
                        lemma_delta_effect(own, t.amount);
                    }
                } else if side != 0 {
                    lemma_delta_effect(p.states[i], side as i128);
                }
            }
            lemma_total_moves(t, p.addresses, p.states, after);
            lemma_total_sides(t, p.addresses);
        },
        _ => {
            assert(after =~= p.states);
        },
    }
}

} // verus!
