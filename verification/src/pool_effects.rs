//! What each call does to a pool, told by the numbers that it leaves: which
//! price a deposit pays, what a withdrawal pays out, how far a ceiling reaches,
//! and what a rebalance moves.

use vstd::prelude::*;

use crate::arith::{fits, law_quotient_truncates, or_zero, quotient};
use crate::ident::{Address, Authorization, Symbol};
use crate::pool_laws::{law_neediest, law_richest, law_shares_are_conserved, PoolCall};
use crate::pool_manager::{
    excess, financing_limit, minted, neediest, plan_fits, planned, richest, shortfall,
    worth, ActionKey, ContractError, LenderKey, LenderPosition, PoolConfig, PoolEvent, PoolManager,
    PoolReport, PoolState, QueuedAction, Rebalance,
};

verus! {

/// The ceiling allows `amount` to be financed out of `capital`: it is no more
/// than the ceiling's share of the capital, in basis points, where a fraction
/// of a unit is cut off.
pub open spec fn allowed(amount: int, capital: int, ceiling: int) -> bool {
    if capital * ceiling >= 0 {
        amount * 10_000 <= capital * ceiling
    } else {
        amount * 10_000 < capital * ceiling + 10_000
    }
}

/// What is financed stays as it was where the ceiling allows it, and is brought
/// down to the highest amount that the ceiling allows where it does not.
pub open spec fn brought_down(
    after: Option<i128>,
    before: Option<i128>,
    capital: int,
    ceiling: int,
) -> bool {
    if allowed(or_zero(before) as int, capital, ceiling) {
        after == before
    } else {
        after matches Some(amount) && amount < or_zero(before) && allowed(
            amount as int,
            capital,
            ceiling,
        ) && !allowed(amount + 1, capital, ceiling)
    }
}

/// What the ceiling allows is what does not exceed the limit on financing.
proof fn lemma_allowed(amount: int, capital: int, ceiling: int)
    ensures
        allowed(amount, capital, ceiling) <==> amount <= financing_limit(capital, ceiling),
{
    law_quotient_truncates(capital * ceiling, 10_000);
}

proof fn lemma_limit_in_range(capital: int, ceiling: int)
    requires
        fits(capital * ceiling),
    ensures
        fits(financing_limit(capital, ceiling)),
{
    law_quotient_truncates(capital * ceiling, 10_000);
}

/// Bringing the financed amount under its limit brings it down as little as
/// the ceiling asks for.
proof fn lemma_reclamped(s: PoolState)
    requires
        fits(s.capital() * s.ceiling()),
    ensures
        brought_down(s.reclamped().financed_amount, s.financed_amount, s.capital(), s.ceiling()),
        s.reclamped() == (PoolState { financed_amount: s.reclamped().financed_amount, ..s }),
{
    let limit = financing_limit(s.capital(), s.ceiling());
    lemma_limit_in_range(s.capital(), s.ceiling());
    lemma_allowed(s.financed(), s.capital(), s.ceiling());
    lemma_allowed(limit, s.capital(), s.ceiling());
    lemma_allowed(limit + 1, s.capital(), s.ceiling());
}

proof fn lemma_floor_division(a: int, b: int)
    requires
        a >= 0,
        b > 0,
    ensures
        0 <= a / b <= a,
        (a / b) * b <= a < (a / b + 1) * b,
{
    vstd::arithmetic::div_mod::lemma_fundamental_div_mod(a, b);
    vstd::arithmetic::div_mod::lemma_mod_division_less_than_divisor(a, b);
    vstd::arithmetic::div_mod::lemma_div_pos_is_pos(a, b);
    vstd::arithmetic::div_mod::lemma_div_is_ordered_by_denominator(a, 1, b);
    let q = a / b;
    assert(b * q == q * b && (q + 1) * b == q * b + b) by (nonlinear_arith);
}

proof fn lemma_product_not_negative(a: int, b: int)
    requires
        a >= 0,
        b >= 0,
    ensures
        a * b >= 0,
{
    assert(a * b >= 0) by (nonlinear_arith)
        requires
            a >= 0,
            b >= 0,
    ;
}

/// A number is the floor of a fraction where it lies between the fraction and
/// one below it.
proof fn lemma_floor_is(a: int, b: int, q: int)
    requires
        b > 0,
        q * b <= a < (q + 1) * b,
    ensures
        a / b == q,
{
    assert((q + 1) * b == q * b + b && q * b == b * q) by (nonlinear_arith);
    vstd::arithmetic::div_mod::lemma_fundamental_div_mod_converse(a, b, q, a - q * b);
}

/// What the readings of a pool say of its fields: a total that was never
/// written reads as zero, and so does the position of an unknown lender.
pub proof fn law_readings(s: PoolState, lender: Symbol)
    ensures
        s.issued() == (match s.total_shares {
            Some(x) => x as int,
            None => 0,
        }),
        s.capital() == (match s.total_capital {
            Some(x) => x as int,
            None => 0,
        }),
        s.financed() == (match s.financed_amount {
            Some(x) => x as int,
            None => 0,
        }),
        s.ceiling() == (match s.max_utilisation {
            Some(x) => x as int,
            None => 0,
        }),
        s.shares_of(lender) == (if s.lenders.contains_key(LenderKey(lender)) {
            s.lenders[LenderKey(lender)].shares as int
        } else {
            0
        }),
{
}

/// A pool is seen as what its fields hold.
pub proof fn law_view(pool: PoolManager)
    ensures
        pool@.admin == pool.admin,
        pool@.config == pool.config,
        pool@.total_shares == pool.total_shares,
        pool@.total_capital == pool.total_capital,
        pool@.financed_amount == pool.financed_amount,
        pool@.max_utilisation == pool.max_utilisation,
        pool@.nav == pool.nav,
        pool@.donor_blocked == pool.donor_blocked,
        pool@.timelock_admin == pool.timelock_admin,
        pool@.next_action == pool.next_action,
        pool@.lenders == pool.lenders@,
        pool@.actions == pool.actions@,
        pool@.events == pool.events@,
{
}

/// A new pool holds nothing, owes nothing and is not initialized.
pub proof fn law_new_pool()
    ensures
        ({
            let s = PoolState::empty();
            &&& s.admin is None && s.config is None && s.nav is None && s.timelock_admin is None
            &&& s.total_shares is None && s.total_capital is None
            &&& s.financed_amount is None && s.max_utilisation is None
            &&& !s.donor_blocked && s.next_action == 0
            &&& s.lenders == Map::<LenderKey, LenderPosition>::empty()
            &&& s.actions == Map::<ActionKey, QueuedAction>::empty()
            &&& s.events == Seq::<PoolEvent>::empty()
        }),
{
}

/// `initialize` names the admin and the ceiling and starts with nothing issued,
/// nothing financed and a NAV of one million; it is accepted exactly once.
pub proof fn law_initialize(s: PoolState, admin: Symbol, max_utilisation: i128)
    ensures
        ({
            let (next, r) = s.initialize(admin, max_utilisation);
            match r {
                Ok(_) => {
                    &&& s.admin is None
                    &&& next.admin == Some(admin) && next.max_utilisation == Some(max_utilisation)
                    &&& next.total_shares == Some(0i128) && next.total_capital == Some(0i128)
                    &&& next.financed_amount == Some(0i128) && next.nav == Some(1_000_000i128)
                    &&& next.config == s.config && next.donor_blocked == s.donor_blocked
                    &&& next.timelock_admin == s.timelock_admin
                    &&& next.next_action == s.next_action && next.lenders == s.lenders
                    &&& next.actions == s.actions && next.events == s.events
                },
                Err(e) => next == s && s.admin is Some && e == ContractError::AlreadyInitialized,
            }
        }),
{
}

/// `create_pool` stores the configuration once, on an initialized pool, where
/// every share lies above zero and at most at ten thousand, and the deposit
/// range starts above zero and is not empty.
pub proof fn law_create_pool(s: PoolState, config: PoolConfig)
    ensures
        ({
            let (next, r) = s.create_pool(config);
            let shares_valid = 0 < config.buyer_limit_bps <= 10_000 && 0 < config.sme_limit_bps
                <= 10_000 && 0 < config.reserve_ratio_bps <= 10_000;
            let range_valid = 0 < config.min_deposit <= config.max_deposit;
            match r {
                Ok(_) => {
                    &&& s.admin is Some && s.config is None && shares_valid && range_valid
                    &&& next.config == Some(config)
                    &&& next.events == s.events.push(PoolEvent::PoolCreated { config })
                    &&& next == (PoolState { config: next.config, events: next.events, ..s })
                },
                Err(e) => next == s && {
                    ||| s.admin is None && e == ContractError::PoolNotInitialized
                    ||| s.admin is Some && s.config is Some && e
                        == ContractError::PoolAlreadyCreated
                    ||| s.admin is Some && s.config is None && !shares_valid && e
                        == ContractError::InvalidBps
                    ||| s.admin is Some && s.config is None && shares_valid && !range_valid && e
                        == ContractError::InvalidDepositRange
                },
            }
        }),
{
}

/// A deposit buys the most shares that `amount` pays for at the NAV. The
/// lender's position and the issued shares grow by just those, the capital
/// becomes what all issued shares are worth, rounded down, and nothing else
/// changes. A deposit is accepted wherever the amount is positive and the pool
/// initialized.
pub proof fn law_deposit(s: PoolState, lender: Symbol, amount: i128)
    requires
        s.inv(),
        s.deposit_fits(lender, amount),
    ensures
        ({
            let (next, r) = s.deposit(lender, amount);
            let key = LenderKey(lender);
            match r {
                Ok(shares) => {
                    let nav = s.nav->0 as int;
                    &&& amount > 0 && s.nav is Some
                    &&& shares * nav <= amount * 1_000_000 < (shares + 1) * nav
                    &&& next.lenders == s.lenders.insert(key, next.lenders[key])
                    &&& next.lenders[key].shares == s.shares_of(lender) + shares
                    &&& next.issued() == s.issued() + shares && next.total_shares is Some
                    &&& next.capital() * 1_000_000 <= next.issued() * nav < (next.capital() + 1)
                        * 1_000_000
                    &&& next.total_capital is Some
                    &&& next == (PoolState {
                        lenders: next.lenders,
                        total_shares: next.total_shares,
                        total_capital: next.total_capital,
                        ..s
                    })
                },
                Err(e) => next == s && {
                    ||| amount <= 0 && e == ContractError::InvalidAmount
                    ||| amount > 0 && s.nav is None && e == ContractError::NotInitialized
                },
            }
        }),
{
    if s.deposit(lender, amount).1 is Ok {
        let nav = s.nav->0 as int;
        let shares = minted(amount as int, nav);
        lemma_floor_division(amount * 1_000_000, nav);
        let total = s.issued() + shares;
        lemma_product_not_negative(total, nav);
        lemma_floor_division(total * nav, 1_000_000);
    }
}

/// `join_pool` is a deposit that is announced, with the account and the shares
/// that it bought; a refused one is not announced.
pub proof fn law_join_pool(s: PoolState, account: Address, lender: Symbol, amount: i128)
    ensures
        ({
            let (next, r) = s.join_pool(account, lender, amount);
            let (deposited, bought) = s.deposit(lender, amount);
            match bought {
                Ok(shares) => {
                    &&& r == bought
                    &&& next.events == s.events.push(
                        PoolEvent::SharesMinted { lender: account, shares },
                    )
                    &&& next == (PoolState { events: next.events, ..deposited })
                },
                Err(_) => next == s && r == bought,
            }
        }),
{
}

/// A withdrawal pays out what the shares are worth at the NAV, rounded down to
/// whole units. The lender's position and the issued shares fall by just those
/// shares, the capital becomes what the remaining shares are worth, rounded
/// down, the financed amount is brought down only as far as that capital asks
/// for, and nothing else changes. It is accepted wherever the number of shares
/// is positive and the lender holds them.
pub proof fn law_withdraw(s: PoolState, lender: Symbol, shares: i128)
    requires
        s.inv(),
        s.withdraw_fits(lender, shares),
    ensures
        ({
            let (next, r) = s.withdraw(lender, shares);
            let key = LenderKey(lender);
            match r {
                Ok(paid) => {
                    let nav = s.nav->0 as int;
                    &&& 0 < shares <= s.shares_of(lender) && s.nav is Some
                    &&& paid * 1_000_000 <= shares * nav < (paid + 1) * 1_000_000
                    &&& next.lenders == s.lenders.insert(key, next.lenders[key])
                    &&& next.lenders[key].shares == s.shares_of(lender) - shares
                    &&& next.issued() == s.issued() - shares && next.total_shares is Some
                    &&& next.capital() * 1_000_000 <= next.issued() * nav < (next.capital() + 1)
                        * 1_000_000
                    &&& next.total_capital is Some
                    &&& brought_down(
                        next.financed_amount,
                        s.financed_amount,
                        next.capital(),
                        s.ceiling(),
                    )
                    &&& next == (PoolState {
                        lenders: next.lenders,
                        total_shares: next.total_shares,
                        total_capital: next.total_capital,
                        financed_amount: next.financed_amount,
                        ..s
                    })
                },
                Err(e) => next == s && {
                    ||| shares <= 0 && e == ContractError::InvalidShares
                    ||| shares > 0 && s.shares_of(lender) < shares && e
                        == ContractError::InsufficientShares
                    ||| 0 < shares <= s.shares_of(lender) && s.nav is None && e
                        == ContractError::NotInitialized
                },
            }
        }),
{
    if s.withdraw(lender, shares).1 is Ok {
        let nav = s.nav->0 as int;
        s.law_lender_within_total(lender);
        let total = s.issued() - shares;
        lemma_product_not_negative(shares as int, nav);
        lemma_product_not_negative(total, nav);
        lemma_floor_division(shares * nav, 1_000_000);
        lemma_floor_division(total * nav, 1_000_000);
        let mid = s.credited(lender, -shares, nav);
        assert(mid.capital() == worth(total, nav));
        lemma_reclamped(mid);
    }
}

/// A withdrawal can be cut in two: both parts pay together what one withdrawal
/// of all the shares pays, or one unit less for the second rounding, and leave
/// the same shares and the same capital.
pub proof fn law_withdrawals_add_up(
    s: PoolState,
    lender: Symbol,
    first: i128,
    second: i128,
)
    requires
        s.inv(),
        first > 0,
        second > 0,
        first + second <= s.shares_of(lender),
        s.nav is Some,
        s.withdraw_fits(lender, first),
        s.withdraw_fits(lender, (first + second) as i128),
        s.withdraw(lender, first).0.withdraw_fits(lender, second),
    ensures
        ({
            let (mid, a) = s.withdraw(lender, first);
            let (end, b) = mid.withdraw(lender, second);
            let (whole, c) = s.withdraw(lender, (first + second) as i128);
            &&& a is Ok && b is Ok && c is Ok
            &&& a->Ok_0 + b->Ok_0 <= c->Ok_0 <= a->Ok_0 + b->Ok_0 + 1
            &&& end.shares_of(lender) == whole.shares_of(lender)
            &&& end.total_shares == whole.total_shares
            &&& end.total_capital == whole.total_capital
        }),
{
    let nav = s.nav->0 as int;
    let all = (first + second) as i128;
    law_withdraw(s, lender, first);
    law_withdraw(s, lender, all);
    law_shares_are_conserved(s, PoolCall::Withdraw { lender, shares: first });
    let mid = s.withdraw(lender, first).0;
    law_withdraw(mid, lender, second);
    assert(first * nav + second * nav == all * nav) by (nonlinear_arith)
        requires
            all == first + second,
    ;
    let end = mid.withdraw(lender, second).0;
    let whole = s.withdraw(lender, all).0;
    assert(end.issued() == whole.issued());
    assert(end.capital() == whole.capital());
}

/// Financing raises the financed amount by exactly `amount` and changes nothing
/// else. It is accepted wherever the amount is positive and the ceiling allows
/// what is then financed altogether.
pub proof fn law_finance(s: PoolState, amount: i128)
    requires
        s.finance_fits(amount),
    ensures
        ({
            let (next, r) = s.finance(amount);
            let known = s.financed_amount is Some && s.total_capital is Some
                && s.max_utilisation is Some;
            match r {
                Ok(_) => {
                    &&& amount > 0 && known
                    &&& allowed(s.financed() + amount, s.capital(), s.ceiling())
                    &&& next.financed() == s.financed() + amount && next.financed_amount is Some
                    &&& next == (PoolState { financed_amount: next.financed_amount, ..s })
                },
                Err(e) => next == s && {
                    ||| amount <= 0 && e == ContractError::InvalidAmount
                    ||| amount > 0 && !known && e == ContractError::NotInitialized
                    ||| amount > 0 && known && !allowed(
                        s.financed() + amount,
                        s.capital(),
                        s.ceiling(),
                    ) && e == ContractError::MaxUtilisationExceeded
                },
            }
        }),
{
    lemma_allowed(s.financed() + amount, s.capital(), s.ceiling());
}

/// Financings add up: two in a row leave what one of the sum leaves, and are
/// both accepted exactly where that one is.
pub proof fn law_financings_add_up(s: PoolState, first: i128, second: i128)
    requires
        first > 0,
        second > 0,
        first + second <= i128::MAX,
        s.finance_fits(first),
        s.finance_fits((first + second) as i128),
    ensures
        ({
            let (mid, a) = s.finance(first);
            let (end, b) = mid.finance(second);
            let (whole, c) = s.finance((first + second) as i128);
            &&& c is Ok <==> a is Ok && b is Ok
            &&& c is Ok ==> end == whole && whole.financed() == s.financed() + first + second
        }),
{
    let mid = s.finance(first).0;
    law_finance(s, first);
    law_finance(s, (first + second) as i128);
    law_finance(mid, second);
}

/// `set_nav` sets the NAV. The capital becomes what the issued shares are worth
/// at it, rounded down, the financed amount is brought down only as far as that
/// capital asks for, and nothing else changes. It is accepted wherever the NAV
/// is positive and the pool initialized.
pub proof fn law_set_nav(s: PoolState, new_nav: i128)
    requires
        s.inv(),
        s.set_nav_fits(new_nav),
    ensures
        ({
            let (next, r) = s.set_nav(new_nav);
            let known = s.total_shares is Some && s.max_utilisation is Some;
            match r {
                Ok(_) => {
                    &&& new_nav > 0 && known
                    &&& next.nav == Some(new_nav)
                    &&& next.capital() * 1_000_000 <= s.issued() * new_nav < (next.capital() + 1)
                        * 1_000_000
                    &&& next.total_capital is Some
                    &&& brought_down(
                        next.financed_amount,
                        s.financed_amount,
                        next.capital(),
                        s.ceiling(),
                    )
                    &&& next == (PoolState {
                        nav: next.nav,
                        total_capital: next.total_capital,
                        financed_amount: next.financed_amount,
                        ..s
                    })
                },
                Err(e) => next == s && {
                    ||| new_nav <= 0 && e == ContractError::InvalidNav
                    ||| new_nav > 0 && !known && e == ContractError::NotInitialized
                },
            }
        }),
{
    if s.set_nav(new_nav).1 is Ok {
        lemma_product_not_negative(s.issued(), new_nav as int);
        lemma_floor_division(s.issued() * new_nav, 1_000_000);
        let mid = PoolState {
            nav: Some(new_nav),
            total_capital: Some(worth(s.issued(), new_nav as int) as i128),
            ..s
        };
        assert(mid.capital() == worth(s.issued(), new_nav as int));
        lemma_reclamped(mid);
    }
}

/// A reserve delta adds exactly itself to the capital. The NAV becomes the
/// highest at which the issued shares are worth no more than that capital, and
/// stays where no shares are issued; the financed amount is brought down only
/// as far as the new capital asks for; nothing else changes. It is refused
/// exactly where the capital would fall below zero, or the NAV to zero.
pub proof fn law_reserve_delta(s: PoolState, delta: i128)
    requires
        s.inv(),
        s.reserve_delta_fits(delta),
    ensures
        ({
            let (next, r) = s.apply_reserve_delta(delta);
            let capital = s.capital() + delta;
            let issued = s.issued();
            match r {
                Ok(_) => {
                    &&& capital >= 0 && (issued > 0 ==> capital * 1_000_000 >= issued)
                    &&& next.capital() == capital && next.total_capital is Some
                    &&& issued > 0 ==> next.nav is Some && next.nav->0 * issued <= capital
                        * 1_000_000 < (next.nav->0 + 1) * issued
                    &&& issued <= 0 ==> next.nav == s.nav
                    &&& brought_down(
                        next.financed_amount,
                        s.financed_amount,
                        capital,
                        s.ceiling(),
                    )
                    &&& next == (PoolState {
                        nav: next.nav,
                        total_capital: next.total_capital,
                        financed_amount: next.financed_amount,
                        ..s
                    })
                },
                Err(e) => next == s && {
                    ||| capital < 0 && e == ContractError::NegativeCapital
                    ||| capital >= 0 && issued > 0 && capital * 1_000_000 < issued && e
                        == ContractError::ZeroNav
                },
            }
        }),
{
    let capital = s.capital() + delta;
    let issued = s.issued();
    if capital >= 0 && issued > 0 {
        let a = capital * 1_000_000;
        lemma_floor_division(a, issued);
        if a < issued {
            lemma_floor_is(a, issued, 0);
        } else {
            let q = a / issued;
            assert(q > 0) by (nonlinear_arith)
                requires
                    a >= issued,
                    a < (q + 1) * issued,
                    issued > 0,
            ;
        }
    }
    if s.apply_reserve_delta(delta).1 is Ok {
        let mid = PoolState {
            nav: if issued > 0 {
                Some(s.derived_nav(capital) as i128)
            } else {
                s.nav
            },
            total_capital: Some(capital as i128),
            ..s
        };
        lemma_reclamped(mid);
    }
}

/// Blocking a pool from donating sets the mark and nothing else.
pub proof fn law_set_donor_blocked(s: PoolState, blocked: bool)
    ensures
        s.set_donor_blocked(blocked).donor_blocked == blocked,
        s.set_donor_blocked(blocked) == (PoolState { donor_blocked: blocked, ..s }),
{
}

/// The timelock admin is bound once and is then the one that was named.
pub proof fn law_set_timelock_admin(s: PoolState, admin: Address)
    ensures
        ({
            let (next, r) = s.set_timelock_admin(admin);
            match r {
                Ok(_) => {
                    &&& s.timelock_admin is None
                    &&& next.timelock_admin == Some(admin)
                    &&& next == (PoolState { timelock_admin: next.timelock_admin, ..s })
                },
                Err(e) => next == s && s.timelock_admin is Some && e
                    == ContractError::TimelockAdminAlreadySet,
            }
        }),
{
}

/// A queued change is filed under the next id with the parameter and the value
/// that were asked for, executable 172 800 seconds later, neither executed nor
/// cancelled, and announced; nothing else changes but the next id, which is one
/// higher.
pub proof fn law_queue_parameter_change(s: PoolState, now: u64, param: Symbol, new_value: i128)
    requires
        s.queue_fits(now),
    ensures
        ({
            let (next, r) = s.queue_parameter_change(now, param, new_value);
            match r {
                Ok(id) => {
                    let action = next.actions[ActionKey(id)];
                    &&& s.timelock_admin is Some
                    &&& id == s.next_action && next.next_action == id + 1
                    &&& next.actions == s.actions.insert(ActionKey(id), action)
                    &&& action.id == id && action.param == param && action.new_value == new_value
                    &&& action.queued_at == now && action.execute_after == now + 172_800
                    &&& !action.executed && !action.cancelled
                    &&& next.events == s.events.push(
                        PoolEvent::ActionQueued {
                            id,
                            param,
                            new_value,
                            execute_after: action.execute_after,
                        },
                    )
                    &&& next == (PoolState {
                        next_action: next.next_action,
                        actions: next.actions,
                        events: next.events,
                        ..s
                    })
                },
                Err(e) => next == s && s.timelock_admin is None && e
                    == ContractError::TimelockAdminNotSet,
            }
        }),
{
}

/// The parameter is named `max_ut`.
pub open spec fn names_ceiling(param: Symbol) -> bool {
    param.head == 0x6d61_785f_7574_0000_0000_0000_0000_0000 && param.tail == 0
}

/// Executing a queued change sets the ceiling to the queued value, brings the
/// financed amount down only as far as that ceiling asks for, marks the action
/// as executed and announces it; nothing else changes. It is accepted wherever
/// the action is there, neither cancelled nor executed, its time has come and
/// it names the ceiling.
pub proof fn law_execute_parameter_change(s: PoolState, now: u64, id: u32)
    requires
        s.execute_fits(now, id),
    ensures
        ({
            let (next, r) = s.execute_parameter_change(now, id);
            let key = ActionKey(id);
            let found = s.actions.contains_key(key);
            let action = s.actions[key];
            match r {
                Ok(_) => {
                    &&& found && !action.cancelled && !action.executed
                    &&& now >= action.execute_after && names_ceiling(action.param)
                    &&& next.max_utilisation == Some(action.new_value)
                    &&& brought_down(
                        next.financed_amount,
                        s.financed_amount,
                        s.capital(),
                        action.new_value as int,
                    )
                    &&& next.actions == s.actions.insert(
                        key,
                        QueuedAction { executed: true, ..action },
                    )
                    &&& next.events == s.events.push(
                        PoolEvent::ActionExecuted {
                            id,
                            param: action.param,
                            new_value: action.new_value,
                        },
                    )
                    &&& next == (PoolState {
                        max_utilisation: next.max_utilisation,
                        financed_amount: next.financed_amount,
                        actions: next.actions,
                        events: next.events,
                        ..s
                    })
                },
                Err(e) => next == s && {
                    ||| !found && e == ContractError::ActionNotFound
                    ||| found && action.cancelled && e == ContractError::ActionCancelled
                    ||| found && !action.cancelled && action.executed && e
                        == ContractError::ActionAlreadyExecuted
                    ||| found && !action.cancelled && !action.executed && now
                        < action.execute_after && e == ContractError::TimelockNotElapsed
                    ||| found && !action.cancelled && !action.executed && now
                        >= action.execute_after && !names_ceiling(action.param) && e
                        == ContractError::UnknownParameter
                },
            }
        }),
{
    if s.execute_parameter_change(now, id).1 is Ok {
        let action = s.actions[ActionKey(id)];
        lemma_reclamped(PoolState { max_utilisation: Some(action.new_value), ..s });
    }
}

/// Cancelling marks the action as cancelled and announces it; nothing else
/// changes. It is accepted wherever there is a timelock admin and the action is
/// there, neither executed nor cancelled.
pub proof fn law_cancel_parameter_change(s: PoolState, id: u32)
    ensures
        ({
            let (next, r) = s.cancel_parameter_change(id);
            let key = ActionKey(id);
            let found = s.actions.contains_key(key);
            let action = s.actions[key];
            match r {
                Ok(_) => {
                    &&& s.timelock_admin is Some && found && !action.executed && !action.cancelled
                    &&& next.actions == s.actions.insert(
                        key,
                        QueuedAction { cancelled: true, ..action },
                    )
                    &&& next.events == s.events.push(
                        PoolEvent::ActionCancelled { id, param: action.param },
                    )
                    &&& next == (PoolState { actions: next.actions, events: next.events, ..s })
                },
                Err(e) => next == s && {
                    ||| s.timelock_admin is None && e == ContractError::TimelockAdminNotSet
                    ||| s.timelock_admin is Some && !found && e == ContractError::ActionNotFound
                    ||| s.timelock_admin is Some && found && action.executed && e
                        == ContractError::ActionAlreadyExecuted
                    ||| s.timelock_admin is Some && found && !action.executed && action.cancelled
                        && e == ContractError::ActionAlreadyCancelled
                },
            }
        }),
{
}

/// A timelocked action needs the authorization of the timelock admin, where one
/// is bound, and of nobody else.
pub proof fn law_timelock_authorization(s: PoolState, auth: &Authorization)
    ensures
        s.admin_authorized(auth) <==> (s.timelock_admin matches Some(admin)
            ==> auth.granted@.contains(admin)),
{
}

/// What a pool reports is what it holds, and a rebalance considers the pool
/// that it is started at first and then its peers, in their order.
pub proof fn law_considered(s: PoolState, address: Address, peers: Seq<PoolReport>, i: int)
    ensures
        ({
            let pools = s.considered(address, peers);
            &&& pools.len() == peers.len() + 1
            &&& pools[0].address == address
            &&& pools[0].capital == s.capital()
            &&& pools[0].financed == s.financed()
            &&& pools[0].donor_blocked == s.donor_blocked
            &&& pools[0] == s.report(address)
            &&& 0 <= i < peers.len() ==> pools[i + 1] == peers[i]
        }),
{
}

/// The figures of a report: the reserve is what is not financed, the coverage
/// is its share of the capital in basis points, and the floor is five hundred
/// basis points of the capital; a fraction is cut off.
pub proof fn law_report_figures(p: PoolReport)
    ensures
        p.reserve() == p.capital - p.financed,
        p.capital > 0 && p.capital >= p.financed ==> p.coverage() * p.capital <= (p.capital
            - p.financed) * 10_000 < (p.coverage() + 1) * p.capital,
        p.capital > 0 && p.capital <= p.financed ==> (p.coverage() - 1) * p.capital < (p.capital
            - p.financed) * 10_000 <= p.coverage() * p.capital,
        p.capital >= 0 ==> p.floor() * 10_000 <= p.capital * 500 < (p.floor() + 1) * 10_000,
        p.capital <= 0 ==> (p.floor() - 1) * 10_000 < p.capital * 500 <= p.floor() * 10_000,
        p.in_range() <==> fits(p.capital - p.financed) && (p.capital > 0 ==> fits(
            (p.capital - p.financed) * 10_000,
        )),
{
    let x = p.reserve() * 10_000;
    let (c, k) = (p.capital as int, p.coverage());
    law_quotient_truncates(p.capital * 500, 10_000);
    if c > 0 {
        law_quotient_truncates(x, c);
        assert(c * k == k * c && (k + 1) * c == k * c + c && (k - 1) * c == k * c - c)
            by (nonlinear_arith);
    }
}

/// A pool is below the floor exactly where its reserve is less than five
/// hundred basis points of its capital: that is what makes it needy.
pub proof fn law_needy_is_below_floor(pools: Seq<PoolReport>)
    ensures
        neediest(pools) is Some <==> exists|i: int|
            0 <= i < pools.len() && (#[trigger] pools[i]).capital > 0 && (pools[i].capital
                - pools[i].financed) * 10_000 < 500 * pools[i].capital,
{
    law_neediest(pools);
    assert forall|i: int|
        0 <= i < pools.len() && (#[trigger] pools[i]).capital > 0 implies (pools[i].coverage() < 500
        <==> (pools[i].capital - pools[i].financed) * 10_000 < 500 * pools[i].capital) by {
        let p = pools[i];
        law_report_figures(p);
        let (k, c) = (p.coverage(), p.capital as int);
        if k < 500 {
            assert((k + 1) * c <= 500 * c && k * c < 500 * c) by (nonlinear_arith)
                requires
                    k < 500,
                    c > 0,
            ;
        } else {
            assert(k * c >= 500 * c && (k - 1) * c >= 499 * c) by (nonlinear_arith)
                requires
                    k >= 500,
                    c > 0,
            ;
        }
    }
    if let Some(n) = neediest(pools) {
        assert(pools[n].capital > 0);
    }
}

/// A rebalance moves exactly the smaller of two amounts, and moves it wherever
/// that is positive: what the neediest pool lacks to five hundred basis points
/// of its capital, and half of what the richest pool has above five hundred
/// basis points of its own. It moves from the richest to the neediest, which
/// have to be two pools, and where there is no such pair nothing moves.
pub proof fn law_transfer_amount(pools: Seq<PoolReport>, n: int, d: int)
    requires
        plan_fits(pools),
        neediest(pools) == Some(n),
        richest(pools) == Some(d),
    ensures
        ({
            let (needy, donor) = (pools[n], pools[d]);
            let lacking = needy.capital * 500 / 10_000 - (needy.capital - needy.financed);
            let floor = if donor.capital >= 0 {
                donor.capital * 500 / 10_000
            } else {
                -(-donor.capital * 500 / 10_000)
            };
            let above = donor.capital - donor.financed - floor;
            let most = above * 5_000 / 10_000;
            match planned(pools) {
                Some(t) => {
                    &&& t.donor == donor.address && t.needy == needy.address
                    &&& donor.address != needy.address
                    &&& lacking > 0 && most > 0
                    &&& t.amount == (if lacking <= most {
                        lacking
                    } else {
                        most
                    })
                },
                None => donor.address == needy.address || lacking <= 0 || most <= 0,
            }
        }),
{
    law_neediest(pools);
    law_richest(pools);
    let (needy, donor) = (pools[n], pools[d]);
    let lacking = needy.capital * 500 / 10_000 - (needy.capital - needy.financed);
    assert(shortfall(needy) == lacking);
    let floor = if donor.capital >= 0 {
        donor.capital * 500 / 10_000
    } else {
        -(-donor.capital * 500 / 10_000)
    };
    let above = donor.capital - donor.financed - floor;
    assert(excess(donor) == above);
}

/// Without a needy pool or without a pool that may donate nothing moves.
pub proof fn law_no_pair_no_transfer(pools: Seq<PoolReport>)
    ensures
        neediest(pools) is None || richest(pools) is None ==> planned(pools) is None,
{
}

/// Each side of a transfer: the donor is given the amount off its capital, the
/// needy pool the same amount on top, and every other pool nothing.
pub proof fn law_sides(t: Rebalance, address: Address)
    requires
        t.donor != t.needy,
    ensures
        t.side(t.donor) == -t.amount,
        t.side(t.needy) == t.amount,
        address != t.donor && address != t.needy ==> t.side(address) == 0,
{
}

/// A rebalance applies the starting pool's own side of the planned transfer as
/// a reserve delta, and announces the transfer. Where nothing is planned
/// nothing happens; where the own side is refused, so is the rebalance, with
/// the same error.
pub proof fn law_rebalance(s: PoolState, address: Address, peers: Seq<PoolReport>)
    requires
        s.rebalance_fits(address, peers),
    ensures
        ({
            let (next, r) = s.rebalance_reserves(address, peers);
            match planned(s.considered(address, peers)) {
                None => next == s && r == Ok::<Option<Rebalance>, ContractError>(None),
                Some(t) => {
                    let given = if t.donor == address {
                        s.apply_reserve_delta((-t.amount) as i128)
                    } else if t.needy == address {
                        s.apply_reserve_delta(t.amount)
                    } else {
                        (s, Ok::<(), ContractError>(()))
                    };
                    match given.1 {
                        Ok(_) => {
                            &&& r == Ok::<Option<Rebalance>, ContractError>(Some(t))
                            &&& next == (PoolState {
                                events: s.events.push(
                                    PoolEvent::ReserveRebalanced { transfer: t },
                                ),
                                ..given.0
                            })
                        },
                        Err(e) => next == s && r == Err::<Option<Rebalance>, ContractError>(e),
                    }
                },
            }
        }),
{
}

/// A deposit stays in range exactly where the priced amount, the lender's new
/// position, the new total and what the total is worth do.
pub proof fn law_deposit_range(s: PoolState, lender: Symbol, amount: i128, shares: int)
    requires
        s.inv(),
        s.nav is Some && amount > 0 ==> shares * s.nav->0 <= amount * 1_000_000 < (shares + 1)
            * s.nav->0,
    ensures
        s.deposit_fits(lender, amount) <==> (amount > 0 && s.nav is Some ==> {
            &&& fits(amount * 1_000_000)
            &&& fits(s.shares_of(lender) + shares)
            &&& fits(s.issued() + shares)
            &&& fits((s.issued() + shares) * s.nav->0)
        }),
{
    if amount > 0 && s.nav is Some {
        lemma_floor_is(amount * 1_000_000, s.nav->0 as int, shares);
    }
}

/// A withdrawal stays in range exactly where the worth of the shares, the worth
/// of the remaining ones and the limit on financing do.
pub proof fn law_withdraw_range(s: PoolState, lender: Symbol, shares: i128, capital: int)
    requires
        s.nav is Some ==> capital * 1_000_000 <= (s.issued() - shares) * s.nav->0 < (capital + 1)
            * 1_000_000,
    ensures
        s.withdraw_fits(lender, shares) <==> (0 < shares <= s.shares_of(lender) && s.nav is Some
            ==> {
            &&& fits(shares * s.nav->0)
            &&& fits((s.issued() - shares) * s.nav->0)
            &&& fits(capital * s.ceiling())
        }),
{
    if s.nav is Some {
        lemma_floor_is((s.issued() - shares) * s.nav->0, 1_000_000, capital);
    }
}

/// A financing stays in range exactly where what is then financed and the limit
/// do.
pub proof fn law_finance_range(s: PoolState, amount: i128)
    ensures
        s.finance_fits(amount) <==> (amount > 0 && s.financed_amount is Some
            && s.total_capital is Some && s.max_utilisation is Some ==> fits(
            s.financed() + amount,
        ) && fits(s.capital() * s.ceiling())),
{
}

/// A NAV update stays in range exactly where the worth of the issued shares and
/// the limit on financing do.
pub proof fn law_set_nav_range(s: PoolState, new_nav: i128, capital: int)
    requires
        capital * 1_000_000 <= s.issued() * new_nav < (capital + 1) * 1_000_000,
    ensures
        s.set_nav_fits(new_nav) <==> (new_nav > 0 && s.total_shares is Some
            && s.max_utilisation is Some ==> fits(s.issued() * new_nav) && fits(
            capital * s.ceiling(),
        )),
{
    lemma_floor_is(s.issued() * new_nav, 1_000_000, capital);
}

/// A reserve delta stays in range exactly where the capital, the NAV's
/// dividend and the limit on financing do, as far as each is worked out.
pub proof fn law_reserve_delta_range(s: PoolState, delta: i128)
    requires
        s.inv(),
    ensures
        ({
            let capital = s.capital() + delta;
            let issued = s.issued();
            s.reserve_delta_fits(delta) <==> {
                &&& fits(capital)
                &&& capital >= 0 && issued > 0 ==> fits(capital * 1_000_000)
                &&& capital >= 0 && (issued > 0 ==> capital * 1_000_000 >= issued) ==> fits(
                    capital * s.ceiling(),
                )
            }
        }),
{
    let capital = s.capital() + delta;
    let issued = s.issued();
    if capital >= 0 && issued > 0 {
        let a = capital * 1_000_000;
        lemma_floor_division(a, issued);
        if a < issued {
            lemma_floor_is(a, issued, 0);
        } else {
            let q = a / issued;
            assert(q > 0) by (nonlinear_arith)
                requires
                    a >= issued,
                    a < (q + 1) * issued,
                    issued > 0,
            ;
        }
    }
}

/// A change can be queued as long as there are ids and time left, and executed
/// where the limit that it sets is in range.
pub proof fn law_timelock_range(s: PoolState, now: u64, id: u32)
    ensures
        s.queue_fits(now) <==> (s.timelock_admin is Some ==> s.next_action < 0xffff_ffffu32 && now
            + 172_800 <= 0xffff_ffff_ffff_ffffu64),
        s.execute_fits(now, id) <==> (s.actions.contains_key(ActionKey(id)) && {
            let a = s.actions[ActionKey(id)];
            !a.cancelled && !a.executed && now >= a.execute_after && names_ceiling(a.param)
        } ==> fits(s.capital() * s.actions[ActionKey(id)].new_value)),
{
}

/// The plan of a rebalance stays in range exactly where the floors of the two
/// pools, what the one lacks and what the other has to spare do, as far as each
/// is worked out.
pub proof fn law_plan_range(pools: Seq<PoolReport>)
    ensures
        match (neediest(pools), richest(pools)) {
            (Some(n), Some(d)) => {
                let (needy, donor) = (pools[n], pools[d]);
                let lacking = quotient(needy.capital * 500, 10_000) - (needy.capital
                    - needy.financed);
                let above = donor.capital - donor.financed - quotient(donor.capital * 500, 10_000);
                plan_fits(pools) <==> (needy.address != donor.address ==> {
                    &&& fits(needy.capital * 500)
                    &&& fits(lacking)
                    &&& lacking > 0 ==> {
                        &&& fits(donor.capital * 500)
                        &&& fits(above)
                        &&& above > 0 ==> fits(above * 5_000)
                    }
                })
            },
            _ => plan_fits(pools),
        },
{
}

/// A rebalance stays in range exactly where every report, the plan and the
/// starting pool's own side do.
pub proof fn law_rebalance_range(s: PoolState, address: Address, peers: Seq<PoolReport>)
    ensures
        ({
            let pools = s.considered(address, peers);
            s.rebalance_fits(address, peers) <==> {
                &&& forall|i: int| 0 <= i < pools.len() ==> (#[trigger] pools[i]).in_range()
                &&& plan_fits(pools)
                &&& planned(pools) matches Some(t) ==> {
                    &&& t.donor == address ==> s.reserve_delta_fits((-t.amount) as i128)
                    &&& t.donor != address && t.needy == address ==> s.reserve_delta_fits(t.amount)
                }
            }
        }),
{
}

} // verus!
