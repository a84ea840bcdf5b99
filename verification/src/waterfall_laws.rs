//! What holds of the repayment waterfall: splits add up to what was split,
//! repayments reach the pool, and a tripped circuit breaker stays tripped
//! until the admin resumes.

use vstd::prelude::*;

use crate::ident::{Address, Symbol};
use crate::pedersen::{
    as_unsigned, inverse, law_scaled_parts_add_up, law_scaled_whole, lemma_bps_scale_invertible, scaled,
    BPS_SCALE, P,
};
use crate::pool_laws::balanced;
use crate::pool_manager::{worth, PoolState, NAV_SCALE};
use crate::repayment_waterfall::{
    parts_fit, parts_of, shares_positive, split, total_bps, unsigned_sum, ContractError,
    WaterfallResult, WaterfallState, WaterfallTier, CIRCUIT_BREAKER_WINDOW_SECS,
};

verus! {

/// The commitments alone, without their recipients.
pub open spec fn commitments(parts: Seq<WaterfallResult>) -> Seq<i128> {
    parts.map_values(|p: WaterfallResult| p.commitment)
}

/// The parts of the first tiers add up to the total scaled by their shares.
proof fn lemma_parts_sum(total: int, tiers: Seq<WaterfallTier>)
    ensures
        unsigned_sum(commitments(parts_of(total, tiers))) % (P as int) == scaled(
            total,
            total_bps(tiers),
            BPS_SCALE as int,
        ),
    decreases tiers.len(),
{
    let parts = commitments(parts_of(total, tiers));
    let m = P as int;
    if tiers.len() == 0 {
        assert(total * 0 == 0);
        assert(0 * inverse(BPS_SCALE as int, m) == 0);
    } else {
        let rest = tiers.drop_last();
        lemma_parts_sum(total, rest);
        assert(parts.drop_last() =~= commitments(parts_of(total, rest)));
        let last = scaled(total, tiers.last().share_bps as int, BPS_SCALE as int);
        assert(parts.last() == last);
        let sum = unsigned_sum(parts.drop_last());
        vstd::arithmetic::div_mod::lemma_add_mod_noop(sum, last, m);
        vstd::arithmetic::div_mod::lemma_small_mod(last as nat, m as nat);
        law_scaled_parts_add_up(
            total,
            total_bps(rest),
            tiers.last().share_bps as int,
            BPS_SCALE as int,
        );
    }
}

/// The parts of a split add up to what was split: whatever the total and the
/// tiers, a split that is accepted passes `verify_split` against its total.
pub proof fn law_split_adds_up(total: i128, tiers: Seq<WaterfallTier>)
    ensures
        split(total as int, tiers) matches Ok(parts) ==> {
            &&& parts_fit(commitments(parts))
            &&& unsigned_sum(commitments(parts)) % (P as int) == total as int % (P as int)
        },
{
    if let Ok(parts) = split(total as int, tiers) {
        lemma_parts_sum(total as int, tiers);
        lemma_bps_scale_invertible();
        law_scaled_whole(total as int, BPS_SCALE as int);
        let c = commitments(parts);
        assert forall|k: int| 0 <= k < c.len() implies unsigned_sum(#[trigger] c.take(k)) % (
        P as int) + as_unsigned(c[k] as int) <= u128::MAX by {
            let part = scaled(total as int, tiers[k].share_bps as int, BPS_SCALE as int);
            assert(c[k] == part);
            vstd::arithmetic::div_mod::lemma_mod_division_less_than_divisor(
                unsigned_sum(c.take(k)),
                P as int,
            );
        }
    }
}

/// A split is accepted exactly where every share is positive and they add up
/// to one whole; then every recipient gets one part, in the tiers' order.
pub proof fn law_split_accepted(total: int, tiers: Seq<WaterfallTier>)
    ensures
        split(total, tiers) is Ok <==> shares_positive(tiers) && total_bps(tiers) == BPS_SCALE,
        split(total, tiers) matches Ok(parts) ==> parts.len() == tiers.len() && forall|i: int|
            0 <= i < parts.len() ==> (#[trigger] parts[i]).recipient == tiers[i].recipient,
{
}

/// A repayment is passed on to the pool in full: crediting it raises the
/// pool's capital by the amount, and lowers the NAV of no pool whose capital is
/// what its shares are worth.
pub proof fn law_repayment_reaches_pool(w: WaterfallState, pool: PoolState, amount: i128)
    requires
        w.process_repayment(amount) is Ok,
        pool.inv(),
        pool.admin is Some,
        pool.reserve_delta_fits(amount),
        pool.apply_reserve_delta(w.process_repayment(amount)->Ok_0.delta).1 is Ok,
    ensures
        ({
            let next = pool.apply_reserve_delta(w.process_repayment(amount)->Ok_0.delta).0;
            &&& w.pool_manager == Some(w.process_repayment(amount)->Ok_0.pool_manager)
            &&& next.capital() == pool.capital() + amount
            &&& balanced(pool) ==> next.nav->0 >= pool.nav->0
        }),
{
    let nav = pool.nav->0 as int;
    let issued = pool.issued();
    if balanced(pool) && issued > 0 {
        let a = (pool.capital() + amount) * NAV_SCALE;
        let b = issued * nav;
        assert(b >= 0) by (nonlinear_arith)
            requires
                issued > 0,
                nav > 0,
                b == issued * nav,
        ;
        assert(b < (b / (NAV_SCALE as int)) * NAV_SCALE + NAV_SCALE);
        assert(b <= a);
        vstd::arithmetic::div_mod::lemma_div_is_ordered(b, a, issued);
        assert(b / issued == nav) by {
            assert(b == nav * issued) by (nonlinear_arith)
                requires
                    b == issued * nav,
            ;
            vstd::arithmetic::div_mod::lemma_div_multiples_vanish(nav, issued);
            assert(nav * issued == issued * nav) by (nonlinear_arith);
        }
        vstd::arithmetic::div_mod::lemma_div_is_ordered_by_denominator(a, 1, issued);
    }
}

/// A call that changes a waterfall.
pub ghost enum WaterfallCall {
    Initialize { admin: Symbol, pool_manager: Address },
    RecordDefault { now: u64, amount: i128 },
    SetThreshold { threshold: i128 },
    Resume { now: u64 },
}

/// The state that a call leaves.
pub open spec fn after(w: WaterfallState, call: WaterfallCall) -> WaterfallState {
    match call {
        WaterfallCall::Initialize { admin, pool_manager } => w.initialize(admin, pool_manager).0,
        WaterfallCall::RecordDefault { now, amount } => w.record_default(now, amount),
        WaterfallCall::SetThreshold { threshold } => w.set_circuit_breaker_threshold(threshold),
        WaterfallCall::Resume { now } => w.resume_processing(now),
    }
}

/// Only a resumption ends a pause, and only a default starts one: where the
/// volume of the window has reached the threshold.
pub proof fn law_pause(w: WaterfallState, call: WaterfallCall)
    ensures
        w.paused && !after(w, call).paused ==> call is Resume,
        !w.paused && after(w, call).paused ==> call is RecordDefault && w.threshold is Some
            && after(w, call).volume() >= w.threshold->0,
        call is Resume ==> !after(w, call).paused && after(w, call).volume() == 0,
{
}

/// A default that brings the window's volume to the threshold trips the
/// breaker, and one below it leaves the breaker as it was.
pub proof fn law_breaker_trips_at_threshold(w: WaterfallState, now: u64, amount: i128)
    requires
        w.inv(),
        amount > 0,
        w.default_fits(now, amount),
    ensures
        ({
            let next = w.record_default(now, amount);
            &&& next.inv()
            &&& next.volume() == (if w.window_over(now) {
                amount as int
            } else {
                w.volume() + amount
            })
            &&& next.paused == (w.paused || (w.threshold matches Some(t) && next.volume() >= t))
        }),
{
}

/// A window lasts 24 hours: defaults within it add up, and the first default
/// at or after its end starts a new one.
pub proof fn law_window_lasts_a_day(
    w: WaterfallState,
    first: u64,
    x: i128,
    second: u64,
    y: i128,
)
    requires
        w.default_record is None,
        x > 0,
        y > 0,
        x + y <= i128::MAX,
    ensures
        ({
            let next = w.record_default(first, x).record_default(second, y);
            &&& second < first + CIRCUIT_BREAKER_WINDOW_SECS ==> next.volume() == x + y
            &&& second >= first + CIRCUIT_BREAKER_WINDOW_SECS ==> next.volume() == y
        }),
{
}

/// The waterfall is initialized at most once: admin and pool manager stay.
pub proof fn law_initialized_once(w: WaterfallState, call: WaterfallCall)
    requires
        w.admin is Some,
    ensures
        after(w, call).admin == w.admin,
        after(w, call).pool_manager == w.pool_manager,
        call matches WaterfallCall::Initialize { admin, pool_manager } ==> w.initialize(
            admin,
            pool_manager,
        ) == (w, Err::<(), ContractError>(ContractError::AlreadyInitialized)),
{
}

} // verus!
