//! What each call does to the repayment waterfall, told by its numbers: which
//! part of a committed total a tier gets, where a repayment goes, and when the
//! circuit breaker trips.

use vstd::prelude::*;

use crate::arith::fits;
use crate::ident::{Address, Symbol};
use crate::pedersen::{as_unsigned, law_scaled_solves, scaled, BPS_SCALE};
use crate::repayment_waterfall::{
    parts_fit, shares_fit, shares_positive, split, total_bps, unsigned_sum, ContractError,
    DefaultRecord, RepaymentWaterfall, WaterfallEvent, WaterfallState, WaterfallTier,
};

verus! {

/// A waterfall is seen as what its fields hold.
pub proof fn law_view(w: RepaymentWaterfall)
    ensures
        w@.admin == w.admin,
        w@.pool_manager == w.pool_manager,
        w@.default_record == w.default_record,
        w@.threshold == w.threshold,
        w@.paused == w.paused,
        w@.events == w.events@,
{
}

/// A new waterfall is not initialized, has no defaults and no threshold, and is
/// not paused.
pub proof fn law_new_waterfall()
    ensures
        ({
            let w = WaterfallState::empty();
            &&& w.admin is None && w.pool_manager is None && w.default_record is None
            &&& w.threshold is None && !w.paused && w.events == Seq::<WaterfallEvent>::empty()
        }),
{
}

/// Each tier gets its own share of what is split, under its own recipient: ten
/// thousand times the part is, in the field, the total times the tier's share
/// in basis points. There is one part for each tier, in their order.
pub proof fn law_part_is_the_tiers_share(total: int, tiers: Seq<WaterfallTier>, i: int)
    requires
        0 <= i < tiers.len(),
        split(total, tiers) is Ok,
    ensures
        ({
            let parts = split(total, tiers)->Ok_0;
            &&& parts.len() == tiers.len()
            &&& parts[i].recipient == tiers[i].recipient
            &&& 0 <= parts[i].commitment < 0x7fff_ffff_ffff_ffff_ffff_ffff_ffff_ffffint
            &&& (10_000 * parts[i].commitment - total * tiers[i].share_bps)
                % 0x7fff_ffff_ffff_ffff_ffff_ffff_ffff_ffffint == 0
        }),
{
    law_scaled_solves(total, tiers[i].share_bps as int, 10_000);
    let part = scaled(total, tiers[i].share_bps as int, BPS_SCALE as int);
    assert(split(total, tiers)->Ok_0[i].commitment == part);
}

/// Tiers with the same share get the same part, wherever they stand.
pub proof fn law_same_share_same_part(total: int, tiers: Seq<WaterfallTier>, i: int, j: int)
    requires
        0 <= i < tiers.len(),
        0 <= j < tiers.len(),
        split(total, tiers) is Ok,
        tiers[i].share_bps == tiers[j].share_bps,
    ensures
        split(total, tiers)->Ok_0[i].commitment == split(total, tiers)->Ok_0[j].commitment,
{
}

/// A split is refused exactly where some tier's share is not positive, or else
/// where the shares do not add up to ten thousand.
pub proof fn law_split_refused(total: int, tiers: Seq<WaterfallTier>)
    ensures
        ({
            let positive = forall|i: int|
                0 <= i < tiers.len() ==> (#[trigger] tiers[i]).share_bps > 0;
            match split(total, tiers) {
                Ok(_) => positive && total_bps(tiers) == 10_000,
                Err(e) => {
                    ||| !positive && e == ContractError::InvalidTierShare
                    ||| positive && total_bps(tiers) != 10_000 && e
                        == ContractError::InvalidBpsSum
                },
            }
        }),
{
}

/// Shares are added up one by one, none left out.
pub proof fn law_shares_add_up(tiers: Seq<WaterfallTier>, last: WaterfallTier)
    ensures
        total_bps(Seq::empty()) == 0,
        total_bps(tiers.push(last)) == total_bps(tiers) + last.share_bps,
{
    assert(tiers.push(last).drop_last() =~= tiers);
}

/// Adding shares up stays in range exactly where it does for the tiers before
/// the last and, as long as no share so far was refused, with the last.
pub proof fn law_shares_range(tiers: Seq<WaterfallTier>, last: WaterfallTier)
    ensures
        shares_fit(Seq::empty()),
        shares_fit(tiers.push(last)) <==> shares_fit(tiers) && ((forall|i: int|
            0 <= i < tiers.len() ==> (#[trigger] tiers[i]).share_bps > 0) && last.share_bps > 0
            ==> fits(total_bps(tiers) + last.share_bps)),
{
    let all = tiers.push(last);
    let n = tiers.len() as int;
    assert(Seq::<WaterfallTier>::empty().take(0) =~= Seq::empty());
    law_shares_add_up(tiers, last);
    assert(all.take(n + 1) =~= all);
    assert forall|k: int| 0 <= k <= n implies #[trigger] all.take(k) == tiers.take(k) by {
        assert(all.take(k) =~= tiers.take(k));
    }
    assert(shares_positive(all) <==> shares_positive(tiers) && last.share_bps > 0) by {
        if shares_positive(all) {
            assert(all[n].share_bps > 0);
            assert forall|i: int| 0 <= i < n implies (#[trigger] tiers[i]).share_bps > 0 by {
                assert(all[i].share_bps > 0);
            }
        }
    }
    if shares_fit(all) {
        assert forall|k: int| 0 <= k <= n && shares_positive(tiers.take(k)) implies fits(
            total_bps(#[trigger] tiers.take(k)),
        ) by {
            assert(all.take(k) == tiers.take(k));
        }
        assert(shares_positive(all) ==> fits(total_bps(all.take(n + 1))));
    }
    if shares_fit(tiers) && (shares_positive(all) ==> fits(total_bps(all))) {
        assert forall|k: int| 0 <= k <= n + 1 && shares_positive(all.take(k)) implies fits(
            total_bps(#[trigger] all.take(k)),
        ) by {
            if k <= n {
                assert(all.take(k) == tiers.take(k));
            }
        }
    }
}

/// Parts are added up one by one, none left out, each by its bits.
pub proof fn law_parts_add_up(parts: Seq<i128>, last: i128)
    ensures
        unsigned_sum(Seq::empty()) == 0,
        unsigned_sum(parts.push(last)) == unsigned_sum(parts) + as_unsigned(last as int),
{
    assert(parts.push(last).drop_last() =~= parts);
}

/// Adding parts up stays in range exactly where it does for the parts before
/// the last and with the last, on what is left of them in the field.
pub proof fn law_parts_range(parts: Seq<i128>, last: i128)
    ensures
        parts_fit(Seq::empty()),
        parts_fit(parts.push(last)) <==> parts_fit(parts) && unsigned_sum(parts)
            % 0x7fff_ffff_ffff_ffff_ffff_ffff_ffff_ffffint + as_unsigned(last as int)
            <= 0xffff_ffff_ffff_ffff_ffff_ffff_ffff_ffffint,
{
    let all = parts.push(last);
    let n = parts.len() as int;
    assert(all.take(n) =~= parts);
    assert forall|k: int| 0 <= k < n implies #[trigger] all.take(k) == parts.take(k) by {
        assert(all.take(k) =~= parts.take(k));
    }
    let m = 0x7fff_ffff_ffff_ffff_ffff_ffff_ffff_ffffint;
    if parts_fit(all) {
        assert forall|k: int| 0 <= k < n implies unsigned_sum(#[trigger] parts.take(k)) % m
            + as_unsigned(parts[k] as int) <= u128::MAX by {
            assert(all.take(k) == parts.take(k) && all[k] == parts[k]);
        }
        assert(unsigned_sum(all.take(n)) % m + as_unsigned(all[n] as int) <= u128::MAX);
    }
    if parts_fit(parts) && unsigned_sum(parts) % m + as_unsigned(last as int) <= u128::MAX {
        assert forall|k: int| 0 <= k < all.len() implies unsigned_sum(#[trigger] all.take(k)) % m
            + as_unsigned(all[k] as int) <= u128::MAX by {
            if k < n {
                assert(all.take(k) == parts.take(k) && all[k] == parts[k]);
            }
        }
    }
}

/// `initialize` names the admin and the pool manager, once, and changes nothing
/// else.
pub proof fn law_initialize(w: WaterfallState, admin: Symbol, pool_manager: Address)
    ensures
        ({
            let (next, r) = w.initialize(admin, pool_manager);
            match r {
                Ok(_) => {
                    &&& w.admin is None
                    &&& next.admin == Some(admin) && next.pool_manager == Some(pool_manager)
                    &&& next == (WaterfallState {
                        admin: next.admin,
                        pool_manager: next.pool_manager,
                        ..w
                    })
                },
                Err(e) => next == w && w.admin is Some && e == ContractError::AlreadyInitialized,
            }
        }),
{
}

/// A repayment is passed on in full, to the pool manager that was named. It is
/// accepted wherever the amount is positive and a pool manager was named.
pub proof fn law_process_repayment(w: WaterfallState, amount: i128)
    ensures
        match w.process_repayment(amount) {
            Ok(credit) => amount > 0 && w.pool_manager == Some(credit.pool_manager) && credit.delta
                == amount,
            Err(e) => {
                ||| amount <= 0 && e == ContractError::InvalidAmount
                ||| amount > 0 && w.pool_manager is None && e
                    == ContractError::PoolManagerNotConfigured
            },
        },
{
}

/// A default is added to the running window, or starts a new one at `now`
/// where there is none or the last one began 86 400 seconds ago or earlier. The
/// breaker trips, and is announced, exactly where a threshold is set and the
/// volume reaches it; a pause is never ended. Nothing else changes.
pub proof fn law_record_default(w: WaterfallState, now: u64, amount: i128)
    requires
        w.inv(),
        amount > 0,
        w.default_fits(now, amount),
    ensures
        ({
            let next = w.record_default(now, amount);
            let new_window = w.default_record is None || now >= w.default_record->0.window_start
                + 86_400;
            let record = next.default_record->0;
            let trips = w.threshold is Some && record.volume >= w.threshold->0;
            &&& next.default_record is Some
            &&& new_window ==> record.window_start == now && record.volume == amount
            &&& !new_window ==> record.window_start == w.default_record->0.window_start
                && record.volume == w.default_record->0.volume + amount
            &&& next.paused == (w.paused || trips)
            &&& trips ==> next.events == w.events.push(
                WaterfallEvent::CircuitBreakerTripped {
                    volume: record.volume,
                    threshold: w.threshold->0,
                },
            )
            &&& !trips ==> next.events == w.events
            &&& next == (WaterfallState {
                default_record: next.default_record,
                paused: next.paused,
                events: next.events,
                ..w
            })
        }),
{
}

/// Recording a default stays in range exactly where the volume does.
pub proof fn law_default_range(w: WaterfallState, now: u64, amount: i128)
    ensures
        w.default_fits(now, amount) <==> (match w.default_record {
            Some(record) => now < record.window_start + 86_400 ==> fits(record.volume + amount),
            None => fits(amount as int),
        }),
        w.volume() == (match w.default_record {
            Some(record) => record.volume as int,
            None => 0,
        }),
{
}

/// Setting the threshold sets just that; resuming ends the pause and starts an
/// empty window at `now`, and leaves the threshold and everything else alone.
pub proof fn law_threshold_and_resume(w: WaterfallState, threshold: i128, now: u64)
    ensures
        w.set_circuit_breaker_threshold(threshold).threshold == Some(threshold),
        w.set_circuit_breaker_threshold(threshold) == (WaterfallState {
            threshold: Some(threshold),
            ..w
        }),
        ({
            let next = w.resume_processing(now);
            &&& !next.paused
            &&& next.default_record == Some(DefaultRecord { window_start: now, volume: 0 })
            &&& next == (WaterfallState {
                paused: false,
                default_record: next.default_record,
                ..w
            })
        }),
{
}

} // verus!
