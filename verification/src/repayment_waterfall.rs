//! Repayment routing: confidential splits of a committed total across tiers,
//! repayments credited to the pool, and a circuit breaker on surging defaults.

use vstd::prelude::*;

use crate::arith::{fits, sum_fits};
use crate::ident::{Address, Symbol};
use crate::pedersen::{
    as_unsigned, find_inverse, inverse, invertible, lemma_bps_scale_invertible, mod_mul, reduce_u128, scaled, unsigned_bits, BPS_SCALE, P, P_U128,
};

verus! {

/// What the waterfall refuses a call for.
#[derive(Clone, Copy, Debug, PartialEq, Eq, PartialOrd, Ord, Structural)]
pub enum ContractError {
    /// `initialize` called on an already initialized contract.
    AlreadyInitialized,
    /// A repayment amount was not strictly positive.
    InvalidAmount,
    /// `process_repayment` was called before `initialize` named a pool manager.
    PoolManagerNotConfigured,
    /// A tier's share was not strictly positive.
    InvalidTierShare,
    /// The tiers' shares did not add up to exactly 10_000 basis points.
    InvalidBpsSum,
    /// A scale has no inverse modulo `P`.
    ScaleNotInvertible,
}

/// Length of the default-volume window, in seconds: 24 hours.
pub const CIRCUIT_BREAKER_WINDOW_SECS: u64 = 86_400;

/// Who gets which share of a repayment.
#[derive(Clone, Copy, Debug, PartialEq, Eq, Structural)]
pub struct WaterfallTier {
    pub recipient: Symbol,
    pub share_bps: i128,
}

/// A recipient's part of a committed total.
#[derive(Clone, Copy, Debug, PartialEq, Eq, Structural)]
pub struct WaterfallResult {
    pub recipient: Symbol,
    pub commitment: i128,
}

/// The default volume of the current window.
#[derive(Clone, Copy, Debug, PartialEq, Eq, Structural)]
pub struct DefaultRecord {
    pub window_start: u64,
    pub volume: i128,
}

/// A credit that the pool manager at `pool_manager` has to be given through
/// its `apply_reserve_delta`.
#[derive(Clone, Copy, Debug, PartialEq, Eq, Structural)]
pub struct ReserveCredit {
    pub pool_manager: Address,
    pub delta: i128,
}

/// What the waterfall announces.
#[derive(Clone, Copy, Debug, PartialEq, Eq, Structural)]
pub enum WaterfallEvent {
    CircuitBreakerTripped { volume: i128, threshold: i128 },
}

/// The inverse of `a` modulo `m`.
pub fn mod_inverse(a: i128, m: i128) -> (r: Result<i128, ContractError>)
    requires
        m > 0,
    ensures
        r == (if invertible(a as int, m as int) {
            Ok(inverse(a as int, m as int) as i128)
        } else {
            Err(ContractError::ScaleNotInvertible)
        }),
        r matches Ok(x) ==> x == inverse(a as int, m as int),
{
    match find_inverse(a, m) {
        Some(x) => Ok(x),
        None => Err(ContractError::ScaleNotInvertible),
    }
}

/// Scales a commitment modulo `P` by the rational factor `scalar / scale`.
pub fn scale_commitment(c: i128, scalar: i128, scale: i128) -> (r: Result<i128, ContractError>)
    ensures
        r == (if invertible(scale as int, P as int) {
            Ok(scaled(c as int, scalar as int, scale as int) as i128)
        } else {
            Err(ContractError::ScaleNotInvertible)
        }),
        0 <= scaled(c as int, scalar as int, scale as int) < P,
{
    let product: i128 = mod_mul(c, scalar, P);
    match mod_inverse(scale, P) {
        Ok(inv) => {
            proof {
                vstd::arithmetic::div_mod::lemma_mul_mod_noop_left(
                    c * scalar,
                    inv as int,
                    P as int,
                );
            }
            Ok(mod_mul(product, inv, P))
        },
        Err(e) => Err(e),
    }
}

/// The sum of the tiers' shares.
pub open spec fn total_bps(tiers: Seq<WaterfallTier>) -> int
    decreases tiers.len(),
{
    if tiers.len() == 0 {
        0
    } else {
        total_bps(tiers.drop_last()) + tiers.last().share_bps
    }
}

/// Every tier has a positive share.
pub open spec fn shares_positive(tiers: Seq<WaterfallTier>) -> bool {
    forall|i: int| 0 <= i < tiers.len() ==> (#[trigger] tiers[i]).share_bps > 0
}

/// Adding the shares up, as far as they are positive, stays in range.
pub open spec fn shares_fit(tiers: Seq<WaterfallTier>) -> bool {
    forall|k: int|
        0 <= k <= tiers.len() && shares_positive(tiers.take(k)) ==> fits(
            total_bps(#[trigger] tiers.take(k)),
        )
}

/// Each recipient's part of the committed `total`.
pub open spec fn parts_of(total: int, tiers: Seq<WaterfallTier>) -> Seq<WaterfallResult> {
    Seq::new(
        tiers.len(),
        |i: int|
            WaterfallResult {
                recipient: tiers[i].recipient,
                commitment: scaled(total, tiers[i].share_bps as int, BPS_SCALE as int) as i128,
            },
    )
}

/// What splitting `total` across `tiers` gives.
pub open spec fn split(total: int, tiers: Seq<WaterfallTier>) -> Result<
    Seq<WaterfallResult>,
    ContractError,
> {
    if !shares_positive(tiers) {
        Err(ContractError::InvalidTierShare)
    } else if total_bps(tiers) != BPS_SCALE {
        Err(ContractError::InvalidBpsSum)
    } else {
        Ok(parts_of(total, tiers))
    }
}

/// The sum of the parts, each taken by its bits as an unsigned number.
pub open spec fn unsigned_sum(parts: Seq<i128>) -> int
    decreases parts.len(),
{
    if parts.len() == 0 {
        0
    } else {
        unsigned_sum(parts.drop_last()) + as_unsigned(parts.last() as int)
    }
}

/// Adding the parts up, reduced after each, stays in range. It does wherever
/// no part is negative.
pub open spec fn parts_fit(parts: Seq<i128>) -> bool {
    forall|k: int|
        0 <= k < parts.len() ==> unsigned_sum(#[trigger] parts.take(k)) % (P as int) + as_unsigned(
            parts[k] as int,
        ) <= u128::MAX
}

/// The state of a waterfall as the contracts speak of it. A field that was
/// never written is `None`.
#[verifier::ext_equal]
pub struct WaterfallState {
    pub admin: Option<Symbol>,
    pub pool_manager: Option<Address>,
    pub default_record: Option<DefaultRecord>,
    pub threshold: Option<i128>,
    pub paused: bool,
    pub events: Seq<WaterfallEvent>,
}

impl WaterfallState {
    /// A waterfall before any call.
    pub open spec fn empty() -> WaterfallState {
        WaterfallState {
            admin: None,
            pool_manager: None,
            default_record: None,
            threshold: None,
            paused: false,
            events: Seq::empty(),
        }
    }

    /// The pool manager is named together with the admin, the default volume
    /// is not negative, and a threshold that is set is positive.
    pub open spec fn inv(self) -> bool {
        &&& self.admin is Some == self.pool_manager is Some
        &&& self.default_record matches Some(record) ==> record.volume >= 0
        &&& self.threshold matches Some(threshold) ==> threshold > 0
    }

    /// The default volume of the current window.
    pub open spec fn volume(self) -> int {
        match self.default_record {
            Some(record) => record.volume as int,
            None => 0,
        }
    }

    pub open spec fn initialize(self, admin: Symbol, pool_manager: Address) -> (
        WaterfallState,
        Result<(), ContractError>,
    ) {
        if self.admin is Some {
            (self, Err(ContractError::AlreadyInitialized))
        } else {
            (
                WaterfallState {
                    admin: Some(admin),
                    pool_manager: Some(pool_manager),
                    ..self
                },
                Ok(()),
            )
        }
    }

    /// The credit that a repayment of `amount` is passed on as.
    pub open spec fn process_repayment(self, amount: i128) -> Result<ReserveCredit, ContractError> {
        if amount <= 0 {
            Err(ContractError::InvalidAmount)
        } else {
            match self.pool_manager {
                Some(pool_manager) => Ok(ReserveCredit { pool_manager, delta: amount }),
                None => Err(ContractError::PoolManagerNotConfigured),
            }
        }
    }

    /// The window has run for its whole length by `now`.
    pub open spec fn window_over(self, now: u64) -> bool {
        self.default_record matches Some(record) && now - record.window_start
            >= CIRCUIT_BREAKER_WINDOW_SECS
    }

    /// The record after a default of `amount`: a new window where the last one
    /// is over, the running one with the amount added otherwise.
    pub open spec fn accumulated(self, now: u64, amount: i128) -> DefaultRecord {
        match self.default_record {
            Some(record) if !self.window_over(now) => DefaultRecord {
                volume: (record.volume + amount) as i128,
                ..record
            },
            _ => DefaultRecord { window_start: now, volume: amount },
        }
    }

    pub open spec fn record_default(self, now: u64, amount: i128) -> WaterfallState {
        let record = self.accumulated(now, amount);
        let next = WaterfallState { default_record: Some(record), ..self };
        match self.threshold {
            Some(threshold) if record.volume >= threshold => WaterfallState {
                paused: true,
                events: self.events.push(
                    WaterfallEvent::CircuitBreakerTripped { volume: record.volume, threshold },
                ),
                ..next
            },
            _ => next,
        }
    }

    /// Recording a default stays in range.
    pub open spec fn default_fits(self, now: u64, amount: i128) -> bool {
        !self.window_over(now) ==> fits(self.volume() + amount)
    }

    pub open spec fn set_circuit_breaker_threshold(self, threshold: i128) -> WaterfallState {
        WaterfallState { threshold: Some(threshold), ..self }
    }

    pub open spec fn resume_processing(self, now: u64) -> WaterfallState {
        WaterfallState {
            paused: false,
            default_record: Some(DefaultRecord { window_start: now, volume: 0 }),
            ..self
        }
    }
}

/// Priority repayment routing. Everything it stores is in its fields, with
/// `None` for what was never written; `events` holds what it has announced and
/// the ledger has not taken yet.
pub struct RepaymentWaterfall {
    pub admin: Option<Symbol>,
    pub pool_manager: Option<Address>,
    pub default_record: Option<DefaultRecord>,
    pub threshold: Option<i128>,
    pub paused: bool,
    pub events: Vec<WaterfallEvent>,
}

impl View for RepaymentWaterfall {
    type V = WaterfallState;

    open spec fn view(&self) -> WaterfallState {
        WaterfallState {
            admin: self.admin,
            pool_manager: self.pool_manager,
            default_record: self.default_record,
            threshold: self.threshold,
            paused: self.paused,
            events: self.events@,
        }
    }
}

impl RepaymentWaterfall {
    pub open spec fn wf(&self) -> bool {
        self@.inv()
    }

    /// A waterfall before any call.
    pub fn new() -> (w: RepaymentWaterfall)
        ensures
            w.wf(),
            w@ == WaterfallState::empty(),
    {
        let w = RepaymentWaterfall {
            admin: None,
            pool_manager: None,
            default_record: None,
            threshold: None,
            paused: false,
            events: Vec::new(),
        };
        assert(w@ =~= WaterfallState::empty());
        w
    }

    /// One-time initialization. `pool_manager` is the contract that repayments
    /// are passed on to.
    pub fn initialize(&mut self, admin: Symbol, pool_manager: Address) -> (r: Result<
        (),
        ContractError,
    >)
        requires
            old(self).wf(),
        ensures
            final(self).wf(),
            (final(self)@, r) == old(self)@.initialize(admin, pool_manager),
    {
        if self.admin.is_some() {
            return Err(ContractError::AlreadyInitialized);
        }
        self.admin = Some(admin);
        self.pool_manager = Some(pool_manager);
        Ok(())
    }

    /// Splits a committed total across tiers by basis points. Processing must
    /// not be paused.
    pub fn split_commitment(&self, total_commitment: i128, tiers: &Vec<WaterfallTier>) -> (r:
        Result<Vec<WaterfallResult>, ContractError>)
        requires
            !self@.paused,
            shares_fit(tiers@),
        ensures
            match r {
                Ok(parts) => split(total_commitment as int, tiers@) == Ok::<_, ContractError>(
                    parts@,
                ),
                Err(e) => split(total_commitment as int, tiers@) == Err::<
                    Seq<WaterfallResult>,
                    ContractError,
                >(e),
            },
    {
        let mut sum_bps: i128 = 0;
        let mut i: usize = 0;
        while i < tiers.len()
            invariant
                i <= tiers@.len(),
                shares_fit(tiers@),
                shares_positive(tiers@.take(i as int)),
                sum_bps == total_bps(tiers@.take(i as int)),
            decreases tiers@.len() - i,
        {
            if tiers[i].share_bps <= 0 {
                assert(!shares_positive(tiers@));
                return Err(ContractError::InvalidTierShare);
            }
            let ghost next = tiers@.take(i + 1);
            assert(next.drop_last() =~= tiers@.take(i as int));
            assert(shares_positive(next)) by {
                assert forall|j: int| 0 <= j < next.len() implies (
                #[trigger] next[j]).share_bps > 0 by {
                    if j < i {
                        assert(next[j] == tiers@.take(i as int)[j]);
                    }
                }
            }
            assert(fits(total_bps(next)));
            sum_bps += tiers[i].share_bps;
            i += 1;
        }
        assert(tiers@.take(i as int) =~= tiers@);
        if sum_bps != BPS_SCALE {
            return Err(ContractError::InvalidBpsSum);
        }
        proof {
            lemma_bps_scale_invertible();
        }
        let mut results: Vec<WaterfallResult> = Vec::new();
        let mut j: usize = 0;
        while j < tiers.len()
            invariant
                j <= tiers@.len(),
                invertible(BPS_SCALE as int, P as int),
                results@ == parts_of(total_commitment as int, tiers@).take(j as int),
            decreases tiers@.len() - j,
        {
            match scale_commitment(total_commitment, tiers[j].share_bps, BPS_SCALE) {
                Ok(commitment) => {
                    results.push(WaterfallResult { recipient: tiers[j].recipient, commitment });
                },
                Err(e) => {
                    return Err(e);
                },
            }
            assert(results@ =~= parts_of(total_commitment as int, tiers@).take(j + 1));
            j += 1;
        }
        assert(results@ =~= parts_of(total_commitment as int, tiers@));
        Ok(results)
    }

    /// Whether the parts add up to the total modulo `P`, without knowing any
    /// committed value.
    pub fn verify_split(parts: &Vec<i128>, total: i128) -> (r: bool)
        requires
            parts_fit(parts@),
        ensures
            r == (unsigned_sum(parts@) % (P as int) == total as int % (P as int)),
    {
        let mut sum: u128 = 0;
        let mut i: usize = 0;
        while i < parts.len()
            invariant
                i <= parts@.len(),
                parts_fit(parts@),
                sum == unsigned_sum(parts@.take(i as int)) % (P as int),
                sum < P_U128,
            decreases parts@.len() - i,
        {
            let ghost next = parts@.take(i + 1);
            assert(next.drop_last() =~= parts@.take(i as int));
            let part: u128 = unsigned_bits(parts[i]);
            proof {
                let before = unsigned_sum(parts@.take(i as int));
                assert(before % (P as int) + as_unsigned(parts@[i as int] as int) <= u128::MAX);
                vstd::arithmetic::div_mod::lemma_add_mod_noop_right(
                    part as int,
                    before,
                    P as int,
                );
            }
            sum = reduce_u128(sum + part);
            i += 1;
        }
        assert(parts@.take(i as int) =~= parts@);
        let whole: i128 = total.checked_rem_euclid(P).unwrap();
        sum as i128 == whole
    }

    /// Whether adding the tiers' shares up stays in range.
    pub fn shares_in_range(tiers: &Vec<WaterfallTier>) -> (r: bool)
        ensures
            r == shares_fit(tiers@),
    {
        let mut sum_bps: i128 = 0;
        let mut i: usize = 0;
        assert(tiers@.take(0) =~= Seq::empty());
        while i < tiers.len()
            invariant
                i <= tiers@.len(),
                shares_positive(tiers@.take(i as int)),
                sum_bps == total_bps(tiers@.take(i as int)),
                forall|k: int| 0 <= k <= i ==> fits(total_bps(#[trigger] tiers@.take(k))),
            decreases tiers@.len() - i,
        {
            let ghost next = tiers@.take(i + 1);
            assert(next.drop_last() =~= tiers@.take(i as int));
            if tiers[i].share_bps <= 0 {
                proof {
                    assert forall|k: int| i < k <= tiers@.len() implies !shares_positive(
                        #[trigger] tiers@.take(k),
                    ) by {
                        assert(tiers@.take(k)[i as int] == tiers@[i as int]);
                    }
                }
                return true;
            }
            assert(shares_positive(next)) by {
                assert forall|j: int| 0 <= j < next.len() implies (
                #[trigger] next[j]).share_bps > 0 by {
                    if j < i {
                        assert(next[j] == tiers@.take(i as int)[j]);
                    }
                }
            }
            if !sum_fits(sum_bps, tiers[i].share_bps) {
                assert(!fits(total_bps(next)));
                return false;
            }
            sum_bps += tiers[i].share_bps;
            i += 1;
        }
        true
    }

    /// Whether adding the parts up stays in range.
    pub fn parts_in_range(parts: &Vec<i128>) -> (r: bool)
        ensures
            r == parts_fit(parts@),
    {
        let mut sum: u128 = 0;
        let mut i: usize = 0;
        while i < parts.len()
            invariant
                i <= parts@.len(),
                forall|k: int|
                    0 <= k < i ==> unsigned_sum(#[trigger] parts@.take(k)) % (P as int)
                        + as_unsigned(parts@[k] as int) <= u128::MAX,
                sum == unsigned_sum(parts@.take(i as int)) % (P as int),
                sum < P_U128,
            decreases parts@.len() - i,
        {
            let ghost next = parts@.take(i + 1);
            assert(next.drop_last() =~= parts@.take(i as int));
            let part: u128 = unsigned_bits(parts[i]);
            if part > u128::MAX - sum {
                assert(unsigned_sum(parts@.take(i as int)) % (P as int) + as_unsigned(
                    parts@[i as int] as int,
                ) > u128::MAX);
                return false;
            }
            proof {
                vstd::arithmetic::div_mod::lemma_add_mod_noop_right(
                    part as int,
                    unsigned_sum(parts@.take(i as int)),
                    P as int,
                );
            }
            sum = reduce_u128(sum + part);
            i += 1;
        }
        true
    }

    /// Passes a repayment of `amount` on as a credit to the pool manager.
    /// Processing must not be paused.
    pub fn process_repayment(&self, amount: i128) -> (r: Result<ReserveCredit, ContractError>)
        requires
            !self@.paused,
        ensures
            r == self@.process_repayment(amount),
    {
        if amount <= 0 {
            return Err(ContractError::InvalidAmount);
        }
        match self.pool_manager {
            Some(pool_manager) => Ok(ReserveCredit { pool_manager, delta: amount }),
            None => Err(ContractError::PoolManagerNotConfigured),
        }
    }

    /// Gives the marker back.
    pub fn ping(marker: Symbol) -> (r: Symbol)
        ensures
            r == marker,
    {
        marker
    }

    /// The version of the contract's interface.
    pub fn version() -> (r: u32)
        ensures
            r == 1,
    {
        1
    }

    /// Records a default of `amount` against the 24 hour window, and trips the
    /// circuit breaker where the volume reaches the threshold.
    pub fn record_default(&mut self, now: u64, amount: i128)
        requires
            old(self).wf(),
            amount > 0,
            old(self)@.default_fits(now, amount),
        ensures
            final(self).wf(),
            final(self)@ == old(self)@.record_default(now, amount),
    {
        let mut record: DefaultRecord = match self.default_record {
            Some(record) => record,
            None => DefaultRecord { window_start: now, volume: 0 },
        };
        if now.saturating_sub(record.window_start) >= CIRCUIT_BREAKER_WINDOW_SECS {
            record.window_start = now;
            record.volume = amount;
        } else {
            record.volume = record.volume + amount;
        }
        self.default_record = Some(record);
        if let Some(threshold) = self.threshold {
            if record.volume >= threshold {
                self.paused = true;
                self.events.push(
                    WaterfallEvent::CircuitBreakerTripped { volume: record.volume, threshold },
                );
            }
        }
    }

    /// Whether recording the default stays in range.
    pub fn default_fits(&self, now: u64, amount: i128) -> (r: bool)
        ensures
            r == self@.default_fits(now, amount),
    {
        match self.default_record {
            Some(record) => now.saturating_sub(record.window_start) >= CIRCUIT_BREAKER_WINDOW_SECS
                || sum_fits(record.volume, amount),
            None => true,
        }
    }

    /// Sets the default volume at which the circuit breaker trips. For the
    /// admin alone.
    pub fn set_circuit_breaker_threshold(&mut self, admin: Symbol, threshold: i128)
        requires
            old(self).wf(),
            old(self)@.admin == Some(admin),
            threshold > 0,
        ensures
            final(self).wf(),
            final(self)@ == old(self)@.set_circuit_breaker_threshold(threshold),
    {
        self.threshold = Some(threshold);
    }

    /// Resumes processing after a trip, with a new window. For the admin alone.
    pub fn resume_processing(&mut self, now: u64, admin: Symbol)
        requires
            old(self).wf(),
            old(self)@.admin == Some(admin),
        ensures
            final(self).wf(),
            final(self)@ == old(self)@.resume_processing(now),
    {
        self.paused = false;
        self.default_record = Some(DefaultRecord { window_start: now, volume: 0 });
    }

    /// Whether the circuit breaker has tripped.
    pub fn circuit_breaker_active(&self) -> (r: bool)
        ensures
            r == self@.paused,
            r == self.paused,
    {
        self.paused
    }

    /// The default volume of the current window.
    pub fn current_default_volume(&self) -> (r: i128)
        ensures
            r == self@.volume(),
            self.default_record matches Some(record) ==> r == record.volume,
            self.default_record is None ==> r == 0,
    {
        match self.default_record {
            Some(record) => record.volume,
            None => 0,
        }
    }

    /// Hands out the events announced since the last call.
    pub fn take_events(&mut self) -> (r: Vec<WaterfallEvent>)
        requires
            old(self).wf(),
        ensures
            final(self).wf(),
            r@ == old(self)@.events,
            final(self)@ == (WaterfallState { events: Seq::empty(), ..old(self)@ }),
    {
        let mut taken: Vec<WaterfallEvent> = Vec::new();
        std::mem::swap(&mut taken, &mut self.events);
        assert(self@ =~= (WaterfallState { events: Seq::empty(), ..old(self)@ }));
        taken
    }
}

} // verus!
