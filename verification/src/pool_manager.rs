//! Lender pools: deposits against shares, financing under a utilisation
//! ceiling, reserve rebalancing between pools, and timelocked changes of
//! parameters.

use vstd::prelude::*;

use crate::arith::{
    difference_fits, fits, or_zero, product_fits, quotient, sum_fits, value_or_zero,
};
use crate::ident::{Address, Authorization, Symbol};
use crate::table::{lemma_sum_bounds, lemma_sum_insert, sum_of, Key, Table};

verus! {

/// What the pool manager refuses a call for.
#[derive(Clone, Copy, Debug, PartialEq, Eq, PartialOrd, Ord, Structural)]
pub enum ContractError {
    /// `initialize` called on an already initialized pool.
    AlreadyInitialized,
    /// A call that needs the pool's totals was made before `initialize`.
    NotInitialized,
    /// A deposit or finance amount was not strictly positive.
    InvalidAmount,
    /// A withdrawal share count was not strictly positive.
    InvalidShares,
    /// The lender tried to withdraw more shares than they hold.
    InsufficientShares,
    /// Financing would push the financed amount above the utilisation ceiling.
    MaxUtilisationExceeded,
    /// A NAV update was not strictly positive.
    InvalidNav,
    /// A reserve rebalance would leave total capital negative.
    NegativeCapital,
    /// A reserve rebalance would drive NAV to zero.
    ZeroNav,
    /// `set_timelock_admin` called after an admin was already bound.
    TimelockAdminAlreadySet,
    /// A timelocked action was queued or cancelled before `set_timelock_admin`.
    TimelockAdminNotSet,
    /// The referenced queued action does not exist.
    ActionNotFound,
    /// `execute_parameter_change` was called on a cancelled action.
    ActionCancelled,
    /// The action was executed already.
    ActionAlreadyExecuted,
    /// `cancel_parameter_change` was called on a cancelled action.
    ActionAlreadyCancelled,
    /// The action's timelock has not elapsed.
    TimelockNotElapsed,
    /// A queued change named an unknown parameter.
    UnknownParameter,
    /// `create_pool` called before `initialize`.
    PoolNotInitialized,
    /// `create_pool` called more than once.
    PoolAlreadyCreated,
    /// A concentration or reserve share was outside `(0, BPS_SCALE]`.
    InvalidBps,
    /// `min_deposit` was not strictly positive, or exceeded `max_deposit`.
    InvalidDepositRange,
}

/// Reserve coverage floor, in basis points: rebalancing aims to keep every
/// pool's reserve at or above this share of its capital.
pub const RESERVE_FLOOR_BPS: i128 = 500;

/// The share of a donor's excess reserve that one rebalance may move.
pub const DONOR_CAP_BPS: i128 = 5_000;

/// One whole, in basis points.
pub const BPS_SCALE: i128 = 10_000;

/// A NAV of one.
pub const NAV_SCALE: i128 = 1_000_000;

/// The least delay, in seconds, between queuing a change and executing it: the
/// lenders' exit window of 48 hours.
pub const TIMELOCK_SECS: u64 = 172_800;

/// The name `max_ut`, under which the utilisation ceiling can be changed.
pub const MAX_UTIL_NAME: u128 = 0x6d61_785f_7574_0000_0000_0000_0000_0000;

/// A queued, timelocked change of a named parameter.
#[derive(Clone, Copy, Debug, PartialEq, Eq, Structural)]
pub struct QueuedAction {
    pub id: u32,
    pub param: Symbol,
    pub new_value: i128,
    pub queued_at: u64,
    pub execute_after: u64,
    pub executed: bool,
    pub cancelled: bool,
}

/// The key of a queued action.
#[derive(Clone, Copy, Debug, PartialEq, Eq, Structural)]
pub struct ActionKey(pub u32);

/// What one lender holds.
#[derive(Clone, Copy, Debug, PartialEq, Eq, Structural)]
pub struct LenderPosition {
    pub shares: i128,
}

/// The key of a lender's position.
#[derive(Clone, Copy, Debug, PartialEq, Eq, Structural)]
pub struct LenderKey(pub Symbol);

impl Key for ActionKey {
    fn same(&self, other: &Self) -> (r: bool) {
        *self == *other
    }
}

impl Key for LenderKey {
    fn same(&self, other: &Self) -> (r: bool) {
        *self == *other
    }
}

/// Concentration limits, deposit range and reserve ratio of a created pool.
#[derive(Clone, Copy, Debug, PartialEq, Eq, Structural)]
pub struct PoolConfig {
    pub buyer_limit_bps: i128,
    pub sme_limit_bps: i128,
    pub min_deposit: i128,
    pub max_deposit: i128,
    pub reserve_ratio_bps: i128,
}

/// What one pool says of itself to a rebalance.
#[derive(Clone, Copy, Debug, PartialEq, Eq, Structural)]
pub struct PoolReport {
    pub address: Address,
    pub capital: i128,
    pub financed: i128,
    pub donor_blocked: bool,
}

/// A transfer of reserve between two pools.
#[derive(Clone, Copy, Debug, PartialEq, Eq, Structural)]
pub struct Rebalance {
    pub donor: Address,
    pub needy: Address,
    pub amount: i128,
}

impl Rebalance {
    /// What the transfer adds to the capital of the pool at `address`.
    pub open spec fn side(self, address: Address) -> int {
        if address == self.donor {
            -self.amount
        } else if address == self.needy {
            self.amount as int
        } else {
            0
        }
    }

    /// The reserve delta that the pool at `address` has to be given: negative
    /// for the donor, positive for the needy pool, zero for any other.
    pub fn side_of(self, address: Address) -> (r: i128)
        requires
            self.amount > 0,
        ensures
            r == self.side(address),
            address == self.donor ==> r == -self.amount,
            address != self.donor && address == self.needy ==> r == self.amount,
            address != self.donor && address != self.needy ==> r == 0,
    {
        if address == self.donor {
            -self.amount
        } else if address == self.needy {
            self.amount
        } else {
            0
        }
    }
}

/// What a pool announces.
#[derive(Clone, Copy, Debug, PartialEq, Eq, Structural)]
pub enum PoolEvent {
    PoolCreated { config: PoolConfig },
    SharesMinted { lender: Address, shares: i128 },
    ReserveRebalanced { transfer: Rebalance },
    ActionQueued { id: u32, param: Symbol, new_value: i128, execute_after: u64 },
    ActionExecuted { id: u32, param: Symbol, new_value: i128 },
    ActionCancelled { id: u32, param: Symbol },
}

/// The state of a pool as the contracts speak of it. A field that was never
/// written is `None`.
#[verifier::ext_equal]
pub struct PoolState {
    pub admin: Option<Symbol>,
    pub config: Option<PoolConfig>,
    pub total_shares: Option<i128>,
    pub total_capital: Option<i128>,
    pub financed_amount: Option<i128>,
    pub max_utilisation: Option<i128>,
    pub nav: Option<i128>,
    pub donor_blocked: bool,
    pub timelock_admin: Option<Address>,
    pub next_action: u32,
    pub lenders: Map<LenderKey, LenderPosition>,
    pub actions: Map<ActionKey, QueuedAction>,
    pub events: Seq<PoolEvent>,
}

/// A position's shares.
pub open spec fn shares_in() -> spec_fn(LenderPosition) -> int {
    |p: LenderPosition| p.shares as int
}

/// No lender's position is negative.
pub open spec fn no_debts(lenders: Map<LenderKey, LenderPosition>) -> bool {
    forall|k: LenderKey| #[trigger] lenders.contains_key(k) ==> lenders[k].shares >= 0
}

/// Every action is filed under its own id, below `next`, with its full delay.
pub open spec fn filed(actions: Map<ActionKey, QueuedAction>, next: u32) -> bool {
    forall|k: ActionKey| #[trigger]
        actions.contains_key(k) ==> actions[k].id == k.0 && k.0 < next && actions[k].execute_after
            == actions[k].queued_at + TIMELOCK_SECS
}

/// The shares that `amount` buys at `nav`.
pub open spec fn minted(amount: int, nav: int) -> int {
    amount * NAV_SCALE / nav
}

/// What `shares` are worth at `nav`.
pub open spec fn worth(shares: int, nav: int) -> int {
    shares * nav / (NAV_SCALE as int)
}

/// The most that may be financed out of `capital`.
pub open spec fn financing_limit(capital: int, max_utilisation: int) -> int {
    quotient(capital * max_utilisation, BPS_SCALE as int)
}

/// `financed`, brought down to `limit` where it exceeds it.
pub open spec fn clamped(financed: Option<i128>, limit: int) -> Option<i128> {
    if or_zero(financed) > limit {
        Some(limit as i128)
    } else {
        financed
    }
}

/// A share in basis points lies in `(0, BPS_SCALE]`.
pub open spec fn valid_bps(x: i128) -> bool {
    0 < x <= BPS_SCALE
}

/// The name of the parameter that sets the utilisation ceiling.
pub open spec fn is_max_util(param: Symbol) -> bool {
    param.head == MAX_UTIL_NAME && param.tail == 0
}

/// A pool's answer to a call: the state it leaves, and what it returns.
pub type Answer<T> = (PoolState, Result<T, ContractError>);

impl PoolState {
    /// A pool before any call.
    pub open spec fn empty() -> PoolState {
        PoolState {
            admin: None,
            config: None,
            total_shares: None,
            total_capital: None,
            financed_amount: None,
            max_utilisation: None,
            nav: None,
            donor_blocked: false,
            timelock_admin: None,
            next_action: 0,
            lenders: Map::empty(),
            actions: Map::empty(),
            events: Seq::empty(),
        }
    }

    /// The shares that `lender` holds.
    pub open spec fn shares_of(self, lender: Symbol) -> int {
        if self.lenders.contains_key(LenderKey(lender)) {
            self.lenders[LenderKey(lender)].shares as int
        } else {
            0
        }
    }

    /// The shares that the pool has issued.
    pub open spec fn issued(self) -> int {
        or_zero(self.total_shares) as int
    }

    /// The shares that the recorded lenders hold together.
    pub open spec fn held(self) -> int {
        sum_of(self.lenders, shares_in())
    }

    pub open spec fn capital(self) -> int {
        or_zero(self.total_capital) as int
    }

    pub open spec fn financed(self) -> int {
        or_zero(self.financed_amount) as int
    }

    pub open spec fn ceiling(self) -> int {
        or_zero(self.max_utilisation) as int
    }

    /// What holds of every pool: the totals are there once the pool is
    /// initialized, its NAV is positive, nobody holds a negative number of
    /// shares, the recorded lenders hold no more than was issued, and every
    /// queued action is filed under its own id with its full delay.
    pub open spec fn inv(self) -> bool {
        &&& self.admin is Some == self.total_shares is Some
        &&& self.admin is Some == self.nav is Some
        &&& self.admin is Some ==> self.total_capital is Some
        &&& self.admin is Some ==> self.financed_amount is Some
        &&& self.admin is Some ==> self.max_utilisation is Some
        &&& self.nav matches Some(nav) ==> nav > 0
        &&& self.issued() >= 0
        &&& self.lenders.dom().finite()
        &&& no_debts(self.lenders)
        &&& self.held() <= self.issued()
        &&& filed(self.actions, self.next_action)
    }

    /// `lender` holds `shares` more, and the capital is what all shares are
    /// worth.
    pub open spec fn credited(self, lender: Symbol, shares: int, nav: int) -> PoolState {
        let total = self.issued() + shares;
        PoolState {
            lenders: self.lenders.insert(
                LenderKey(lender),
                LenderPosition { shares: (self.shares_of(lender) + shares) as i128 },
            ),
            total_shares: Some(total as i128),
            total_capital: Some(worth(total, nav) as i128),
            ..self
        }
    }

    /// The financed amount brought under the ceiling that capital and
    /// utilisation set.
    pub open spec fn reclamped(self) -> PoolState {
        PoolState {
            financed_amount: clamped(
                self.financed_amount,
                financing_limit(self.capital(), self.ceiling()),
            ),
            ..self
        }
    }

    pub open spec fn published(self, event: PoolEvent) -> PoolState {
        PoolState { events: self.events.push(event), ..self }
    }

    pub open spec fn initialize(self, admin: Symbol, max_utilisation: i128) -> Answer<()> {
        if self.admin is Some {
            (self, Err(ContractError::AlreadyInitialized))
        } else {
            (
                PoolState {
                    admin: Some(admin),
                    total_shares: Some(0),
                    total_capital: Some(0),
                    financed_amount: Some(0),
                    max_utilisation: Some(max_utilisation),
                    nav: Some(NAV_SCALE),
                    ..self
                },
                Ok(()),
            )
        }
    }

    pub open spec fn create_pool(self, config: PoolConfig) -> Answer<()> {
        if self.admin is None {
            (self, Err(ContractError::PoolNotInitialized))
        } else if self.config is Some {
            (self, Err(ContractError::PoolAlreadyCreated))
        } else if !valid_bps(config.buyer_limit_bps) || !valid_bps(config.sme_limit_bps)
            || !valid_bps(config.reserve_ratio_bps) {
            (self, Err(ContractError::InvalidBps))
        } else if config.min_deposit <= 0 || config.min_deposit > config.max_deposit {
            (self, Err(ContractError::InvalidDepositRange))
        } else {
            (
                PoolState { config: Some(config), ..self }.published(
                    PoolEvent::PoolCreated { config },
                ),
                Ok(()),
            )
        }
    }

    pub open spec fn deposit(self, lender: Symbol, amount: i128) -> Answer<i128> {
        if amount <= 0 {
            (self, Err(ContractError::InvalidAmount))
        } else {
            match self.nav {
                None => (self, Err(ContractError::NotInitialized)),
                Some(nav) => {
                    let shares = minted(amount as int, nav as int);
                    (self.credited(lender, shares, nav as int), Ok(shares as i128))
                },
            }
        }
    }

    /// A deposit stays in range.
    pub open spec fn deposit_fits(self, lender: Symbol, amount: i128) -> bool {
        amount > 0 ==> (self.nav matches Some(nav) ==> {
            let shares = minted(amount as int, nav as int);
            let total = self.issued() + shares;
            &&& fits(amount * NAV_SCALE)
            &&& fits(self.shares_of(lender) + shares)
            &&& fits(total)
            &&& fits(total * nav)
        })
    }

    pub open spec fn join_pool(self, lender: Address, lender_tag: Symbol, amount: i128) -> Answer<
        i128,
    > {
        let (next, answer) = self.deposit(lender_tag, amount);
        match answer {
            Ok(shares) => (next.published(PoolEvent::SharesMinted { lender, shares }), answer),
            Err(_) => (self, answer),
        }
    }

    pub open spec fn withdraw(self, lender: Symbol, shares: i128) -> Answer<i128> {
        if shares <= 0 {
            (self, Err(ContractError::InvalidShares))
        } else if self.shares_of(lender) < shares {
            (self, Err(ContractError::InsufficientShares))
        } else {
            match self.nav {
                None => (self, Err(ContractError::NotInitialized)),
                Some(nav) => (
                    self.credited(lender, -shares, nav as int).reclamped(),
                    Ok(worth(shares as int, nav as int) as i128),
                ),
            }
        }
    }

    /// A withdrawal stays in range.
    pub open spec fn withdraw_fits(self, lender: Symbol, shares: i128) -> bool {
        0 < shares <= self.shares_of(lender) ==> (self.nav matches Some(nav) ==> {
            let total = self.issued() - shares;
            &&& fits(shares * nav)
            &&& fits(total * nav)
            &&& fits(worth(total, nav as int) * self.ceiling())
        })
    }

    pub open spec fn finance(self, amount: i128) -> Answer<()> {
        if amount <= 0 {
            (self, Err(ContractError::InvalidAmount))
        } else if self.financed_amount is None || self.total_capital is None
            || self.max_utilisation is None {
            (self, Err(ContractError::NotInitialized))
        } else if self.financed() + amount > financing_limit(self.capital(), self.ceiling()) {
            (self, Err(ContractError::MaxUtilisationExceeded))
        } else {
            (
                PoolState {
                    financed_amount: Some((self.financed() + amount) as i128),
                    ..self
                },
                Ok(()),
            )
        }
    }

    /// A financing stays in range.
    pub open spec fn finance_fits(self, amount: i128) -> bool {
        amount > 0 && self.financed_amount is Some && self.total_capital is Some
            && self.max_utilisation is Some ==> {
            &&& fits(self.financed() + amount)
            &&& fits(self.capital() * self.ceiling())
        }
    }

    pub open spec fn set_nav(self, new_nav: i128) -> Answer<()> {
        if new_nav <= 0 {
            (self, Err(ContractError::InvalidNav))
        } else if self.total_shares is None || self.max_utilisation is None {
            (self, Err(ContractError::NotInitialized))
        } else {
            (
                PoolState {
                    nav: Some(new_nav),
                    total_capital: Some(worth(self.issued(), new_nav as int) as i128),
                    ..self
                }.reclamped(),
                Ok(()),
            )
        }
    }

    /// A NAV update stays in range.
    pub open spec fn set_nav_fits(self, new_nav: i128) -> bool {
        new_nav > 0 && self.total_shares is Some && self.max_utilisation is Some ==> {
            &&& fits(self.issued() * new_nav)
            &&& fits(worth(self.issued(), new_nav as int) * self.ceiling())
        }
    }

    pub open spec fn set_donor_blocked(self, blocked: bool) -> PoolState {
        PoolState { donor_blocked: blocked, ..self }
    }

    /// The NAV at which the issued shares are worth `capital`, rounded down.
    pub open spec fn derived_nav(self, capital: int) -> int {
        capital * NAV_SCALE / self.issued()
    }

    pub open spec fn apply_reserve_delta(self, delta: i128) -> Answer<()> {
        let capital = self.capital() + delta;
        if capital < 0 {
            (self, Err(ContractError::NegativeCapital))
        } else if self.issued() > 0 && self.derived_nav(capital) <= 0 {
            (self, Err(ContractError::ZeroNav))
        } else {
            (
                PoolState {
                    nav: if self.issued() > 0 {
                        Some(self.derived_nav(capital) as i128)
                    } else {
                        self.nav
                    },
                    total_capital: Some(capital as i128),
                    ..self
                }.reclamped(),
                Ok(()),
            )
        }
    }

    /// A reserve delta stays in range.
    pub open spec fn reserve_delta_fits(self, delta: i128) -> bool {
        let capital = self.capital() + delta;
        &&& fits(capital)
        &&& capital >= 0 && self.issued() > 0 ==> fits(capital * NAV_SCALE)
        &&& capital >= 0 && (self.issued() > 0 ==> self.derived_nav(capital) > 0) ==> fits(
            capital * self.ceiling(),
        )
    }

    pub open spec fn set_timelock_admin(self, admin: Address) -> Answer<()> {
        if self.timelock_admin is Some {
            (self, Err(ContractError::TimelockAdminAlreadySet))
        } else {
            (PoolState { timelock_admin: Some(admin), ..self }, Ok(()))
        }
    }

    /// The bound timelock admin, if any, authorized the call.
    pub open spec fn admin_authorized(self, auth: &Authorization) -> bool {
        self.timelock_admin matches Some(admin) ==> auth.covers(admin)
    }

    pub open spec fn queue_parameter_change(
        self,
        now: u64,
        param: Symbol,
        new_value: i128,
    ) -> Answer<u32> {
        if self.timelock_admin is None {
            (self, Err(ContractError::TimelockAdminNotSet))
        } else {
            let id = self.next_action;
            let execute_after = (now + TIMELOCK_SECS) as u64;
            let action = QueuedAction {
                id,
                param,
                new_value,
                queued_at: now,
                execute_after,
                executed: false,
                cancelled: false,
            };
            (
                PoolState {
                    next_action: (id + 1) as u32,
                    actions: self.actions.insert(ActionKey(id), action),
                    ..self
                }.published(PoolEvent::ActionQueued { id, param, new_value, execute_after }),
                Ok(id),
            )
        }
    }

    /// There is an id left for one more action, and its delay ends in range.
    pub open spec fn queue_fits(self, now: u64) -> bool {
        self.timelock_admin is Some ==> self.next_action < u32::MAX && now + TIMELOCK_SECS
            <= u64::MAX
    }

    /// Sets a named parameter.
    pub open spec fn apply_parameter(self, param: Symbol, new_value: i128) -> Answer<()> {
        if is_max_util(param) {
            (PoolState { max_utilisation: Some(new_value), ..self }.reclamped(), Ok(()))
        } else {
            (self, Err(ContractError::UnknownParameter))
        }
    }

    pub open spec fn execute_parameter_change(self, now: u64, id: u32) -> Answer<()> {
        if !self.actions.contains_key(ActionKey(id)) {
            (self, Err(ContractError::ActionNotFound))
        } else {
            let action = self.actions[ActionKey(id)];
            if action.cancelled {
                (self, Err(ContractError::ActionCancelled))
            } else if action.executed {
                (self, Err(ContractError::ActionAlreadyExecuted))
            } else if now < action.execute_after {
                (self, Err(ContractError::TimelockNotElapsed))
            } else {
                let (next, answer) = self.apply_parameter(action.param, action.new_value);
                if answer is Err {
                    (self, answer)
                } else {
                    (
                        PoolState {
                            actions: next.actions.insert(
                                ActionKey(id),
                                QueuedAction { executed: true, ..action },
                            ),
                            ..next
                        }.published(
                            PoolEvent::ActionExecuted {
                                id,
                                param: action.param,
                                new_value: action.new_value,
                            },
                        ),
                        Ok(()),
                    )
                }
            }
        }
    }

    /// Executing the action stays in range.
    pub open spec fn execute_fits(self, now: u64, id: u32) -> bool {
        self.actions.contains_key(ActionKey(id)) ==> {
            let action = self.actions[ActionKey(id)];
            !action.cancelled && !action.executed && now >= action.execute_after && is_max_util(
                action.param,
            ) ==> fits(self.capital() * action.new_value)
        }
    }

    pub open spec fn cancel_parameter_change(self, id: u32) -> Answer<()> {
        if self.timelock_admin is None {
            (self, Err(ContractError::TimelockAdminNotSet))
        } else if !self.actions.contains_key(ActionKey(id)) {
            (self, Err(ContractError::ActionNotFound))
        } else {
            let action = self.actions[ActionKey(id)];
            if action.executed {
                (self, Err(ContractError::ActionAlreadyExecuted))
            } else if action.cancelled {
                (self, Err(ContractError::ActionAlreadyCancelled))
            } else {
                (
                    PoolState {
                        actions: self.actions.insert(
                            ActionKey(id),
                            QueuedAction { cancelled: true, ..action },
                        ),
                        ..self
                    }.published(PoolEvent::ActionCancelled { id, param: action.param }),
                    Ok(()),
                )
            }
        }
    }

    /// What the pool at `address` reports of itself.
    pub open spec fn report(self, address: Address) -> PoolReport {
        PoolReport {
            address,
            capital: self.capital() as i128,
            financed: self.financed() as i128,
            donor_blocked: self.donor_blocked,
        }
    }

    /// The pools that a rebalance started at `address` considers.
    pub open spec fn considered(self, address: Address, peers: Seq<PoolReport>) -> Seq<PoolReport> {
        seq![self.report(address)] + peers
    }

    /// Decides on a transfer, applies this pool's side of it, and announces
    /// it. The side of a peer is the peer's to apply.
    pub open spec fn rebalance_reserves(
        self,
        address: Address,
        peers: Seq<PoolReport>,
    ) -> Answer<Option<Rebalance>> {
        match planned(self.considered(address, peers)) {
            None => (self, Ok(None)),
            Some(t) => {
                let (next, answer) = if t.donor == address {
                    self.apply_reserve_delta((-t.amount) as i128)
                } else if t.needy == address {
                    self.apply_reserve_delta(t.amount)
                } else {
                    (self, Ok(()))
                };
                match answer {
                    Ok(_) => (
                        next.published(PoolEvent::ReserveRebalanced { transfer: t }),
                        Ok(Some(t)),
                    ),
                    Err(e) => (self, Err(e)),
                }
            },
        }
    }

    /// A rebalance stays in range.
    pub open spec fn rebalance_fits(self, address: Address, peers: Seq<PoolReport>) -> bool {
        let pools = self.considered(address, peers);
        &&& forall|i: int| 0 <= i < pools.len() ==> (#[trigger] pools[i]).in_range()
        &&& plan_fits(pools)
        &&& planned(pools) matches Some(t) ==> {
            if t.donor == address {
                self.reserve_delta_fits((-t.amount) as i128)
            } else if t.needy == address {
                self.reserve_delta_fits(t.amount)
            } else {
                true
            }
        }
    }
}

impl PoolReport {
    /// Capital that is not financed.
    pub open spec fn reserve(self) -> int {
        self.capital - self.financed
    }

    /// The reserve's share of the capital, in basis points.
    pub open spec fn coverage(self) -> int {
        quotient(self.reserve() * BPS_SCALE, self.capital as int)
    }

    /// The reserve that the floor asks for.
    pub open spec fn floor(self) -> int {
        quotient(self.capital * RESERVE_FLOOR_BPS, BPS_SCALE as int)
    }

    /// Reserve and coverage are in range.
    pub open spec fn in_range(self) -> bool {
        &&& fits(self.reserve())
        &&& self.capital > 0 ==> fits(self.reserve() * BPS_SCALE)
    }
}

/// The position of the pool whose coverage is least, among those with capital
/// and a coverage below the floor; the first such.
pub open spec fn neediest(pools: Seq<PoolReport>) -> Option<int>
    decreases pools.len(),
{
    if pools.len() == 0 {
        None
    } else {
        let best = neediest(pools.drop_last());
        let bar = match best {
            Some(i) => pools[i].coverage(),
            None => RESERVE_FLOOR_BPS as int,
        };
        if pools.last().capital > 0 && pools.last().coverage() < bar {
            Some(pools.len() - 1)
        } else {
            best
        }
    }
}

/// The position of the pool with the highest reserve among those that may
/// donate; the first such.
pub open spec fn richest(pools: Seq<PoolReport>) -> Option<int>
    decreases pools.len(),
{
    if pools.len() == 0 {
        None
    } else {
        let best = richest(pools.drop_last());
        let higher = match best {
            Some(i) => pools.last().reserve() > pools[i].reserve(),
            None => true,
        };
        if !pools.last().donor_blocked && higher {
            Some(pools.len() - 1)
        } else {
            best
        }
    }
}

/// What the needy pool lacks to reach its floor.
pub open spec fn shortfall(needy: PoolReport) -> int {
    needy.floor() - needy.reserve()
}

/// What the donor has above its own floor.
pub open spec fn excess(donor: PoolReport) -> int {
    donor.reserve() - donor.floor()
}

/// The most that the donor gives at once.
pub open spec fn donation_cap(donor: PoolReport) -> int {
    quotient(excess(donor) * DONOR_CAP_BPS, BPS_SCALE as int)
}

/// What moves from the richest to the neediest of `pools`, if anything.
pub open spec fn planned(pools: Seq<PoolReport>) -> Option<Rebalance> {
    match (neediest(pools), richest(pools)) {
        (Some(n), Some(d)) => {
            let needy = pools[n];
            let donor = pools[d];
            let amount = if shortfall(needy) <= donation_cap(donor) {
                shortfall(needy)
            } else {
                donation_cap(donor)
            };
            if donor.address == needy.address || shortfall(needy) <= 0 || excess(donor) <= 0
                || amount <= 0 {
                None
            } else {
                Some(
                    Rebalance {
                        donor: donor.address,
                        needy: needy.address,
                        amount: amount as i128,
                    },
                )
            }
        },
        _ => None,
    }
}

/// Working out the plan stays in range.
pub open spec fn plan_fits(pools: Seq<PoolReport>) -> bool {
    match (neediest(pools), richest(pools)) {
        (Some(n), Some(d)) => pools[n].address != pools[d].address ==> {
            &&& fits(pools[n].capital * RESERVE_FLOOR_BPS)
            &&& fits(shortfall(pools[n]))
            &&& shortfall(pools[n]) > 0 ==> {
                &&& fits(pools[d].capital * RESERVE_FLOOR_BPS)
                &&& fits(excess(pools[d]))
                &&& excess(pools[d]) > 0 ==> fits(excess(pools[d]) * DONOR_CAP_BPS)
            }
        },
        _ => true,
    }
}

/// A lender pool. Everything it stores is in its fields, with `None` for what
/// was never written; `events` holds what it has announced and the ledger has
/// not taken yet.
pub struct PoolManager {
    pub admin: Option<Symbol>,
    pub config: Option<PoolConfig>,
    pub total_shares: Option<i128>,
    pub total_capital: Option<i128>,
    pub financed_amount: Option<i128>,
    pub max_utilisation: Option<i128>,
    pub nav: Option<i128>,
    pub donor_blocked: bool,
    pub timelock_admin: Option<Address>,
    pub next_action: u32,
    pub lenders: Table<LenderKey, LenderPosition>,
    pub actions: Table<ActionKey, QueuedAction>,
    pub events: Vec<PoolEvent>,
}

impl View for PoolManager {
    type V = PoolState;

    open spec fn view(&self) -> PoolState {
        PoolState {
            admin: self.admin,
            config: self.config,
            total_shares: self.total_shares,
            total_capital: self.total_capital,
            financed_amount: self.financed_amount,
            max_utilisation: self.max_utilisation,
            nav: self.nav,
            donor_blocked: self.donor_blocked,
            timelock_admin: self.timelock_admin,
            next_action: self.next_action,
            lenders: self.lenders@,
            actions: self.actions@,
            events: self.events@,
        }
    }
}

impl PoolManager {
    /// The tables are sound and the pool's invariant holds.
    pub open spec fn wf(&self) -> bool {
        &&& self.lenders.wf()
        &&& self.actions.wf()
        &&& self@.inv()
    }

    /// A pool before any call.
    pub fn new() -> (pool: PoolManager)
        ensures
            pool.wf(),
            pool@ == PoolState::empty(),
    {
        let pool = PoolManager {
            admin: None,
            config: None,
            total_shares: None,
            total_capital: None,
            financed_amount: None,
            max_utilisation: None,
            nav: None,
            donor_blocked: false,
            timelock_admin: None,
            next_action: 0,
            lenders: Table::new(),
            actions: Table::new(),
            events: Vec::new(),
        };
        assert(pool@ =~= PoolState::empty());
        pool
    }

    /// One-time initialization with the utilisation ceiling, in basis points.
    pub fn initialize(&mut self, admin: Symbol, max_utilisation: i128) -> (r: Result<
        (),
        ContractError,
    >)
        requires
            old(self).wf(),
        ensures
            final(self).wf(),
            (final(self)@, r) == old(self)@.initialize(admin, max_utilisation),
    {
        if self.admin.is_some() {
            return Err(ContractError::AlreadyInitialized);
        }
        self.admin = Some(admin);
        self.total_shares = Some(0);
        self.total_capital = Some(0);
        self.financed_amount = Some(0);
        self.max_utilisation = Some(max_utilisation);
        self.nav = Some(NAV_SCALE);
        Ok(())
    }

    /// Configures the concentration limits, the deposit range and the reserve
    /// ratio. Callable once, after `initialize`.
    pub fn create_pool(
        &mut self,
        buyer_limit_bps: i128,
        sme_limit_bps: i128,
        min_deposit: i128,
        max_deposit: i128,
        reserve_ratio_bps: i128,
    ) -> (r: Result<(), ContractError>)
        requires
            old(self).wf(),
        ensures
            final(self).wf(),
            (final(self)@, r) == old(self)@.create_pool(
                (PoolConfig {
                    buyer_limit_bps,
                    sme_limit_bps,
                    min_deposit,
                    max_deposit,
                    reserve_ratio_bps,
                }),
            ),
    {
        if self.admin.is_none() {
            return Err(ContractError::PoolNotInitialized);
        }
        if self.config.is_some() {
            return Err(ContractError::PoolAlreadyCreated);
        }
        if buyer_limit_bps <= 0 || buyer_limit_bps > BPS_SCALE {
            return Err(ContractError::InvalidBps);
        }
        if sme_limit_bps <= 0 || sme_limit_bps > BPS_SCALE {
            return Err(ContractError::InvalidBps);
        }
        if reserve_ratio_bps <= 0 || reserve_ratio_bps > BPS_SCALE {
            return Err(ContractError::InvalidBps);
        }
        if min_deposit <= 0 || min_deposit > max_deposit {
            return Err(ContractError::InvalidDepositRange);
        }
        let config = PoolConfig {
            buyer_limit_bps,
            sme_limit_bps,
            min_deposit,
            max_deposit,
            reserve_ratio_bps,
        };
        self.config = Some(config);
        self.events.push(PoolEvent::PoolCreated { config });
        Ok(())
    }

    /// Deposits `amount` for `lender` and returns the shares minted at the
    /// current NAV.
    pub fn deposit(&mut self, lender: Symbol, amount: i128) -> (r: Result<i128, ContractError>)
        requires
            old(self).wf(),
            old(self)@.deposit_fits(lender, amount),
        ensures
            final(self).wf(),
            (final(self)@, r) == old(self)@.deposit(lender, amount),
    {
        if amount <= 0 {
            return Err(ContractError::InvalidAmount);
        }
        let nav: i128 = match self.nav {
            Some(nav) => nav,
            None => {
                return Err(ContractError::NotInitialized);
            },
        };
        let shares: i128 = amount * NAV_SCALE / nav;
        proof {
            vstd::arithmetic::div_mod::lemma_div_pos_is_pos(amount * NAV_SCALE, nav as int);
        }
        self.credit(lender, shares, nav);
        Ok(shares)
    }

    /// Adds `shares`, which may be negative, to the lender's position and to
    /// the total, and derives the capital from the total.
    fn credit(&mut self, lender: Symbol, shares: i128, nav: i128)
        requires
            old(self).wf(),
            old(self)@.nav == Some(nav),
            old(self)@.shares_of(lender) + shares >= 0,
            fits(old(self)@.shares_of(lender) + shares),
            fits(old(self)@.issued() + shares),
            fits((old(self)@.issued() + shares) * nav),
        ensures
            final(self).wf(),
            final(self)@ == old(self)@.credited(lender, shares as int, nav as int),
    {
        let held: i128 = self.lender_shares(lender);
        let total: i128 = value_or_zero(self.total_shares);
        proof {
            self@.law_lender_within_total(lender);
        }
        let new_total: i128 = total + shares;
        assert(new_total * nav == (old(self)@.issued() + shares) * nav);
        assert(new_total * nav >= 0) by (nonlinear_arith)
            requires
                new_total >= 0,
                nav > 0,
        ;
        self.lenders.set(LenderKey(lender), LenderPosition { shares: held + shares });
        self.total_shares = Some(new_total);
        self.total_capital = Some(new_total * nav / NAV_SCALE);
        proof {
            let key = LenderKey(lender);
            let position = LenderPosition { shares: (held + shares) as i128 };
            lemma_sum_insert(old(self)@.lenders, shares_in(), key, position);
            assert forall|k: LenderKey| #[trigger] self@.lenders.contains_key(k) implies
                self@.lenders[k].shares >= 0 by {
                if k != key {
                    assert(old(self)@.lenders.contains_key(k));
                }
            }
            assert(self@ =~= old(self)@.credited(lender, shares as int, nav as int));
        }
    }

    /// Deposits as an authenticated lender, on the ledger shared with
    /// [`Self::deposit`]. `lender` must have authorized the call. Shares are
    /// priced at the current NAV, which starts at one: until it changes, a
    /// deposit buys one share for each unit.
    pub fn join_pool(
        &mut self,
        auth: &Authorization,
        lender: Address,
        lender_tag: Symbol,
        amount: i128,
    ) -> (r: Result<i128, ContractError>)
        requires
            old(self).wf(),
            auth.covers(lender),
            old(self)@.deposit_fits(lender_tag, amount),
        ensures
            final(self).wf(),
            (final(self)@, r) == old(self)@.join_pool(lender, lender_tag, amount),
    {
        match self.deposit(lender_tag, amount) {
            Ok(shares) => {
                self.events.push(PoolEvent::SharesMinted { lender, shares });
                Ok(shares)
            },
            Err(e) => Err(e),
        }
    }

    /// Burns `shares` of `lender` and returns what they are worth. The
    /// financed amount is brought down where the capital left no longer
    /// supports it.
    pub fn withdraw(&mut self, lender: Symbol, shares: i128) -> (r: Result<i128, ContractError>)
        requires
            old(self).wf(),
            old(self)@.withdraw_fits(lender, shares),
        ensures
            final(self).wf(),
            (final(self)@, r) == old(self)@.withdraw(lender, shares),
    {
        if shares <= 0 {
            return Err(ContractError::InvalidShares);
        }
        if self.lender_shares(lender) < shares {
            return Err(ContractError::InsufficientShares);
        }
        let nav: i128 = match self.nav {
            Some(nav) => nav,
            None => {
                return Err(ContractError::NotInitialized);
            },
        };
        assert(shares * nav >= 0) by (nonlinear_arith)
            requires
                shares > 0,
                nav > 0,
        ;
        let amount: i128 = shares * nav / NAV_SCALE;
        proof {
            self@.law_lender_within_total(lender);
            assert((self@.issued() + (-shares)) * nav == (self@.issued() - shares) * nav);
        }
        self.credit(lender, -shares, nav);
        self.reclamp();
        Ok(amount)
    }

    /// Brings the financed amount under its ceiling.
    fn reclamp(&mut self)
        requires
            old(self).wf(),
            fits(old(self)@.capital() * old(self)@.ceiling()),
        ensures
            final(self).wf(),
            final(self)@ == old(self)@.reclamped(),
    {
        let capital: i128 = value_or_zero(self.total_capital);
        let ceiling: i128 = value_or_zero(self.max_utilisation);
        let limit: i128 = capital * ceiling / BPS_SCALE;
        if value_or_zero(self.financed_amount) > limit {
            self.financed_amount = Some(limit);
        }
        assert(self@ =~= old(self)@.reclamped());
    }

    /// Marks `amount` as financed, if the utilisation ceiling allows it.
    pub fn finance(&mut self, amount: i128) -> (r: Result<(), ContractError>)
        requires
            old(self).wf(),
            old(self)@.finance_fits(amount),
        ensures
            final(self).wf(),
            (final(self)@, r) == old(self)@.finance(amount),
    {
        if amount <= 0 {
            return Err(ContractError::InvalidAmount);
        }
        match (self.financed_amount, self.total_capital, self.max_utilisation) {
            (Some(financed), Some(capital), Some(ceiling)) => {
                let new_financed: i128 = financed + amount;
                if new_financed > capital * ceiling / BPS_SCALE {
                    return Err(ContractError::MaxUtilisationExceeded);
                }
                self.financed_amount = Some(new_financed);
                Ok(())
            },
            _ => Err(ContractError::NotInitialized),
        }
    }

    /// Sets the NAV per share. The capital is derived anew, and the financed
    /// amount brought down where the new capital no longer supports it.
    pub fn set_nav(&mut self, new_nav: i128) -> (r: Result<(), ContractError>)
        requires
            old(self).wf(),
            old(self)@.set_nav_fits(new_nav),
        ensures
            final(self).wf(),
            (final(self)@, r) == old(self)@.set_nav(new_nav),
    {
        if new_nav <= 0 {
            return Err(ContractError::InvalidNav);
        }
        let total: i128 = match self.total_shares {
            Some(total) => total,
            None => {
                return Err(ContractError::NotInitialized);
            },
        };
        if self.max_utilisation.is_none() {
            return Err(ContractError::NotInitialized);
        }
        assert(total * new_nav >= 0) by (nonlinear_arith)
            requires
                total >= 0,
                new_nav > 0,
        ;
        self.nav = Some(new_nav);
        self.total_capital = Some(total * new_nav / NAV_SCALE);
        self.reclamp();
        Ok(())
    }

    /// The shares that `lender` holds.
    pub fn lender_shares(&self, lender: Symbol) -> (shares: i128)
        requires
            self.wf(),
        ensures
            shares == self@.shares_of(lender),
            self.lenders@.contains_key(LenderKey(lender)) ==> shares
                == self.lenders@[LenderKey(lender)].shares,
            !self.lenders@.contains_key(LenderKey(lender)) ==> shares == 0,
    {
        match self.lenders.get(&LenderKey(lender)) {
            Some(position) => position.shares,
            None => 0,
        }
    }

    /// Excludes this pool from donating in a rebalance, or admits it again.
    pub fn set_donor_blocked(&mut self, blocked: bool)
        requires
            old(self).wf(),
        ensures
            final(self).wf(),
            final(self)@ == old(self)@.set_donor_blocked(blocked),
    {
        self.donor_blocked = blocked;
    }

    /// Applies a change of capital from a rebalance or a repayment: positive
    /// when received, negative when donated. The NAV is derived from the new
    /// capital, and the financed amount brought down where the new capital no
    /// longer supports it.
    pub fn apply_reserve_delta(&mut self, delta: i128) -> (r: Result<(), ContractError>)
        requires
            old(self).wf(),
            old(self)@.reserve_delta_fits(delta),
        ensures
            final(self).wf(),
            (final(self)@, r) == old(self)@.apply_reserve_delta(delta),
    {
        let total: i128 = value_or_zero(self.total_shares);
        let new_capital: i128 = value_or_zero(self.total_capital) + delta;
        if new_capital < 0 {
            return Err(ContractError::NegativeCapital);
        }
        if total > 0 {
            let new_nav: i128 = new_capital * NAV_SCALE / total;
            if new_nav <= 0 {
                return Err(ContractError::ZeroNav);
            }
            self.nav = Some(new_nav);
        }
        self.total_capital = Some(new_capital);
        self.reclamp();
        Ok(())
    }

    /// What this pool reports of itself under `address`.
    pub fn pool_report(&self, address: Address) -> (r: PoolReport)
        ensures
            r == self@.report(address),
            r.address == address,
            r.donor_blocked == self.donor_blocked,
    {
        PoolReport {
            address,
            capital: value_or_zero(self.total_capital),
            financed: value_or_zero(self.financed_amount),
            donor_blocked: self.donor_blocked,
        }
    }

    /// Cross-pool reserve rebalancing, started at this pool, whose own address
    /// is `self_addr`, with what its peers report of themselves.
    ///
    /// If a pool's reserve coverage is below the floor, reserve moves to the
    /// neediest such pool from the pool with the highest reserve that is not
    /// blocked from donating: what is lacking, at most half of what the donor
    /// has above its own floor. This pool's side of the transfer is applied
    /// here; a peer's side is the returned transfer's to carry out.
    pub fn rebalance_reserves(&mut self, self_addr: Address, peers: &Vec<PoolReport>) -> (r: Result<
        Option<Rebalance>,
        ContractError,
    >)
        requires
            old(self).wf(),
            old(self)@.rebalance_fits(self_addr, peers@),
        ensures
            final(self).wf(),
            (final(self)@, r) == old(self)@.rebalance_reserves(self_addr, peers@),
    {
        let transfer = match plan_rebalance(self.pool_report(self_addr), peers) {
            Some(t) => t,
            None => {
                return Ok(None);
            },
        };
        proof {
            lemma_plan_positive(self@.considered(self_addr, peers@));
        }
        if transfer.donor == self_addr {
            match self.apply_reserve_delta(-transfer.amount) {
                Ok(_) => {},
                Err(e) => {
                    return Err(e);
                },
            }
        } else if transfer.needy == self_addr {
            match self.apply_reserve_delta(transfer.amount) {
                Ok(_) => {},
                Err(e) => {
                    return Err(e);
                },
            }
        }
        self.events.push(PoolEvent::ReserveRebalanced { transfer });
        Ok(Some(transfer))
    }

    /// One-time binding of the address that authorizes timelocked actions.
    pub fn set_timelock_admin(&mut self, admin: Address) -> (r: Result<(), ContractError>)
        requires
            old(self).wf(),
        ensures
            final(self).wf(),
            (final(self)@, r) == old(self)@.set_timelock_admin(admin),
    {
        if self.timelock_admin.is_some() {
            return Err(ContractError::TimelockAdminAlreadySet);
        }
        self.timelock_admin = Some(admin);
        Ok(())
    }

    /// Queues a change of `param` to `new_value`, executable no earlier than
    /// 48 hours after `now`, and returns its id. The timelock admin must have
    /// authorized the call.
    pub fn queue_parameter_change(
        &mut self,
        auth: &Authorization,
        now: u64,
        param: Symbol,
        new_value: i128,
    ) -> (r: Result<u32, ContractError>)
        requires
            old(self).wf(),
            old(self)@.admin_authorized(auth),
            old(self)@.queue_fits(now),
        ensures
            final(self).wf(),
            (final(self)@, r) == old(self)@.queue_parameter_change(now, param, new_value),
    {
        if self.timelock_admin.is_none() {
            return Err(ContractError::TimelockAdminNotSet);
        }
        let id: u32 = self.next_action;
        self.next_action = id + 1;
        let execute_after: u64 = now + TIMELOCK_SECS;
        self.actions.set(
            ActionKey(id),
            QueuedAction {
                id,
                param,
                new_value,
                queued_at: now,
                execute_after,
                executed: false,
                cancelled: false,
            },
        );
        self.events.push(PoolEvent::ActionQueued { id, param, new_value, execute_after });
        proof {
            lemma_file(
                old(self)@.actions,
                old(self)@.next_action,
                self@.next_action,
                self@.actions[ActionKey(id)],
            );
        }
        Ok(id)
    }

    /// Executes a queued action once its timelock has elapsed. Anyone may call
    /// it: the outcome is fixed by the queued action and the time.
    pub fn execute_parameter_change(&mut self, now: u64, id: u32) -> (r: Result<(), ContractError>)
        requires
            old(self).wf(),
            old(self)@.execute_fits(now, id),
        ensures
            final(self).wf(),
            (final(self)@, r) == old(self)@.execute_parameter_change(now, id),
    {
        let action = match self.read_action(id) {
            Ok(action) => action,
            Err(e) => {
                return Err(e);
            },
        };
        if action.cancelled {
            return Err(ContractError::ActionCancelled);
        }
        if action.executed {
            return Err(ContractError::ActionAlreadyExecuted);
        }
        if now < action.execute_after {
            return Err(ContractError::TimelockNotElapsed);
        }
        match self.apply_parameter(action.param, action.new_value) {
            Ok(_) => {},
            Err(e) => {
                return Err(e);
            },
        }
        self.actions.set(ActionKey(id), QueuedAction { executed: true, ..action });
        self.events.push(
            PoolEvent::ActionExecuted { id, param: action.param, new_value: action.new_value },
        );
        proof {
            lemma_file(
                old(self)@.actions,
                old(self)@.next_action,
                self@.next_action,
                self@.actions[ActionKey(id)],
            );
        }
        Ok(())
    }

    /// Cancels a queued action before it executes. The timelock admin must
    /// have authorized the call.
    pub fn cancel_parameter_change(&mut self, auth: &Authorization, id: u32) -> (r: Result<
        (),
        ContractError,
    >)
        requires
            old(self).wf(),
            old(self)@.admin_authorized(auth),
        ensures
            final(self).wf(),
            (final(self)@, r) == old(self)@.cancel_parameter_change(id),
    {
        if self.timelock_admin.is_none() {
            return Err(ContractError::TimelockAdminNotSet);
        }
        let action = match self.read_action(id) {
            Ok(action) => action,
            Err(e) => {
                return Err(e);
            },
        };
        if action.executed {
            return Err(ContractError::ActionAlreadyExecuted);
        }
        if action.cancelled {
            return Err(ContractError::ActionAlreadyCancelled);
        }
        self.actions.set(ActionKey(id), QueuedAction { cancelled: true, ..action });
        self.events.push(PoolEvent::ActionCancelled { id, param: action.param });
        proof {
            lemma_file(
                old(self)@.actions,
                old(self)@.next_action,
                self@.next_action,
                self@.actions[ActionKey(id)],
            );
        }
        Ok(())
    }

    fn read_action(&self, id: u32) -> (r: Result<QueuedAction, ContractError>)
        requires
            self.wf(),
        ensures
            match r {
                Ok(action) => self@.actions.contains_key(ActionKey(id)) && action
                    == self@.actions[ActionKey(id)],
                Err(e) => !self@.actions.contains_key(ActionKey(id)) && e
                    == ContractError::ActionNotFound,
            },
    {
        match self.actions.get(&ActionKey(id)) {
            Some(action) => Ok(*action),
            None => Err(ContractError::ActionNotFound),
        }
    }

    /// Sets a named parameter. `max_ut` is the utilisation ceiling; the
    /// financed amount is brought down where the new ceiling is below it.
    fn apply_parameter(&mut self, param: Symbol, new_value: i128) -> (r: Result<(), ContractError>)
        requires
            old(self).wf(),
            is_max_util(param) ==> fits(old(self)@.capital() * new_value),
        ensures
            final(self).wf(),
            (final(self)@, r) == old(self)@.apply_parameter(param, new_value),
    {
        if param.head == MAX_UTIL_NAME && param.tail == 0 {
            self.max_utilisation = Some(new_value);
            self.reclamp();
            Ok(())
        } else {
            Err(ContractError::UnknownParameter)
        }
    }

    /// The name of the parameter that sets the utilisation ceiling, `max_ut`.
    pub fn max_util_param() -> (param: Symbol)
        ensures
            is_max_util(param),
            param.head == 0x6d61_785f_7574_0000_0000_0000_0000_0000,
            param.tail == 0,
    {
        Symbol { head: MAX_UTIL_NAME, tail: 0 }
    }

    pub fn get_queued_action(&self, id: u32) -> (r: Option<QueuedAction>)
        requires
            self.wf(),
        ensures
            r == (if self@.actions.contains_key(ActionKey(id)) {
                Some(self@.actions[ActionKey(id)])
            } else {
                None
            }),
    {
        match self.actions.get(&ActionKey(id)) {
            Some(action) => Some(*action),
            None => None,
        }
    }

    pub fn timelock_admin(&self) -> (r: Option<Address>)
        ensures
            r == self@.timelock_admin,
            r == self.timelock_admin,
    {
        self.timelock_admin
    }

    pub fn buyer_limit_bps(&self) -> (r: i128)
        ensures
            r == (match self@.config {
                Some(c) => c.buyer_limit_bps,
                None => 0,
            }),
    {
        match self.config {
            Some(c) => c.buyer_limit_bps,
            None => 0,
        }
    }

    pub fn sme_limit_bps(&self) -> (r: i128)
        ensures
            r == (match self@.config {
                Some(c) => c.sme_limit_bps,
                None => 0,
            }),
    {
        match self.config {
            Some(c) => c.sme_limit_bps,
            None => 0,
        }
    }

    pub fn min_deposit(&self) -> (r: i128)
        ensures
            r == (match self@.config {
                Some(c) => c.min_deposit,
                None => 0,
            }),
    {
        match self.config {
            Some(c) => c.min_deposit,
            None => 0,
        }
    }

    pub fn max_deposit(&self) -> (r: i128)
        ensures
            r == (match self@.config {
                Some(c) => c.max_deposit,
                None => 0,
            }),
    {
        match self.config {
            Some(c) => c.max_deposit,
            None => 0,
        }
    }

    pub fn reserve_ratio_bps(&self) -> (r: i128)
        ensures
            r == (match self@.config {
                Some(c) => c.reserve_ratio_bps,
                None => 0,
            }),
    {
        match self.config {
            Some(c) => c.reserve_ratio_bps,
            None => 0,
        }
    }

    pub fn total_shares(&self) -> (r: i128)
        ensures
            r == self@.issued(),
            r == (match self.total_shares {
                Some(x) => x,
                None => 0,
            }),
    {
        value_or_zero(self.total_shares)
    }

    /// The pool's total value.
    pub fn total_capital(&self) -> (r: i128)
        ensures
            r == self@.capital(),
            r == (match self.total_capital {
                Some(x) => x,
                None => 0,
            }),
    {
        value_or_zero(self.total_capital)
    }

    pub fn financed_amount(&self) -> (r: i128)
        ensures
            r == self@.financed(),
            r == (match self.financed_amount {
                Some(x) => x,
                None => 0,
            }),
    {
        value_or_zero(self.financed_amount)
    }

    pub fn max_utilisation(&self) -> (r: i128)
        ensures
            r == self@.ceiling(),
            r == (match self.max_utilisation {
                Some(x) => x,
                None => 0,
            }),
    {
        value_or_zero(self.max_utilisation)
    }

    /// The NAV per share, scaled by `NAV_SCALE`; one before `initialize`.
    pub fn nav(&self) -> (r: i128)
        ensures
            r == (match self@.nav {
                Some(nav) => nav,
                None => NAV_SCALE,
            }),
            self.nav is None ==> r == 1_000_000,
    {
        match self.nav {
            Some(nav) => nav,
            None => NAV_SCALE,
        }
    }

    /// Idle liquidity: capital that is not financed.
    pub fn reserve(&self) -> (r: i128)
        requires
            fits(self@.capital() - self@.financed()),
        ensures
            r == self@.capital() - self@.financed(),
    {
        value_or_zero(self.total_capital) - value_or_zero(self.financed_amount)
    }

    pub fn is_donor_blocked(&self) -> (r: bool)
        ensures
            r == self@.donor_blocked,
            r == self.donor_blocked,
    {
        self.donor_blocked
    }

    /// The version of the contract's interface.
    pub fn version() -> (r: u32)
        ensures
            r == 1,
    {
        1
    }

    /// Hands out the events announced since the last call.
    pub fn take_events(&mut self) -> (r: Vec<PoolEvent>)
        requires
            old(self).wf(),
        ensures
            final(self).wf(),
            r@ == old(self)@.events,
            final(self)@ == (PoolState { events: Seq::empty(), ..old(self)@ }),
    {
        let mut taken: Vec<PoolEvent> = Vec::new();
        std::mem::swap(&mut taken, &mut self.events);
        assert(self@ =~= (PoolState { events: Seq::empty(), ..old(self)@ }));
        taken
    }
}

/// Whether a call stays in range: what a caller can ask before making it.
impl PoolManager {
    pub fn deposit_fits(&self, lender: Symbol, amount: i128) -> (r: bool)
        requires
            self.wf(),
        ensures
            r == self@.deposit_fits(lender, amount),
    {
        let nav: i128 = match self.nav {
            Some(nav) if amount > 0 => nav,
            _ => {
                return true;
            },
        };
        if !product_fits(amount, NAV_SCALE) {
            return false;
        }
        proof {
            lemma_quotient_in_range(amount * NAV_SCALE, nav as int);
        }
        let shares: i128 = amount * NAV_SCALE / nav;
        if !sum_fits(self.lender_shares(lender), shares) || !sum_fits(
            value_or_zero(self.total_shares),
            shares,
        ) {
            return false;
        }
        product_fits(value_or_zero(self.total_shares) + shares, nav)
    }

    pub fn withdraw_fits(&self, lender: Symbol, shares: i128) -> (r: bool)
        requires
            self.wf(),
        ensures
            r == self@.withdraw_fits(lender, shares),
    {
        if shares <= 0 || self.lender_shares(lender) < shares {
            return true;
        }
        let nav: i128 = match self.nav {
            Some(nav) => nav,
            None => {
                return true;
            },
        };
        proof {
            self@.law_lender_within_total(lender);
        }
        let total: i128 = value_or_zero(self.total_shares) - shares;
        if !product_fits(shares, nav) || !product_fits(total, nav) {
            return false;
        }
        proof {
            assert(total * nav >= 0) by (nonlinear_arith)
                requires
                    total >= 0,
                    nav >= 0,
            ;
        }
        product_fits(total * nav / NAV_SCALE, value_or_zero(self.max_utilisation))
    }

    pub fn finance_fits(&self, amount: i128) -> (r: bool)
        ensures
            r == self@.finance_fits(amount),
    {
        if amount <= 0 || self.financed_amount.is_none() || self.total_capital.is_none()
            || self.max_utilisation.is_none() {
            return true;
        }
        sum_fits(value_or_zero(self.financed_amount), amount) && product_fits(
            value_or_zero(self.total_capital),
            value_or_zero(self.max_utilisation),
        )
    }

    pub fn set_nav_fits(&self, new_nav: i128) -> (r: bool)
        requires
            self.wf(),
        ensures
            r == self@.set_nav_fits(new_nav),
    {
        if new_nav <= 0 || self.total_shares.is_none() || self.max_utilisation.is_none() {
            return true;
        }
        let total: i128 = value_or_zero(self.total_shares);
        if !product_fits(total, new_nav) {
            return false;
        }
        proof {
            assert(total * new_nav >= 0) by (nonlinear_arith)
                requires
                    total >= 0,
                    new_nav >= 0,
            ;
        }
        product_fits(total * new_nav / NAV_SCALE, value_or_zero(self.max_utilisation))
    }

    pub fn reserve_delta_fits(&self, delta: i128) -> (r: bool)
        requires
            self.wf(),
        ensures
            r == self@.reserve_delta_fits(delta),
    {
        let total: i128 = value_or_zero(self.total_shares);
        if !sum_fits(value_or_zero(self.total_capital), delta) {
            return false;
        }
        let capital: i128 = value_or_zero(self.total_capital) + delta;
        if capital < 0 {
            return true;
        }
        if total > 0 {
            if !product_fits(capital, NAV_SCALE) {
                return false;
            }
            proof {
                lemma_quotient_in_range(capital * NAV_SCALE, total as int);
            }
            if capital * NAV_SCALE / total <= 0 {
                return true;
            }
        }
        product_fits(capital, value_or_zero(self.max_utilisation))
    }

    pub fn queue_fits(&self, now: u64) -> (r: bool)
        ensures
            r == self@.queue_fits(now),
    {
        self.timelock_admin.is_none() || (self.next_action < u32::MAX && now <= u64::MAX
            - TIMELOCK_SECS)
    }

    pub fn execute_fits(&self, now: u64, id: u32) -> (r: bool)
        requires
            self.wf(),
        ensures
            r == self@.execute_fits(now, id),
    {
        match self.actions.get(&ActionKey(id)) {
            Some(action) => action.cancelled || action.executed || now < action.execute_after
                || action.param.head != MAX_UTIL_NAME || action.param.tail != 0 || product_fits(
                value_or_zero(self.total_capital),
                action.new_value,
            ),
            None => true,
        }
    }

    pub fn rebalance_fits(&self, self_addr: Address, peers: &Vec<PoolReport>) -> (r: bool)
        requires
            self.wf(),
        ensures
            r == self@.rebalance_fits(self_addr, peers@),
    {
        let own = self.pool_report(self_addr);
        let ghost pools = self@.considered(self_addr, peers@);
        assert(pools[0] == own);
        if !own.is_in_range() {
            return false;
        }
        let mut i: usize = 0;
        while i < peers.len()
            invariant
                i <= peers@.len(),
                pools == seq![own] + peers@,
                pools == self@.considered(self_addr, peers@),
                forall|j: int| 0 <= j < i + 1 ==> (#[trigger] pools[j]).in_range(),
            decreases peers@.len() - i,
        {
            assert(pools[i + 1] == peers@[i as int]);
            if !peers[i].is_in_range() {
                return false;
            }
            i += 1;
        }
        if !settle(own, peers).plan_in_range() {
            return false;
        }
        proof {
            lemma_plan_positive(pools);
        }
        match plan_rebalance(own, peers) {
            Some(t) => if t.donor == self_addr {
                self.reserve_delta_fits(-t.amount)
            } else if t.needy == self_addr {
                self.reserve_delta_fits(t.amount)
            } else {
                true
            },
            None => true,
        }
    }
}

/// A quotient of an amount by a positive number is an amount.
proof fn lemma_quotient_in_range(a: int, b: int)
    requires
        a >= 0,
        b > 0,
    ensures
        0 <= a / b <= a,
{
    vstd::arithmetic::div_mod::lemma_div_pos_is_pos(a, b);
    vstd::arithmetic::div_mod::lemma_div_is_ordered_by_denominator(a, 1, b);
}

impl PoolReport {
    fn is_in_range(&self) -> (r: bool)
        ensures
            r == self.in_range(),
    {
        difference_fits(self.capital, self.financed) && (self.capital <= 0 || product_fits(
            self.capital - self.financed,
            BPS_SCALE,
        ))
    }
}

/// The pools that a rebalance has settled on so far.
struct Candidates {
    needy: Option<PoolReport>,
    needy_bps: i128,
    donor: Option<PoolReport>,
}

impl Candidates {
    /// These are the neediest and the richest of `pools`.
    spec fn of(self, pools: Seq<PoolReport>) -> bool {
        &&& match neediest(pools) {
            Some(i) => 0 <= i < pools.len() && self.needy == Some(pools[i]) && self.needy_bps
                == pools[i].coverage(),
            None => self.needy is None && self.needy_bps == RESERVE_FLOOR_BPS,
        }
        &&& match richest(pools) {
            Some(i) => 0 <= i < pools.len() && self.donor == Some(pools[i]),
            None => self.donor is None,
        }
        &&& self.donor matches Some(d) ==> fits(d.reserve())
        &&& self.needy matches Some(n) ==> fits(n.reserve()) && n.capital > 0
    }

    /// Takes one more pool into account.
    fn consider(self, pool: PoolReport) -> (r: Candidates)
        requires
            pool.in_range(),
            self.donor matches Some(d) ==> fits(d.reserve()),
        ensures
            forall|pools: Seq<PoolReport>| #[trigger]
                self.of(pools) ==> r.of(pools.push(pool)),
    {
        let reserve: i128 = pool.capital - pool.financed;
        let mut next = Candidates { needy: self.needy, needy_bps: self.needy_bps, donor: self.donor };
        if pool.capital > 0 {
            let reserve_bps: i128 = reserve * BPS_SCALE / pool.capital;
            assert(reserve_bps == pool.coverage());
            if reserve_bps < next.needy_bps {
                next.needy_bps = reserve_bps;
                next.needy = Some(pool);
            }
        }
        if !pool.donor_blocked {
            let is_higher: bool = match self.donor {
                Some(best) => reserve > best.capital - best.financed,
                None => true,
            };
            if is_higher {
                next.donor = Some(pool);
            }
        }
        proof {
            assert forall|pools: Seq<PoolReport>| #[trigger] self.of(pools) implies next.of(
                pools.push(pool),
            ) by {
                assert(pools.push(pool).drop_last() =~= pools);
            }
        }
        next
    }

    /// Whether working out the plan stays in range.
    fn plan_in_range(&self) -> (r: bool)
        ensures
            forall|pools: Seq<PoolReport>| #[trigger] self.of(pools) ==> r == plan_fits(pools),
    {
        match (self.needy, self.donor) {
            (Some(needy), Some(donor)) => {
                if needy.address == donor.address {
                    return true;
                }
                if !difference_fits(needy.capital, needy.financed) || !difference_fits(
                    donor.capital,
                    donor.financed,
                ) {
                    return false;
                }
                if !product_fits(needy.capital, RESERVE_FLOOR_BPS) {
                    return false;
                }
                let target: i128 = needy.capital * RESERVE_FLOOR_BPS / BPS_SCALE;
                if !difference_fits(target, needy.capital - needy.financed) {
                    return false;
                }
                if target - (needy.capital - needy.financed) <= 0 {
                    return true;
                }
                if !product_fits(donor.capital, RESERVE_FLOOR_BPS) {
                    return false;
                }
                let floor: i128 = donor.capital * RESERVE_FLOOR_BPS / BPS_SCALE;
                if !difference_fits(donor.capital - donor.financed, floor) {
                    return false;
                }
                let above: i128 = (donor.capital - donor.financed) - floor;
                above <= 0 || product_fits(above, DONOR_CAP_BPS)
            },
            _ => true,
        }
    }
}

/// The neediest and the richest of this pool and its peers.
fn settle(own: PoolReport, peers: &Vec<PoolReport>) -> (best: Candidates)
    requires
        forall|i: int|
            0 <= i < peers@.len() + 1 ==> (#[trigger] (seq![own] + peers@)[i]).in_range(),
    ensures
        best.of(seq![own] + peers@),
{
    let ghost pools = seq![own] + peers@;
    let start = Candidates { needy: None, needy_bps: RESERVE_FLOOR_BPS, donor: None };
    assert(start.of(Seq::empty()));
    assert(pools[0].in_range());
    let mut best = start.consider(own);
    assert(Seq::empty().push(own) =~= pools.take(1));
    let mut i: usize = 0;
    while i < peers.len()
        invariant
            i <= peers@.len(),
            pools == seq![own] + peers@,
            forall|j: int| 0 <= j < pools.len() ==> (#[trigger] pools[j]).in_range(),
            best.of(pools.take(i + 1)),
        decreases peers@.len() - i,
    {
        assert(pools[i + 1] == peers@[i as int]);
        best = best.consider(peers[i]);
        assert(pools.take(i + 1).push(peers@[i as int]) =~= pools.take(i + 2));
        i += 1;
    }
    assert(pools.take(i + 1) =~= pools);
    best
}

/// Works out what moves between this pool and its peers, if anything.
fn plan_rebalance(own: PoolReport, peers: &Vec<PoolReport>) -> (r: Option<Rebalance>)
    requires
        forall|i: int|
            0 <= i < peers@.len() + 1 ==> (#[trigger] (seq![own] + peers@)[i]).in_range(),
        plan_fits(seq![own] + peers@),
    ensures
        r == planned(seq![own] + peers@),
{
    let best = settle(own, peers);
    let needy: PoolReport = match best.needy {
        Some(pool) => pool,
        None => {
            return None;
        },
    };
    let donor: PoolReport = match best.donor {
        Some(pool) => pool,
        None => {
            return None;
        },
    };
    if donor.address == needy.address {
        return None;
    }
    let needy_target: i128 = needy.capital * RESERVE_FLOOR_BPS / BPS_SCALE;
    let lacking: i128 = needy_target - (needy.capital - needy.financed);
    if lacking <= 0 {
        return None;
    }
    let donor_floor: i128 = donor.capital * RESERVE_FLOOR_BPS / BPS_SCALE;
    let donor_excess: i128 = (donor.capital - donor.financed) - donor_floor;
    if donor_excess <= 0 {
        return None;
    }
    let max_donation: i128 = donor_excess * DONOR_CAP_BPS / BPS_SCALE;
    let amount: i128 = if lacking <= max_donation {
        lacking
    } else {
        max_donation
    };
    if amount <= 0 {
        return None;
    }
    Some(Rebalance { donor: donor.address, needy: needy.address, amount })
}

/// Filing one sound action keeps all actions well filed.
pub proof fn lemma_file(actions: Map<ActionKey, QueuedAction>, next: u32, after: u32, a: QueuedAction)
    requires
        filed(actions, next),
        next <= after,
        a.id < after,
        a.execute_after == a.queued_at + TIMELOCK_SECS,
    ensures
        filed(actions.insert(ActionKey(a.id), a), after),
{
    let m = actions.insert(ActionKey(a.id), a);
    assert forall|k: ActionKey| #[trigger] m.contains_key(k) implies m[k].id == k.0 && k.0 < after
        && m[k].execute_after == m[k].queued_at + TIMELOCK_SECS by {
        if k != ActionKey(a.id) {
            assert(actions.contains_key(k));
        }
    }
}

/// A planned transfer has two sides and a positive amount.
proof fn lemma_plan_positive(pools: Seq<PoolReport>)
    requires
        plan_fits(pools),
    ensures
        planned(pools) matches Some(t) ==> t.amount > 0 && t.donor != t.needy,
{
}

impl PoolState {
    /// Nobody holds more than was issued.
    pub proof fn law_lender_within_total(self, lender: Symbol)
        requires
            self.inv(),
        ensures
            0 <= self.shares_of(lender) <= self.issued(),
            self.shares_of(lender) <= self.held(),
    {
        assert forall|k: LenderKey| #[trigger] self.lenders.contains_key(k) implies (shares_in())(
            self.lenders[k],
        ) >= 0 by {}
        lemma_sum_bounds(self.lenders, shares_in(), LenderKey(lender));
    }
}

} // verus!
