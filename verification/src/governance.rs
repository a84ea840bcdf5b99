//! Governance of pool parameters: holders of voting power propose changes and
//! vote on them. A proposal takes effect the moment its tally clears both the
//! quorum and the majority that its kind asks for.
//!
//! Voting power is a registry that the admin keeps. Pools know their lenders
//! by name and not by address, so there is no balance of shares under an
//! address to read it from.

use vstd::prelude::*;

use crate::arith::{fits, product_fits, sum_fits};
use crate::ident::{Address, Authorization, Symbol};
use crate::table::{lemma_sum_bounds, lemma_sum_insert, sum_of, Key, Table};

verus! {

/// What governance refuses a call for.
#[derive(Clone, Copy, Debug, PartialEq, Eq, PartialOrd, Ord, Structural)]
pub enum Error {
    /// `initialize` called on an already initialized contract.
    AlreadyInitialized,
    /// A call that needs the configuration was made before `initialize`.
    NotInitialized,
    /// A share was outside `(0, 10_000]`, or the supermajority was none.
    InvalidConfig,
    /// The referenced proposal does not exist.
    ProposalNotFound,
    /// The caller holds no voting power, so can neither propose nor vote.
    NoVotingPower,
    /// `vote` was called after the voting window closed.
    VotingClosed,
    /// `execute_proposal` was called before the voting window closed.
    VotingStillOpen,
    /// The voter has already voted on this proposal.
    AlreadyVoted,
    /// The proposal has already taken effect.
    AlreadyFinalized,
}

/// One whole, in basis points.
pub const BPS_SCALE: u32 = 10_000;

/// Half, in basis points: what a strict majority exceeds.
pub const STANDARD_THRESHOLD_BPS: u32 = 5_000;

/// Whether a proposal needs a strict majority of the votes cast, or the
/// configured supermajority, for changes that a slim majority should not make.
#[derive(Clone, Copy, Debug, PartialEq, Eq, Structural)]
pub enum ProposalKind {
    Standard,
    Critical,
}

/// A proposal to set the parameter `param` to `new_value`.
#[derive(Clone, Copy, Debug, PartialEq, Eq, Structural)]
pub struct Proposal {
    pub id: u32,
    pub proposer: Address,
    pub kind: ProposalKind,
    pub param: Symbol,
    pub new_value: i128,
    pub created_at: u64,
    pub voting_end: u64,
    pub votes_for: i128,
    pub votes_against: i128,
    pub executed: bool,
}

/// What `initialize` sets.
#[derive(Clone, Copy, Debug, PartialEq, Eq, Structural)]
pub struct GovernanceConfig {
    /// Who keeps the registry of voting power.
    pub admin: Address,
    /// How long a new proposal is open to votes.
    pub voting_period_secs: u64,
    /// The share of all voting power that has to be cast.
    pub quorum_bps: u32,
    /// The share of the votes cast that a critical proposal needs.
    pub supermajority_bps: u32,
}

/// The key of a cast vote: the proposal and the voter.
#[derive(Clone, Copy, Debug, PartialEq, Eq, Structural)]
pub struct VoteKey(pub u32, pub Address);

impl Key for VoteKey {
    fn same(&self, other: &Self) -> (r: bool) {
        *self == *other
    }
}

/// What governance announces.
#[derive(Clone, Copy, Debug, PartialEq, Eq, Structural)]
pub enum GovernanceEvent {
    Proposed { id: u32, proposer: Address, param: Symbol, new_value: i128 },
    Voted { id: u32, voter: Address, support: bool, power: i128, executed: bool },
    Executed { id: u32, param: Symbol, new_value: i128 },
}

/// The state of governance as the contracts speak of it.
#[verifier::ext_equal]
pub struct GovernanceState {
    pub config: Option<GovernanceConfig>,
    pub total_power: i128,
    pub next_proposal: u32,
    pub powers: Map<Address, i128>,
    pub proposals: Map<u32, Proposal>,
    pub voted: Map<VoteKey, bool>,
    pub parameters: Map<Symbol, i128>,
    pub events: Seq<GovernanceEvent>,
}

/// The answer to a call: the state it leaves, and what it returns.
pub type Answer<T> = (GovernanceState, Result<T, Error>);

/// A voter's power as a number.
pub open spec fn power_in() -> spec_fn(i128) -> int {
    |p: i128| p as int
}

/// Nobody's voting power is negative.
pub open spec fn no_negative_power(powers: Map<Address, i128>) -> bool {
    forall|k: Address| #[trigger] powers.contains_key(k) ==> powers[k] >= 0
}

/// Every proposal is filed under its own id, below `next`, and its tallies are
/// not negative.
pub open spec fn filed(proposals: Map<u32, Proposal>, next: u32) -> bool {
    forall|k: u32| #[trigger]
        proposals.contains_key(k) ==> proposals[k].id == k && k < next && proposals[k].votes_for
            >= 0 && proposals[k].votes_against >= 0
}

/// The shares of a configuration are in range, and the supermajority is a
/// majority.
pub open spec fn valid_shares(quorum_bps: u32, supermajority_bps: u32) -> bool {
    &&& 0 < quorum_bps <= BPS_SCALE
    &&& STANDARD_THRESHOLD_BPS < supermajority_bps <= BPS_SCALE
}

impl Proposal {
    /// The voting power that was cast.
    pub open spec fn cast(self) -> int {
        self.votes_for + self.votes_against
    }

    /// The proposal with one more vote.
    pub open spec fn tallied(self, support: bool, power: int) -> Proposal {
        if support {
            Proposal { votes_for: (self.votes_for + power) as i128, ..self }
        } else {
            Proposal { votes_against: (self.votes_against + power) as i128, ..self }
        }
    }

    /// At least the quorum's share of `total` was cast, and something was.
    pub open spec fn has_quorum(self, total: int, quorum_bps: int) -> bool {
        total != 0 && self.cast() != 0 && self.cast() * BPS_SCALE >= quorum_bps * total
    }

    /// The votes in favour are the majority that the kind asks for.
    pub open spec fn has_majority(self, supermajority_bps: int) -> bool {
        match self.kind {
            ProposalKind::Standard => 2 * self.votes_for > self.cast(),
            ProposalKind::Critical => self.votes_for * BPS_SCALE >= supermajority_bps * self.cast(),
        }
    }
}

impl GovernanceState {
    /// Governance before any call.
    pub open spec fn empty() -> GovernanceState {
        GovernanceState {
            config: None,
            total_power: 0,
            next_proposal: 0,
            powers: Map::empty(),
            proposals: Map::empty(),
            voted: Map::empty(),
            parameters: Map::empty(),
            events: Seq::empty(),
        }
    }

    /// The voting power of all recorded voters together.
    pub open spec fn granted(self) -> int {
        sum_of(self.powers, power_in())
    }

    /// What holds of every state: before `initialize` nobody has voting power
    /// and nothing is proposed, the configured shares are valid, nobody's
    /// power is negative, the recorded voters have no more than the total, and
    /// every proposal is filed under its own id.
    pub open spec fn inv(self) -> bool {
        &&& self.config is None ==> self.total_power == 0 && self.next_proposal == 0
        &&& self.config matches Some(c) ==> valid_shares(c.quorum_bps, c.supermajority_bps)
        &&& self.powers.dom().finite()
        &&& no_negative_power(self.powers)
        &&& self.granted() <= self.total_power
        &&& filed(self.proposals, self.next_proposal)
    }

    pub open spec fn power_of(self, voter: Address) -> int {
        if self.powers.contains_key(voter) {
            self.powers[voter] as int
        } else {
            0
        }
    }

    pub open spec fn initialize(
        self,
        admin: Address,
        voting_period_secs: u64,
        quorum_bps: u32,
        supermajority_bps: u32,
    ) -> Answer<()> {
        if self.config is Some {
            (self, Err(Error::AlreadyInitialized))
        } else if !valid_shares(quorum_bps, supermajority_bps) {
            (self, Err(Error::InvalidConfig))
        } else {
            (
                GovernanceState {
                    config: Some(
                        GovernanceConfig {
                            admin,
                            voting_period_secs,
                            quorum_bps,
                            supermajority_bps,
                        },
                    ),
                    total_power: 0,
                    next_proposal: 0,
                    ..self
                },
                Ok(()),
            )
        }
    }

    /// The admin, if there is one, authorized the call.
    pub open spec fn admin_authorized(self, auth: &Authorization) -> bool {
        self.config matches Some(c) ==> auth.covers(c.admin)
    }

    pub open spec fn set_voting_power(self, voter: Address, power: i128) -> Answer<()> {
        if self.config is None {
            (self, Err(Error::NotInitialized))
        } else {
            (
                GovernanceState {
                    powers: self.powers.insert(voter, power),
                    total_power: (self.total_power - self.power_of(voter) + power) as i128,
                    ..self
                },
                Ok(()),
            )
        }
    }

    /// Setting the power stays in range.
    pub open spec fn power_fits(self, voter: Address, power: i128) -> bool {
        self.config is Some ==> fits(self.total_power - self.power_of(voter) + power)
    }

    pub open spec fn create_proposal(
        self,
        now: u64,
        proposer: Address,
        kind: ProposalKind,
        param: Symbol,
        new_value: i128,
    ) -> Answer<u32> {
        match self.config {
            None => (self, Err(Error::NotInitialized)),
            Some(c) => if self.power_of(proposer) == 0 {
                (self, Err(Error::NoVotingPower))
            } else {
                let id = self.next_proposal;
                let proposal = Proposal {
                    id,
                    proposer,
                    kind,
                    param,
                    new_value,
                    created_at: now,
                    voting_end: (now + c.voting_period_secs) as u64,
                    votes_for: 0,
                    votes_against: 0,
                    executed: false,
                };
                (
                    GovernanceState {
                        next_proposal: (id + 1) as u32,
                        proposals: self.proposals.insert(id, proposal),
                        events: self.events.push(
                            GovernanceEvent::Proposed { id, proposer, param, new_value },
                        ),
                        ..self
                    },
                    Ok(id),
                )
            },
        }
    }

    /// There is an id left for one more proposal, and its window ends in
    /// range.
    pub open spec fn proposal_fits(self, now: u64, proposer: Address) -> bool {
        self.power_of(proposer) != 0 ==> (self.config matches Some(c) ==> self.next_proposal
            < u32::MAX && now + c.voting_period_secs <= u64::MAX)
    }

    /// The share of all voting power that has to be cast: all of it where
    /// nothing is configured.
    pub open spec fn quorum(self) -> int {
        match self.config {
            Some(c) => c.quorum_bps as int,
            None => BPS_SCALE as int,
        }
    }

    /// The share of the votes cast that a critical proposal needs.
    pub open spec fn supermajority(self) -> int {
        match self.config {
            Some(c) => c.supermajority_bps as int,
            None => BPS_SCALE as int,
        }
    }

    /// The proposal has its quorum and its majority.
    pub open spec fn passes(self, proposal: Proposal) -> bool {
        &&& proposal.has_quorum(self.total_power as int, self.quorum())
        &&& proposal.has_majority(self.supermajority())
    }

    /// Weighing the tally stays in range.
    pub open spec fn tally_fits(self, proposal: Proposal) -> bool {
        &&& fits(proposal.cast())
        &&& self.total_power != 0 && proposal.cast() != 0 ==> fits(proposal.cast() * BPS_SCALE)
            && fits(self.quorum() * self.total_power)
        &&& proposal.has_quorum(self.total_power as int, self.quorum()) && proposal.kind
            == ProposalKind::Critical ==> fits(proposal.votes_for * BPS_SCALE) && fits(
            self.supermajority() * proposal.cast(),
        )
    }

    /// The proposal as it is now takes the place of what it was; where it
    /// passes, it takes effect.
    pub open spec fn settled(self, proposal: Proposal) -> GovernanceState {
        if self.passes(proposal) {
            GovernanceState {
                proposals: self.proposals.insert(
                    proposal.id,
                    Proposal { executed: true, ..proposal },
                ),
                parameters: self.parameters.insert(proposal.param, proposal.new_value),
                events: self.events.push(
                    GovernanceEvent::Executed {
                        id: proposal.id,
                        param: proposal.param,
                        new_value: proposal.new_value,
                    },
                ),
                ..self
            }
        } else {
            GovernanceState { proposals: self.proposals.insert(proposal.id, proposal), ..self }
        }
    }

    /// Why a vote is refused, if it is.
    pub open spec fn vote_refusal(self, now: u64, id: u32, voter: Address) -> Option<Error> {
        if self.power_of(voter) == 0 {
            Some(Error::NoVotingPower)
        } else if !self.proposals.contains_key(id) {
            Some(Error::ProposalNotFound)
        } else if self.proposals[id].executed {
            Some(Error::AlreadyFinalized)
        } else if now >= self.proposals[id].voting_end {
            Some(Error::VotingClosed)
        } else if self.voted.contains_key(VoteKey(id, voter)) {
            Some(Error::AlreadyVoted)
        } else {
            None
        }
    }

    pub open spec fn vote(self, now: u64, id: u32, voter: Address, support: bool) -> Answer<bool> {
        match self.vote_refusal(now, id, voter) {
            Some(e) => (self, Err(e)),
            None => {
                let power = self.power_of(voter);
                let proposal = self.proposals[id].tallied(support, power);
                let executed = self.passes(proposal);
                let next = self.settled(proposal);
                (
                    GovernanceState {
                        voted: self.voted.insert(VoteKey(id, voter), true),
                        events: next.events.push(
                            GovernanceEvent::Voted {
                                id,
                                voter,
                                support,
                                power: power as i128,
                                executed,
                            },
                        ),
                        ..next
                    },
                    Ok(executed),
                )
            },
        }
    }

    /// A vote stays in range.
    pub open spec fn vote_fits(self, now: u64, id: u32, voter: Address, support: bool) -> bool {
        self.vote_refusal(now, id, voter) is None ==> {
            let before = self.proposals[id];
            let power = self.power_of(voter);
            &&& fits((if support { before.votes_for } else { before.votes_against }) + power)
            &&& self.tally_fits(before.tallied(support, power))
        }
    }

    pub open spec fn execute_proposal(self, now: u64, id: u32) -> Answer<bool> {
        if !self.proposals.contains_key(id) {
            (self, Err(Error::ProposalNotFound))
        } else {
            let proposal = self.proposals[id];
            if proposal.executed {
                (self, Ok(true))
            } else if now < proposal.voting_end {
                (self, Err(Error::VotingStillOpen))
            } else {
                (self.settled(proposal), Ok(self.passes(proposal)))
            }
        }
    }

    /// Executing the proposal stays in range.
    pub open spec fn execute_fits(self, now: u64, id: u32) -> bool {
        self.proposals.contains_key(id) && !self.proposals[id].executed && now
            >= self.proposals[id].voting_end ==> self.tally_fits(self.proposals[id])
    }
}

/// On-ledger governance. Everything it stores is in its fields; `events` holds
/// what it has announced and the ledger has not taken yet.
pub struct Governance {
    pub config: Option<GovernanceConfig>,
    pub total_power: i128,
    pub next_proposal: u32,
    pub powers: Table<Address, i128>,
    pub proposals: Table<u32, Proposal>,
    pub voted: Table<VoteKey, bool>,
    pub parameters: Table<Symbol, i128>,
    pub events: Vec<GovernanceEvent>,
}

impl View for Governance {
    type V = GovernanceState;

    open spec fn view(&self) -> GovernanceState {
        GovernanceState {
            config: self.config,
            total_power: self.total_power,
            next_proposal: self.next_proposal,
            powers: self.powers@,
            proposals: self.proposals@,
            voted: self.voted@,
            parameters: self.parameters@,
            events: self.events@,
        }
    }
}

impl Governance {
    /// The tables are sound and the invariant holds.
    pub open spec fn wf(&self) -> bool {
        &&& self.powers.wf()
        &&& self.proposals.wf()
        &&& self.voted.wf()
        &&& self.parameters.wf()
        &&& self@.inv()
    }

    /// Governance before any call.
    pub fn new() -> (g: Governance)
        ensures
            g.wf(),
            g@ == GovernanceState::empty(),
    {
        let g = Governance {
            config: None,
            total_power: 0,
            next_proposal: 0,
            powers: Table::new(),
            proposals: Table::new(),
            voted: Table::new(),
            parameters: Table::new(),
            events: Vec::new(),
        };
        assert(g@ =~= GovernanceState::empty());
        g
    }

    /// One-time initialization. A new proposal is open to votes for
    /// `voting_period_secs`; the shares are in basis points, and the
    /// supermajority has to exceed one half.
    pub fn initialize(
        &mut self,
        admin: Address,
        voting_period_secs: u64,
        quorum_bps: u32,
        supermajority_bps: u32,
    ) -> (r: Result<(), Error>)
        requires
            old(self).wf(),
        ensures
            final(self).wf(),
            (final(self)@, r) == old(self)@.initialize(
                admin,
                voting_period_secs,
                quorum_bps,
                supermajority_bps,
            ),
    {
        if self.config.is_some() {
            return Err(Error::AlreadyInitialized);
        }
        if quorum_bps == 0 || quorum_bps > BPS_SCALE || supermajority_bps <= STANDARD_THRESHOLD_BPS
            || supermajority_bps > BPS_SCALE {
            return Err(Error::InvalidConfig);
        }
        self.config = Some(
            GovernanceConfig { admin, voting_period_secs, quorum_bps, supermajority_bps },
        );
        self.total_power = 0;
        self.next_proposal = 0;
        Ok(())
    }

    /// Sets the voter's power, in place of what it was. The admin must have
    /// authorized the call.
    pub fn set_voting_power(&mut self, auth: &Authorization, voter: Address, power: i128) -> (r:
        Result<(), Error>)
        requires
            old(self).wf(),
            power >= 0,
            old(self)@.admin_authorized(auth),
            old(self)@.power_fits(voter, power),
        ensures
            final(self).wf(),
            (final(self)@, r) == old(self)@.set_voting_power(voter, power),
    {
        if self.config.is_none() {
            return Err(Error::NotInitialized);
        }
        let previous: i128 = self.get_voting_power(voter);
        proof {
            self@.law_power_within_total(voter);
            lemma_sum_insert(self@.powers, power_in(), voter, power);
        }
        self.powers.set(voter, power);
        self.total_power = self.total_power - previous + power;
        proof {
            assert forall|k: Address| #[trigger] self@.powers.contains_key(k) implies
                self@.powers[k] >= 0 by {
                if k != voter {
                    assert(old(self)@.powers.contains_key(k));
                }
            }
        }
        Ok(())
    }

    /// Creates a proposal and returns its id. The proposer must hold voting
    /// power and have authorized the call.
    pub fn create_proposal(
        &mut self,
        auth: &Authorization,
        now: u64,
        proposer: Address,
        kind: ProposalKind,
        param: Symbol,
        new_value: i128,
    ) -> (r: Result<u32, Error>)
        requires
            old(self).wf(),
            auth.covers(proposer),
            old(self)@.proposal_fits(now, proposer),
        ensures
            final(self).wf(),
            (final(self)@, r) == old(self)@.create_proposal(now, proposer, kind, param, new_value),
    {
        let config = match self.config {
            Some(config) => config,
            None => {
                return Err(Error::NotInitialized);
            },
        };
        if self.get_voting_power(proposer) == 0 {
            return Err(Error::NoVotingPower);
        }
        let id: u32 = self.next_proposal;
        self.next_proposal = id + 1;
        let proposal = Proposal {
            id,
            proposer,
            kind,
            param,
            new_value,
            created_at: now,
            voting_end: now + config.voting_period_secs,
            votes_for: 0,
            votes_against: 0,
            executed: false,
        };
        self.proposals.set(id, proposal);
        self.events.push(GovernanceEvent::Proposed { id, proposer, param, new_value });
        proof {
            lemma_filed(old(self)@.proposals, old(self)@.next_proposal, id + 1, proposal);
        }
        Ok(id)
    }

    /// Casts the voter's whole power for or against the proposal. The voter
    /// must have authorized the call. Where this vote makes the proposal pass,
    /// it takes effect at once; the answer is whether it did.
    pub fn vote(
        &mut self,
        auth: &Authorization,
        now: u64,
        proposal_id: u32,
        voter: Address,
        support: bool,
    ) -> (r: Result<bool, Error>)
        requires
            old(self).wf(),
            auth.covers(voter),
            old(self)@.vote_fits(now, proposal_id, voter, support),
        ensures
            final(self).wf(),
            (final(self)@, r) == old(self)@.vote(now, proposal_id, voter, support),
    {
        let power: i128 = self.get_voting_power(voter);
        proof {
            self@.law_power_within_total(voter);
        }
        if power == 0 {
            return Err(Error::NoVotingPower);
        }
        let mut proposal = match self.read_proposal(proposal_id) {
            Ok(proposal) => proposal,
            Err(e) => {
                return Err(e);
            },
        };
        if proposal.executed {
            return Err(Error::AlreadyFinalized);
        }
        if now >= proposal.voting_end {
            return Err(Error::VotingClosed);
        }
        if self.voted.get(&VoteKey(proposal_id, voter)).is_some() {
            return Err(Error::AlreadyVoted);
        }
        if support {
            proposal.votes_for = proposal.votes_for + power;
        } else {
            proposal.votes_against = proposal.votes_against + power;
        }
        assert(proposal == old(self)@.proposals[proposal_id].tallied(support, power as int));
        let executed: bool = self.try_execute(proposal);
        self.voted.set(VoteKey(proposal_id, voter), true);
        self.events.push(
            GovernanceEvent::Voted { id: proposal_id, voter, support, power, executed },
        );
        Ok(executed)
    }

    /// Settles the proposal once its voting window has closed: it takes effect
    /// where it passes, and stays as it is where it does not. On a proposal
    /// that has taken effect it answers `true` and does nothing. Anyone may
    /// call it: the outcome is fixed by the tally, the time and the total
    /// voting power. The quorum is weighed against the total at the time of the
    /// call, so a proposal that fell short may pass later, where voting power
    /// has been taken back.
    pub fn execute_proposal(&mut self, now: u64, proposal_id: u32) -> (r: Result<bool, Error>)
        requires
            old(self).wf(),
            old(self)@.execute_fits(now, proposal_id),
        ensures
            final(self).wf(),
            (final(self)@, r) == old(self)@.execute_proposal(now, proposal_id),
    {
        let proposal = match self.read_proposal(proposal_id) {
            Ok(proposal) => proposal,
            Err(e) => {
                return Err(e);
            },
        };
        if proposal.executed {
            return Ok(true);
        }
        if now < proposal.voting_end {
            return Err(Error::VotingStillOpen);
        }
        Ok(self.try_execute(proposal))
    }

    pub fn get_proposal(&self, proposal_id: u32) -> (r: Result<Proposal, Error>)
        requires
            self.wf(),
        ensures
            r == (if self@.proposals.contains_key(proposal_id) {
                Ok(self@.proposals[proposal_id])
            } else {
                Err(Error::ProposalNotFound)
            }),
    {
        self.read_proposal(proposal_id)
    }

    pub fn get_voting_power(&self, voter: Address) -> (r: i128)
        requires
            self.wf(),
        ensures
            r == self@.power_of(voter),
            self.powers@.contains_key(voter) ==> r == self.powers@[voter],
            !self.powers@.contains_key(voter) ==> r == 0,
    {
        match self.powers.get(&voter) {
            Some(power) => *power,
            None => 0,
        }
    }

    pub fn total_voting_power(&self) -> (r: i128)
        ensures
            r == self@.total_power,
    {
        self.total_power
    }

    /// The value of a governed parameter, or `None` if no proposal on it has
    /// ever passed.
    pub fn get_parameter(&self, param: Symbol) -> (r: Option<i128>)
        requires
            self.wf(),
        ensures
            r == (if self@.parameters.contains_key(param) {
                Some(self@.parameters[param])
            } else {
                None
            }),
    {
        match self.parameters.get(&param) {
            Some(value) => Some(*value),
            None => None,
        }
    }

    /// The version of the contract's interface.
    pub fn version() -> (r: u32)
        ensures
            r == 1,
    {
        1
    }

    fn read_proposal(&self, proposal_id: u32) -> (r: Result<Proposal, Error>)
        requires
            self.wf(),
        ensures
            match r {
                Ok(proposal) => self@.proposals.contains_key(proposal_id) && proposal
                    == self@.proposals[proposal_id] && proposal.id == proposal_id,
                Err(e) => !self@.proposals.contains_key(proposal_id) && e
                    == Error::ProposalNotFound,
            },
    {
        match self.proposals.get(&proposal_id) {
            Some(proposal) => Ok(*proposal),
            None => Err(Error::ProposalNotFound),
        }
    }

    /// Weighs the tally of the proposal, lets it take effect where it passes,
    /// and stores it. Returns whether it passes.
    fn try_execute(&mut self, proposal: Proposal) -> (r: bool)
        requires
            old(self).wf(),
            old(self)@.tally_fits(proposal),
            proposal.id < old(self)@.next_proposal,
            proposal.votes_for >= 0,
            proposal.votes_against >= 0,
        ensures
            final(self).wf(),
            final(self)@ == old(self)@.settled(proposal),
            r == old(self)@.passes(proposal),
    {
        let passes: bool = self.weigh(&proposal);
        let proposal = Proposal { executed: passes || proposal.executed, ..proposal };
        self.proposals.set(proposal.id, proposal);
        if passes {
            self.parameters.set(proposal.param, proposal.new_value);
            self.events.push(
                GovernanceEvent::Executed {
                    id: proposal.id,
                    param: proposal.param,
                    new_value: proposal.new_value,
                },
            );
        }
        proof {
            lemma_filed(
                old(self)@.proposals,
                old(self)@.next_proposal,
                old(self)@.next_proposal as int,
                proposal,
            );
        }
        passes
    }

    /// Whether the proposal has its quorum and its majority.
    fn weigh(&self, proposal: &Proposal) -> (r: bool)
        requires
            self.wf(),
            self@.tally_fits(*proposal),
        ensures
            r == self@.passes(*proposal),
    {
        let cast: i128 = proposal.votes_for + proposal.votes_against;
        if self.total_power == 0 || cast == 0 {
            return false;
        }
        if cast * (BPS_SCALE as i128) < self.quorum_bps() * self.total_power {
            return false;
        }
        match proposal.kind {
            ProposalKind::Standard => proposal.votes_for > proposal.votes_against,
            ProposalKind::Critical => proposal.votes_for * (BPS_SCALE as i128)
                >= self.supermajority_bps() * cast,
        }
    }

    fn quorum_bps(&self) -> (r: i128)
        ensures
            r == self@.quorum(),
    {
        match self.config {
            Some(config) => config.quorum_bps as i128,
            None => BPS_SCALE as i128,
        }
    }

    fn supermajority_bps(&self) -> (r: i128)
        ensures
            r == self@.supermajority(),
    {
        match self.config {
            Some(config) => config.supermajority_bps as i128,
            None => BPS_SCALE as i128,
        }
    }

    /// Hands out the events announced since the last call.
    pub fn take_events(&mut self) -> (r: Vec<GovernanceEvent>)
        requires
            old(self).wf(),
        ensures
            final(self).wf(),
            r@ == old(self)@.events,
            final(self)@ == (GovernanceState { events: Seq::empty(), ..old(self)@ }),
    {
        let mut taken: Vec<GovernanceEvent> = Vec::new();
        std::mem::swap(&mut taken, &mut self.events);
        assert(self@ =~= (GovernanceState { events: Seq::empty(), ..old(self)@ }));
        taken
    }
}

/// Whether a call stays in range: what a caller can ask before making it.
impl Governance {
    pub fn power_fits(&self, voter: Address, power: i128) -> (r: bool)
        requires
            self.wf(),
            power >= 0,
        ensures
            r == self@.power_fits(voter, power),
    {
        proof {
            self@.law_power_within_total(voter);
        }
        self.config.is_none() || sum_fits(self.total_power - self.get_voting_power(voter), power)
    }

    pub fn proposal_fits(&self, now: u64, proposer: Address) -> (r: bool)
        requires
            self.wf(),
        ensures
            r == self@.proposal_fits(now, proposer),
    {
        match self.config {
            Some(config) => self.get_voting_power(proposer) == 0 || (self.next_proposal < u32::MAX
                && now <= u64::MAX - config.voting_period_secs),
            None => true,
        }
    }

    fn tally_fits(&self, proposal: &Proposal) -> (r: bool)
        ensures
            r == self@.tally_fits(*proposal),
    {
        if !sum_fits(proposal.votes_for, proposal.votes_against) {
            return false;
        }
        let cast: i128 = proposal.votes_for + proposal.votes_against;
        if self.total_power == 0 || cast == 0 {
            return true;
        }
        if !product_fits(cast, BPS_SCALE as i128) || !product_fits(
            self.quorum_bps(),
            self.total_power,
        ) {
            return false;
        }
        if cast * (BPS_SCALE as i128) < self.quorum_bps() * self.total_power {
            return true;
        }
        match proposal.kind {
            ProposalKind::Standard => true,
            ProposalKind::Critical => product_fits(proposal.votes_for, BPS_SCALE as i128)
                && product_fits(self.supermajority_bps(), cast),
        }
    }

    pub fn vote_fits(&self, now: u64, proposal_id: u32, voter: Address, support: bool) -> (r: bool)
        requires
            self.wf(),
        ensures
            r == self@.vote_fits(now, proposal_id, voter, support),
    {
        let power: i128 = self.get_voting_power(voter);
        match self.proposals.get(&proposal_id) {
            Some(before) => {
                if power == 0 || before.executed || now >= before.voting_end || self.voted.get(
                    &VoteKey(proposal_id, voter),
                ).is_some() {
                    return true;
                }
                let mut proposal: Proposal = *before;
                if support {
                    if !sum_fits(before.votes_for, power) {
                        return false;
                    }
                    proposal.votes_for = before.votes_for + power;
                } else {
                    if !sum_fits(before.votes_against, power) {
                        return false;
                    }
                    proposal.votes_against = before.votes_against + power;
                }
                assert(proposal == self@.proposals[proposal_id].tallied(support, power as int));
                self.tally_fits(&proposal)
            },
            None => true,
        }
    }

    pub fn execute_fits(&self, now: u64, proposal_id: u32) -> (r: bool)
        requires
            self.wf(),
        ensures
            r == self@.execute_fits(now, proposal_id),
    {
        match self.proposals.get(&proposal_id) {
            Some(proposal) => proposal.executed || now < proposal.voting_end || self.tally_fits(
                proposal,
            ),
            None => true,
        }
    }
}

/// Filing one sound proposal keeps all proposals well filed.
pub proof fn lemma_filed(proposals: Map<u32, Proposal>, next: u32, after: int, p: Proposal)
    requires
        filed(proposals, next),
        next <= after <= u32::MAX,
        p.id < after,
        p.votes_for >= 0,
        p.votes_against >= 0,
    ensures
        filed(proposals.insert(p.id, p), after as u32),
{
    let m = proposals.insert(p.id, p);
    assert forall|k: u32| #[trigger] m.contains_key(k) implies m[k].id == k && k < after
        && m[k].votes_for >= 0 && m[k].votes_against >= 0 by {
        if k != p.id {
            assert(proposals.contains_key(k));
        }
    }
}

impl GovernanceState {
    /// Nobody has more voting power than there is.
    pub proof fn law_power_within_total(self, voter: Address)
        requires
            self.inv(),
        ensures
            0 <= self.power_of(voter) <= self.total_power,
    {
        assert forall|k: Address| #[trigger] self.powers.contains_key(k) implies (power_in())(
            self.powers[k],
        ) >= 0 by {}
        lemma_sum_bounds(self.powers, power_in(), voter);
    }
}

} // verus!
