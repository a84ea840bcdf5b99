//! What each call does to governance, told by the tallies and the shares that
//! were configured: when a proposal passes, what a vote adds, and what becomes
//! of the parameters.

use vstd::prelude::*;

use crate::arith::fits;
use crate::governance::{
    Error, Governance, GovernanceConfig, GovernanceEvent, GovernanceState, Proposal, ProposalKind,
    VoteKey,
};
use crate::ident::{Address, Authorization, Symbol};

verus! {

/// Governance is seen as what its fields hold.
pub proof fn law_view(g: Governance)
    ensures
        g@.config == g.config,
        g@.total_power == g.total_power,
        g@.next_proposal == g.next_proposal,
        g@.powers == g.powers@,
        g@.proposals == g.proposals@,
        g@.voted == g.voted@,
        g@.parameters == g.parameters@,
        g@.events == g.events@,
{
}

/// New governance has no configuration, no power, no proposals and no
/// parameters; the power of somebody unknown is zero.
pub proof fn law_readings(s: GovernanceState, voter: Address)
    ensures
        s.powers.contains_key(voter) ==> s.power_of(voter) == s.powers[voter],
        !s.powers.contains_key(voter) ==> s.power_of(voter) == 0,
        ({
            let new = GovernanceState::empty();
            &&& new.config is None && new.total_power == 0 && new.next_proposal == 0
            &&& new.powers == Map::<Address, i128>::empty()
            &&& new.proposals == Map::<u32, Proposal>::empty()
            &&& new.voted == Map::<VoteKey, bool>::empty()
            &&& new.parameters == Map::<Symbol, i128>::empty()
            &&& new.events == Seq::<GovernanceEvent>::empty()
        }),
{
}

/// `initialize` stores the configuration once, where the quorum lies above zero
/// and the supermajority above five thousand, and both at most at ten thousand.
pub proof fn law_initialize(
    s: GovernanceState,
    admin: Address,
    period: u64,
    quorum_bps: u32,
    supermajority_bps: u32,
)
    requires
        s.inv(),
    ensures
        ({
            let (next, r) = s.initialize(admin, period, quorum_bps, supermajority_bps);
            let valid = 0 < quorum_bps <= 10_000 && 5_000 < supermajority_bps <= 10_000;
            match r {
                Ok(_) => {
                    &&& s.config is None && valid
                    &&& next.config == Some(
                        GovernanceConfig {
                            admin,
                            voting_period_secs: period,
                            quorum_bps,
                            supermajority_bps,
                        },
                    )
                    &&& next == (GovernanceState { config: next.config, ..s })
                },
                Err(e) => next == s && {
                    ||| s.config is Some && e == Error::AlreadyInitialized
                    ||| s.config is None && !valid && e == Error::InvalidConfig
                },
            }
        }),
{
}

/// Setting a voter's power replaces what it was, moves the total by the
/// difference, and changes nothing else. It is accepted once governance is
/// initialized.
pub proof fn law_set_voting_power(s: GovernanceState, voter: Address, power: i128)
    requires
        s.inv(),
        power >= 0,
        s.power_fits(voter, power),
    ensures
        ({
            let (next, r) = s.set_voting_power(voter, power);
            match r {
                Ok(_) => {
                    &&& s.config is Some
                    &&& next.powers == s.powers.insert(voter, power)
                    &&& next.total_power - s.total_power == power - s.power_of(voter)
                    &&& next == (GovernanceState {
                        powers: next.powers,
                        total_power: next.total_power,
                        ..s
                    })
                },
                Err(e) => next == s && s.config is None && e == Error::NotInitialized,
            }
        }),
{
}

/// A new proposal is filed under the next id as it was put forward, open to
/// votes for the configured period, with no votes, not executed, and announced;
/// nothing else changes but the next id, which is one higher. It is accepted
/// from everybody with voting power.
pub proof fn law_create_proposal(
    s: GovernanceState,
    now: u64,
    proposer: Address,
    kind: ProposalKind,
    param: Symbol,
    new_value: i128,
)
    requires
        s.inv(),
        s.proposal_fits(now, proposer),
    ensures
        ({
            let (next, r) = s.create_proposal(now, proposer, kind, param, new_value);
            match r {
                Ok(id) => {
                    let p = next.proposals[id];
                    &&& s.config is Some && s.power_of(proposer) > 0
                    &&& id == s.next_proposal && next.next_proposal == id + 1
                    &&& next.proposals == s.proposals.insert(id, p)
                    &&& p.id == id && p.proposer == proposer && p.kind == kind
                    &&& p.param == param && p.new_value == new_value
                    &&& p.created_at == now
                    &&& p.voting_end == now + s.config->0.voting_period_secs
                    &&& p.votes_for == 0 && p.votes_against == 0 && !p.executed
                    &&& next.events == s.events.push(
                        GovernanceEvent::Proposed { id, proposer, param, new_value },
                    )
                    &&& next == (GovernanceState {
                        next_proposal: next.next_proposal,
                        proposals: next.proposals,
                        events: next.events,
                        ..s
                    })
                },
                Err(e) => next == s && {
                    ||| s.config is None && e == Error::NotInitialized
                    ||| s.config is Some && s.power_of(proposer) == 0 && e == Error::NoVotingPower
                },
            }
        }),
{
    s.law_power_within_total(proposer);
}

/// A proposal cannot be there before governance is initialized.
proof fn lemma_configured(s: GovernanceState, id: u32)
    requires
        s.inv(),
        s.proposals.contains_key(id),
    ensures
        s.config is Some,
        s.proposals[id].id == id,
        s.proposals[id].votes_for >= 0,
        s.proposals[id].votes_against >= 0,
{
}

/// An accepted vote adds the voter's whole power to the side that was chosen.
/// With it the proposal passes if and only if there is voting power, some of it
/// was cast, what was cast reaches the quorum's share of all power, and the
/// votes in favour are more than those against, or, for a critical proposal,
/// reach the supermajority's share of what was cast. The answer is whether it
/// passes; where it does, the proposal is executed and its parameter set, and
/// otherwise neither. The vote is remembered and announced, and nothing else
/// changes. A vote is refused for want of power, of a proposal, of an open
/// window, or for being the second.
pub proof fn law_vote(s: GovernanceState, now: u64, id: u32, voter: Address, support: bool)
    requires
        s.inv(),
        s.vote_fits(now, id, voter, support),
    ensures
        ({
            let (next, r) = s.vote(now, id, voter, support);
            let power = s.power_of(voter);
            let p = s.proposals[id];
            let found = s.proposals.contains_key(id);
            match r {
                Ok(passed) => {
                    let q = next.proposals[id];
                    let (yes, no) = (q.votes_for as int, q.votes_against as int);
                    let c = s.config->0;
                    let cast_event = GovernanceEvent::Voted {
                        id,
                        voter,
                        support,
                        power: power as i128,
                        executed: passed,
                    };
                    &&& power > 0 && s.config is Some && found
                    &&& !p.executed && now < p.voting_end
                    &&& !s.voted.contains_key(VoteKey(id, voter))
                    &&& yes == p.votes_for + (if support {
                        power
                    } else {
                        0
                    })
                    &&& no == p.votes_against + (if support {
                        0
                    } else {
                        power
                    })
                    &&& passed <==> {
                        &&& s.total_power > 0 && yes + no > 0
                        &&& (yes + no) * 10_000 >= c.quorum_bps * s.total_power
                        &&& p.kind == ProposalKind::Standard ==> yes > no
                        &&& p.kind == ProposalKind::Critical ==> yes * 10_000
                            >= c.supermajority_bps * (yes + no)
                    }
                    &&& q == (Proposal {
                        votes_for: q.votes_for,
                        votes_against: q.votes_against,
                        executed: passed,
                        ..p
                    })
                    &&& next.proposals == s.proposals.insert(id, q)
                    &&& passed ==> next.parameters == s.parameters.insert(p.param, p.new_value)
                    &&& !passed ==> next.parameters == s.parameters
                    &&& next.voted == s.voted.insert(VoteKey(id, voter), true)
                    &&& passed ==> next.events == s.events.push(
                        GovernanceEvent::Executed { id, param: p.param, new_value: p.new_value },
                    ).push(cast_event)
                    &&& !passed ==> next.events == s.events.push(cast_event)
                    &&& next == (GovernanceState {
                        proposals: next.proposals,
                        parameters: next.parameters,
                        voted: next.voted,
                        events: next.events,
                        ..s
                    })
                },
                Err(e) => next == s && {
                    ||| power == 0 && e == Error::NoVotingPower
                    ||| power != 0 && !found && e == Error::ProposalNotFound
                    ||| power != 0 && found && p.executed && e == Error::AlreadyFinalized
                    ||| power != 0 && found && !p.executed && now >= p.voting_end && e
                        == Error::VotingClosed
                    ||| power != 0 && found && !p.executed && now < p.voting_end
                        && s.voted.contains_key(VoteKey(id, voter)) && e == Error::AlreadyVoted
                },
            }
        }),
{
    s.law_power_within_total(voter);
    if s.proposals.contains_key(id) {
        lemma_configured(s, id);
    }
}

/// Settling a proposal after its window answers whether it passes: if and only
/// if there is voting power, some of it was cast, what was cast reaches the
/// quorum's share of all power, and the votes in favour are more than those
/// against, or, for a critical proposal, reach the supermajority's share of
/// what was cast. Where it passes, it is executed and its parameter set, and
/// that is announced; otherwise nothing changes. A proposal that was executed
/// is answered with `true` and left alone, and one whose window is open is
/// refused.
pub proof fn law_execute_proposal(s: GovernanceState, now: u64, id: u32)
    requires
        s.inv(),
        s.execute_fits(now, id),
    ensures
        ({
            let (next, r) = s.execute_proposal(now, id);
            let p = s.proposals[id];
            let found = s.proposals.contains_key(id);
            let (yes, no) = (p.votes_for as int, p.votes_against as int);
            let c = s.config->0;
            match r {
                Ok(passed) => {
                    &&& found && s.config is Some
                    &&& p.executed ==> passed && next == s
                    &&& !p.executed ==> {
                        &&& now >= p.voting_end
                        &&& passed <==> {
                            &&& s.total_power > 0 && yes + no > 0
                            &&& (yes + no) * 10_000 >= c.quorum_bps * s.total_power
                            &&& p.kind == ProposalKind::Standard ==> yes > no
                            &&& p.kind == ProposalKind::Critical ==> yes * 10_000
                                >= c.supermajority_bps * (yes + no)
                        }
                        &&& !passed ==> next == s
                        &&& passed ==> {
                            &&& next.proposals == s.proposals.insert(
                                id,
                                Proposal { executed: true, ..p },
                            )
                            &&& next.parameters == s.parameters.insert(p.param, p.new_value)
                            &&& next.events == s.events.push(
                                GovernanceEvent::Executed {
                                    id,
                                    param: p.param,
                                    new_value: p.new_value,
                                },
                            )
                            &&& next == (GovernanceState {
                                proposals: next.proposals,
                                parameters: next.parameters,
                                events: next.events,
                                ..s
                            })
                        }
                    }
                },
                Err(e) => next == s && {
                    ||| !found && e == Error::ProposalNotFound
                    ||| found && !p.executed && now < p.voting_end && e == Error::VotingStillOpen
                },
            }
        }),
{
    if s.proposals.contains_key(id) {
        lemma_configured(s, id);
        s.law_power_within_total(s.proposals[id].proposer);
        assert(s.proposals.insert(id, s.proposals[id]) =~= s.proposals);
    }
}

/// Votes count for their side: where a proposal passes with the voter's power
/// cast against it, it passes with the same power cast in its favour.
pub proof fn law_votes_count_for_their_side(
    s: GovernanceState,
    now: u64,
    id: u32,
    voter: Address,
)
    requires
        s.inv(),
        s.vote_fits(now, id, voter, true),
        s.vote_fits(now, id, voter, false),
        s.vote(now, id, voter, false).1 == Ok::<bool, Error>(true),
    ensures
        s.vote(now, id, voter, true).1 == Ok::<bool, Error>(true),
{
    law_vote(s, now, id, voter, true);
    law_vote(s, now, id, voter, false);
    let c = s.config->0;
    let p = s.proposals[id];
    let power = s.power_of(voter);
    assert(c.supermajority_bps * (p.votes_for + (p.votes_against + power)) == c.supermajority_bps
        * ((p.votes_for + power) + p.votes_against)) by (nonlinear_arith);
}

/// The admin, where there is one, and nobody else has to have authorized a
/// change of voting power.
pub proof fn law_admin_authorization(s: GovernanceState, auth: &Authorization)
    ensures
        s.admin_authorized(auth) <==> (s.config matches Some(c) ==> auth.granted@.contains(
            c.admin,
        )),
{
}

/// The tally is worked out in range: the votes cast, the two sides of the
/// quorum where there is something to compare, and those of the supermajority
/// where the quorum is reached and the proposal is critical.
pub open spec fn tally_in_range(
    s: GovernanceState,
    kind: ProposalKind,
    yes: int,
    no: int,
) -> bool {
    let c = s.config->0;
    &&& fits(yes + no)
    &&& s.total_power != 0 && yes + no != 0 ==> {
        &&& fits((yes + no) * 10_000)
        &&& fits(c.quorum_bps * s.total_power)
        &&& (yes + no) * 10_000 >= c.quorum_bps * s.total_power && kind == ProposalKind::Critical
            ==> fits(yes * 10_000) && fits(c.supermajority_bps * (yes + no))
    }
}

/// When each call stays in range.
pub proof fn law_ranges(
    s: GovernanceState,
    now: u64,
    id: u32,
    voter: Address,
    power: i128,
    support: bool,
)
    requires
        s.inv(),
    ensures
        s.power_fits(voter, power) <==> (s.config is Some ==> fits(
            s.total_power - s.power_of(voter) + power,
        )),
        s.proposal_fits(now, voter) <==> (s.config is Some && s.power_of(voter) != 0
            ==> s.next_proposal < 0xffff_ffffu32 && now + s.config->0.voting_period_secs
            <= 0xffff_ffff_ffff_ffffu64),
        s.execute_fits(now, id) <==> (s.proposals.contains_key(id) && !s.proposals[id].executed
            && now >= s.proposals[id].voting_end ==> tally_in_range(
            s,
            s.proposals[id].kind,
            s.proposals[id].votes_for as int,
            s.proposals[id].votes_against as int,
        )),
        s.vote_fits(now, id, voter, support) <==> (s.power_of(voter) != 0
            && s.proposals.contains_key(id) && !s.proposals[id].executed && now
            < s.proposals[id].voting_end && !s.voted.contains_key(VoteKey(id, voter)) ==> {
            let p = s.proposals[id];
            let yes = p.votes_for + (if support {
                s.power_of(voter)
            } else {
                0
            });
            let no = p.votes_against + (if support {
                0
            } else {
                s.power_of(voter)
            });
            fits(yes) && fits(no) && tally_in_range(s, p.kind, yes, no)
        }),
{
    if s.proposals.contains_key(id) {
        lemma_configured(s, id);
    }
}

} // verus!
