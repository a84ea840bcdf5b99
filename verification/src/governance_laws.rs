//! What holds of governance over any run of calls: one vote per voter, no
//! parameter changed but by a proposal that passed, and no proposal changed
//! once it has taken effect.

use vstd::prelude::*;

use crate::governance::{
    filed, lemma_filed, power_in, Error, GovernanceState, Proposal,
    ProposalKind, VoteKey, BPS_SCALE, STANDARD_THRESHOLD_BPS,
};
use crate::ident::{Address, Symbol};
use crate::table::{lemma_sum_bounds, lemma_sum_insert, sum_of};

verus! {

/// A call that changes governance.
pub ghost enum GovernanceCall {
    Initialize { admin: Address, period: u64, quorum_bps: u32, supermajority_bps: u32 },
    SetVotingPower { voter: Address, power: i128 },
    CreateProposal {
        now: u64,
        proposer: Address,
        kind: ProposalKind,
        param: Symbol,
        new_value: i128,
    },
    Vote { now: u64, id: u32, voter: Address, support: bool },
    ExecuteProposal { now: u64, id: u32 },
}

/// The state that a call leaves, and whether it was accepted.
pub open spec fn answer(s: GovernanceState, call: GovernanceCall) -> (GovernanceState, bool) {
    match call {
        GovernanceCall::Initialize { admin, period, quorum_bps, supermajority_bps } => {
            let a = s.initialize(admin, period, quorum_bps, supermajority_bps);
            (a.0, a.1 is Ok)
        },
        GovernanceCall::SetVotingPower { voter, power } => {
            let a = s.set_voting_power(voter, power);
            (a.0, a.1 is Ok)
        },
        GovernanceCall::CreateProposal { now, proposer, kind, param, new_value } => {
            let a = s.create_proposal(now, proposer, kind, param, new_value);
            (a.0, a.1 is Ok)
        },
        GovernanceCall::Vote { now, id, voter, support } => {
            let a = s.vote(now, id, voter, support);
            (a.0, a.1 is Ok)
        },
        GovernanceCall::ExecuteProposal { now, id } => {
            let a = s.execute_proposal(now, id);
            (a.0, a.1 is Ok)
        },
    }
}

/// The call can be made and stays in range.
pub open spec fn call_fits(s: GovernanceState, call: GovernanceCall) -> bool {
    match call {
        GovernanceCall::Initialize { .. } => true,
        GovernanceCall::SetVotingPower { voter, power } => power >= 0 && s.power_fits(voter, power),
        GovernanceCall::CreateProposal { now, proposer, .. } => s.proposal_fits(now, proposer),
        GovernanceCall::Vote { now, id, voter, support } => s.vote_fits(now, id, voter, support),
        GovernanceCall::ExecuteProposal { now, id } => s.execute_fits(now, id),
    }
}

/// The state that a run of calls leaves.
pub open spec fn run(s: GovernanceState, calls: Seq<GovernanceCall>) -> GovernanceState
    decreases calls.len(),
{
    if calls.len() == 0 {
        s
    } else {
        answer(run(s, calls.drop_last()), calls.last()).0
    }
}

/// Every call of the run can be made and stays in range.
pub open spec fn run_fits(s: GovernanceState, calls: Seq<GovernanceCall>) -> bool
    decreases calls.len(),
{
    calls.len() > 0 ==> run_fits(s, calls.drop_last()) && call_fits(
        run(s, calls.drop_last()),
        calls.last(),
    )
}

/// A refused call leaves governance as it was.
#[verifier::rlimit(50)]
pub proof fn law_refused_call_changes_nothing(s: GovernanceState, call: GovernanceCall)
    ensures
        !answer(s, call).1 ==> answer(s, call).0 == s,
{
}

/// Governance is initialized at most once: its configuration never changes.
#[verifier::rlimit(50)]
pub proof fn law_initialized_once(s: GovernanceState, call: GovernanceCall)
    requires
        s.config is Some,
    ensures
        answer(s, call).0.config == s.config,
        call matches GovernanceCall::Initialize {
            admin,
            period,
            quorum_bps,
            supermajority_bps,
        } ==> s.initialize(admin, period, quorum_bps, supermajority_bps).1 == Err::<(), Error>(
            Error::AlreadyInitialized,
        ),
{
}

/// The total is the sum of everybody's voting power.
pub open spec fn conserved(s: GovernanceState) -> bool {
    s.granted() == s.total_power
}

/// Storing a proposal with sound tallies keeps the proposals well filed.
proof fn lemma_settled(s: GovernanceState, p: Proposal)
    requires
        s.inv(),
        p.id < s.next_proposal,
        p.votes_for >= 0,
        p.votes_against >= 0,
    ensures
        filed(s.settled(p).proposals, s.next_proposal),
        s.settled(p).powers == s.powers,
        s.settled(p).total_power == s.total_power,
        s.settled(p).config == s.config,
        s.settled(p).next_proposal == s.next_proposal,
{
    lemma_filed(s.proposals, s.next_proposal, s.next_proposal as int, p);
    lemma_filed(
        s.proposals,
        s.next_proposal,
        s.next_proposal as int,
        Proposal { executed: true, ..p },
    );
}

/// Every call keeps the invariant, and keeps the total the sum of everybody's
/// voting power.
pub proof fn law_total_power_is_the_sum(s: GovernanceState, call: GovernanceCall)
    requires
        s.inv(),
        call_fits(s, call),
    ensures
        answer(s, call).0.inv(),
        conserved(s) ==> conserved(answer(s, call).0),
{
    match call {
        GovernanceCall::SetVotingPower { voter, power } => {
            s.law_power_within_total(voter);
            lemma_sum_insert(s.powers, power_in(), voter, power);
            let m = s.powers.insert(voter, power);
            assert forall|k: Address| #[trigger] m.contains_key(k) implies m[k] >= 0 by {
                if k != voter {
                    assert(s.powers.contains_key(k));
                }
            }
        },
        GovernanceCall::CreateProposal { now, proposer, kind, param, new_value } => {
            let a = s.create_proposal(now, proposer, kind, param, new_value);
            if a.1 is Ok {
                lemma_filed(
                    s.proposals,
                    s.next_proposal,
                    s.next_proposal + 1,
                    a.0.proposals[s.next_proposal],
                );
            }
        },
        GovernanceCall::Vote { now, id, voter, support } => {
            s.law_power_within_total(voter);
            if s.vote_refusal(now, id, voter) is None {
                lemma_settled(s, s.proposals[id].tallied(support, s.power_of(voter)));
            }
        },
        GovernanceCall::ExecuteProposal { now, id } => {
            if s.proposals.contains_key(id) {
                lemma_settled(s, s.proposals[id]);
            }
        },
        GovernanceCall::Initialize { .. } => {
            if s.config is None {
                lemma_no_power(s);
            }
        },
    }
}

/// Before `initialize` nobody has voting power.
proof fn lemma_no_power(s: GovernanceState)
    requires
        s.inv(),
        s.config is None,
    ensures
        s.granted() == 0,
{
    let any = Address { is_contract: false, head: 0, tail: 0 };
    assert forall|k: Address| #[trigger] s.powers.contains_key(k) implies (power_in())(s.powers[k])
        >= 0 by {}
    lemma_sum_bounds(s.powers, power_in(), any);
}

/// Over any run of calls on new governance the total is the sum of everybody's
/// voting power.
pub proof fn law_run_keeps_governance_sound(calls: Seq<GovernanceCall>)
    requires
        run_fits(GovernanceState::empty(), calls),
    ensures
        run(GovernanceState::empty(), calls).inv(),
        conserved(run(GovernanceState::empty(), calls)),
    decreases calls.len(),
{
    if calls.len() == 0 {
        assert(sum_of(GovernanceState::empty().powers, power_in()) == 0);
    } else {
        law_run_keeps_governance_sound(calls.drop_last());
        law_total_power_is_the_sum(
            run(GovernanceState::empty(), calls.drop_last()),
            calls.last(),
        );
    }
}

/// A cast vote is never forgotten, and a proposal that has taken effect never
/// changes again.
pub proof fn law_votes_and_outcomes_last(
    s: GovernanceState,
    call: GovernanceCall,
    id: u32,
    voter: Address,
)
    requires
        s.inv(),
    ensures
        s.voted.contains_key(VoteKey(id, voter)) ==> answer(s, call).0.voted.contains_key(
            VoteKey(id, voter),
        ),
        s.proposals.contains_key(id) ==> answer(s, call).0.proposals.contains_key(id),
        s.proposals.contains_key(id) && s.proposals[id].executed ==> answer(s, call).0.proposals[id]
            == s.proposals[id],
{
    if s.proposals.contains_key(id) {
        assert(s.proposals[id].id == id);
    }
    match call {
        GovernanceCall::Vote { id: j, .. } => {
            if s.proposals.contains_key(j) {
                assert(s.proposals[j].id == j);
            }
        },
        GovernanceCall::ExecuteProposal { id: j, .. } => {
            if s.proposals.contains_key(j) {
                assert(s.proposals[j].id == j);
            }
        },
        _ => {},
    }
}

/// The same over any run of calls.
pub proof fn law_run_keeps_votes_and_outcomes(
    s: GovernanceState,
    calls: Seq<GovernanceCall>,
    id: u32,
    voter: Address,
)
    requires
        s.inv(),
        run_fits(s, calls),
    ensures
        run(s, calls).inv(),
        s.voted.contains_key(VoteKey(id, voter)) ==> run(s, calls).voted.contains_key(
            VoteKey(id, voter),
        ),
        s.proposals.contains_key(id) ==> run(s, calls).proposals.contains_key(id),
        s.proposals.contains_key(id) && s.proposals[id].executed ==> run(s, calls).proposals[id]
            == s.proposals[id],
    decreases calls.len(),
{
    if calls.len() > 0 {
        law_run_keeps_votes_and_outcomes(s, calls.drop_last(), id, voter);
        let mid = run(s, calls.drop_last());
        law_votes_and_outcomes_last(mid, calls.last(), id, voter);
        law_total_power_is_the_sum(mid, calls.last());
    }
}

/// One vote per voter: once a vote was accepted, every later vote of the same
/// voter on the same proposal is refused, whatever happens in between.
pub proof fn law_one_vote_per_voter(
    s: GovernanceState,
    now: u64,
    id: u32,
    voter: Address,
    support: bool,
    calls: Seq<GovernanceCall>,
    later: u64,
    again: bool,
)
    requires
        s.inv(),
        s.vote_fits(now, id, voter, support),
        s.vote(now, id, voter, support).1 is Ok,
        run_fits(s.vote(now, id, voter, support).0, calls),
    ensures
        ({
            let end = run(s.vote(now, id, voter, support).0, calls);
            end.vote(later, id, voter, again).0 == end && end.vote(later, id, voter, again).1 is Err
        }),
{
    law_total_power_is_the_sum(s, GovernanceCall::Vote { now, id, voter, support });
    law_run_keeps_votes_and_outcomes(s.vote(now, id, voter, support).0, calls, id, voter);
}

/// A proposal that has taken effect stays as it is for good: no later vote on
/// it is accepted, and executing it again answers `true` and does nothing.
pub proof fn law_outcome_is_final(
    s: GovernanceState,
    id: u32,
    calls: Seq<GovernanceCall>,
    later: u64,
    voter: Address,
    support: bool,
)
    requires
        s.inv(),
        s.proposals.contains_key(id),
        s.proposals[id].executed,
        run_fits(s, calls),
    ensures
        ({
            let end = run(s, calls);
            &&& end.proposals[id] == s.proposals[id]
            &&& end.execute_proposal(later, id) == (end, Ok::<bool, Error>(true))
            &&& end.vote(later, id, voter, support).0 == end
            &&& end.vote(later, id, voter, support).1 is Err
        }),
{
    law_run_keeps_votes_and_outcomes(s, calls, id, voter);
}

/// A parameter changes only by a proposal on it that passed: by a vote that
/// made it pass, or by its execution after the window, and to its value.
#[verifier::rlimit(50)]
pub proof fn law_parameters_change_by_passed_proposals(
    s: GovernanceState,
    call: GovernanceCall,
    param: Symbol,
)
    requires
        s.inv(),
        answer(s, call).0.parameters.contains_key(param) != s.parameters.contains_key(param)
            || answer(s, call).0.parameters[param] != s.parameters[param],
    ensures
        match call {
            GovernanceCall::Vote { now, id, voter, support } => {
                let p = s.proposals[id].tallied(support, s.power_of(voter));
                &&& s.vote_refusal(now, id, voter) is None
                &&& s.passes(p)
                &&& p.param == param
                &&& answer(s, call).0.parameters == s.parameters.insert(param, p.new_value)
            },
            GovernanceCall::ExecuteProposal { now, id } => {
                let p = s.proposals[id];
                &&& s.proposals.contains_key(id)
                &&& now >= p.voting_end
                &&& s.passes(p)
                &&& p.param == param
                &&& answer(s, call).0.parameters == s.parameters.insert(param, p.new_value)
            },
            _ => false,
        },
{
}

/// A vote takes effect at once: the proposal is executed, and its parameter
/// set, in the call that makes it pass and in no earlier one.
pub proof fn law_effect_is_immediate(
    s: GovernanceState,
    now: u64,
    id: u32,
    voter: Address,
    support: bool,
)
    requires
        s.inv(),
        s.vote(now, id, voter, support).1 is Ok,
    ensures
        ({
            let (next, executed) = s.vote(now, id, voter, support);
            let p = s.proposals[id].tallied(support, s.power_of(voter));
            &&& executed == Ok::<bool, Error>(s.passes(p))
            &&& next.proposals[id].executed == s.passes(p)
            &&& s.passes(p) ==> next.parameters.contains_key(p.param) && next.parameters[p.param]
                == p.new_value
            &&& !s.passes(p) ==> next.parameters == s.parameters
        }),
{
    assert(s.proposals[id].id == id);
}

/// A critical proposal is at least as hard to pass as a standard one: whatever
/// passes as critical passes as standard.
pub proof fn law_critical_is_harder(s: GovernanceState, p: Proposal)
    requires
        s.inv(),
        s.config is Some,
        p.kind == ProposalKind::Critical,
        p.votes_for >= 0,
        p.votes_against >= 0,
        s.passes(p),
    ensures
        s.passes(Proposal { kind: ProposalKind::Standard, ..p }),
{
    let need = s.supermajority();
    let cast = p.cast();
    assert(need * cast >= (STANDARD_THRESHOLD_BPS + 1) * cast) by (nonlinear_arith)
        requires
            need >= STANDARD_THRESHOLD_BPS + 1,
            cast >= 0,
    ;
    assert(p.votes_for * BPS_SCALE >= 5_001 * cast);
}

/// Voting is open until the end of the window and no longer: at or after it
/// every vote is refused, and before it the proposal is not executed on
/// request.
pub proof fn law_window_bounds_voting(
    s: GovernanceState,
    now: u64,
    id: u32,
    voter: Address,
    support: bool,
)
    requires
        s.proposals.contains_key(id),
    ensures
        now >= s.proposals[id].voting_end ==> s.vote(now, id, voter, support).1 is Err,
        now < s.proposals[id].voting_end && !s.proposals[id].executed ==> s.execute_proposal(
            now,
            id,
        ) == (s, Err::<bool, Error>(Error::VotingStillOpen)),
{
}

/// Ids are never reused: a new proposal gets an id under which there was none.
pub proof fn law_new_proposal_has_new_id(
    s: GovernanceState,
    now: u64,
    proposer: Address,
    kind: ProposalKind,
    param: Symbol,
    new_value: i128,
)
    requires
        s.inv(),
        s.proposal_fits(now, proposer),
    ensures
        s.create_proposal(now, proposer, kind, param, new_value).1 matches Ok(id)
            ==> !s.proposals.contains_key(id),
{
}

} // verus!
