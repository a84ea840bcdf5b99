use invoicelift::governance::{Error, Governance, GovernanceEvent, ProposalKind};
use invoicelift::ident::{Address, Authorization, Symbol};

const VOTING_PERIOD: u64 = 7 * 24 * 60 * 60;
const QUORUM_BPS: u32 = 3_000;
const SUPERMAJORITY_BPS: u32 = 6_600;
const AFTER: u64 = VOTING_PERIOD + 1;

fn sym(text: &str) -> Symbol {
    let mut bytes = [0u8; 32];
    bytes[..text.len()].copy_from_slice(text.as_bytes());
    Symbol {
        head: u128::from_be_bytes(bytes[..16].try_into().unwrap()),
        tail: u128::from_be_bytes(bytes[16..].try_into().unwrap()),
    }
}

fn who(n: u128) -> Address {
    Address { is_contract: false, head: 0, tail: n }
}

const ADMIN: u128 = 100;
const ALICE: u128 = 1;
const BOB: u128 = 2;
const CAROL: u128 = 3;

fn signed(n: u128) -> Authorization {
    Authorization { granted: vec![who(n)] }
}

fn setup() -> Governance {
    let mut g = Governance::new();
    g.initialize(who(ADMIN), VOTING_PERIOD, QUORUM_BPS, SUPERMAJORITY_BPS).unwrap();
    g
}

fn grant(g: &mut Governance, voter: u128, power: i128) {
    assert!(g.power_fits(who(voter), power));
    g.set_voting_power(&signed(ADMIN), who(voter), power).unwrap();
}

fn propose(g: &mut Governance, proposer: u128, kind: ProposalKind, value: i128) -> u32 {
    assert!(g.proposal_fits(0, who(proposer)));
    g.create_proposal(&signed(proposer), 0, who(proposer), kind, sym("max_util"), value).unwrap()
}

fn vote(g: &mut Governance, now: u64, id: u32, voter: u128, support: bool) -> Result<bool, Error> {
    assert!(g.vote_fits(now, id, who(voter), support));
    g.vote(&signed(voter), now, id, who(voter), support)
}

#[test]
fn initialize_sets_config() {
    let g = setup();
    assert_eq!(g.total_voting_power(), 0);
}

#[test]
fn initialize_twice_errors() {
    let mut g = setup();
    assert_eq!(
        g.initialize(who(7), VOTING_PERIOD, QUORUM_BPS, SUPERMAJORITY_BPS),
        Err(Error::AlreadyInitialized)
    );
}

#[test]
fn initialize_rejects_invalid_config() {
    let mut g = Governance::new();
    assert_eq!(
        g.initialize(who(ADMIN), VOTING_PERIOD, 0, SUPERMAJORITY_BPS),
        Err(Error::InvalidConfig)
    );
    assert_eq!(
        g.initialize(who(ADMIN), VOTING_PERIOD, QUORUM_BPS, 5_000),
        Err(Error::InvalidConfig)
    );
}

#[test]
fn initialize_accepts_the_limits_of_its_shares() {
    let mut g = Governance::new();
    assert_eq!(g.initialize(who(ADMIN), 1, 10_001, 6_600), Err(Error::InvalidConfig));
    assert_eq!(g.initialize(who(ADMIN), 1, 1, 10_001), Err(Error::InvalidConfig));
    assert_eq!(g.initialize(who(ADMIN), 1, 10_000, 5_001), Ok(()));
}

#[test]
fn set_voting_power_sets_power_and_total() {
    let mut g = setup();
    grant(&mut g, ALICE, 100);
    assert_eq!(g.get_voting_power(who(ALICE)), 100);
    assert_eq!(g.total_voting_power(), 100);
}

#[test]
fn set_voting_power_replaces_prior_value_in_total() {
    let mut g = setup();
    grant(&mut g, ALICE, 100);
    grant(&mut g, ALICE, 40);
    assert_eq!(g.get_voting_power(who(ALICE)), 40);
    assert_eq!(g.total_voting_power(), 40);
}

#[test]
fn create_proposal_requires_voting_power() {
    let mut g = setup();
    let outsider = 9;
    assert_eq!(
        g.create_proposal(
            &signed(outsider),
            0,
            who(outsider),
            ProposalKind::Standard,
            sym("max_util"),
            9_000
        ),
        Err(Error::NoVotingPower)
    );
}

#[test]
fn standard_proposal_auto_executes_on_majority_and_quorum() {
    let mut g = setup();
    grant(&mut g, ALICE, 50);
    grant(&mut g, BOB, 30);
    grant(&mut g, CAROL, 20);

    let id = propose(&mut g, ALICE, ProposalKind::Standard, 9_000);

    let executed = vote(&mut g, 0, id, ALICE, true).unwrap();
    assert!(executed, "should auto-execute once quorum + majority are met");

    let proposal = g.get_proposal(id).unwrap();
    assert!(proposal.executed);
    assert_eq!(g.get_parameter(sym("max_util")), Some(9_000));

    assert_eq!(vote(&mut g, 0, id, BOB, true), Err(Error::AlreadyFinalized));
}

#[test]
fn proposal_does_not_execute_before_quorum_met() {
    let mut g = setup();
    grant(&mut g, ALICE, 100);
    grant(&mut g, BOB, 900);

    let id = propose(&mut g, ALICE, ProposalKind::Standard, 9_000);

    let executed = vote(&mut g, 0, id, ALICE, true).unwrap();
    assert!(!executed);
    assert_eq!(g.get_parameter(sym("max_util")), None);

    let executed = vote(&mut g, 0, id, BOB, true).unwrap();
    assert!(executed);
    assert_eq!(g.get_parameter(sym("max_util")), Some(9_000));
}

#[test]
fn critical_proposal_needs_supermajority_not_just_majority() {
    let mut g = setup();
    grant(&mut g, ALICE, 60);
    grant(&mut g, BOB, 40);

    let id = propose(&mut g, ALICE, ProposalKind::Critical, 9_500);

    vote(&mut g, 0, id, BOB, false).unwrap();
    let executed = vote(&mut g, 0, id, ALICE, true).unwrap();
    assert!(!executed, "60% for must not satisfy a 66% supermajority bar");
    assert_eq!(g.get_parameter(sym("max_util")), None);

    assert!(g.execute_fits(AFTER, id));
    let executed = g.execute_proposal(AFTER, id).unwrap();
    assert!(!executed);
    assert!(!g.get_proposal(id).unwrap().executed);
}

#[test]
fn critical_proposal_executes_at_exact_supermajority() {
    let mut g = setup();
    grant(&mut g, ALICE, 66);
    grant(&mut g, BOB, 34);

    let id = propose(&mut g, ALICE, ProposalKind::Critical, 9_500);

    vote(&mut g, 0, id, BOB, false).unwrap();
    let executed = vote(&mut g, 0, id, ALICE, true).unwrap();
    assert!(executed, "exactly 66% for must clear a 66% supermajority bar");
    assert_eq!(g.get_parameter(sym("max_util")), Some(9_500));
}

#[test]
fn cannot_vote_twice_on_the_same_proposal() {
    let mut g = setup();
    grant(&mut g, ALICE, 10);
    grant(&mut g, BOB, 10_000);

    let id = propose(&mut g, ALICE, ProposalKind::Standard, 9_000);

    vote(&mut g, 0, id, ALICE, true).unwrap();
    assert_eq!(vote(&mut g, 0, id, ALICE, false), Err(Error::AlreadyVoted));
}

#[test]
fn cannot_vote_after_voting_window_closes() {
    let mut g = setup();
    grant(&mut g, ALICE, 10);
    let id = propose(&mut g, ALICE, ProposalKind::Standard, 9_000);
    assert_eq!(vote(&mut g, AFTER, id, ALICE, true), Err(Error::VotingClosed));
}

#[test]
fn execute_proposal_before_voting_end_errors() {
    let mut g = setup();
    grant(&mut g, ALICE, 10);
    let id = propose(&mut g, ALICE, ProposalKind::Standard, 9_000);
    assert_eq!(g.execute_proposal(0, id), Err(Error::VotingStillOpen));
}

#[test]
fn execute_proposal_is_idempotent_after_auto_execution() {
    let mut g = setup();
    grant(&mut g, ALICE, 10_000);
    let id = propose(&mut g, ALICE, ProposalKind::Standard, 9_000);

    let executed = vote(&mut g, 0, id, ALICE, true).unwrap();
    assert!(executed);

    assert!(g.execute_proposal(AFTER, id).unwrap());
}

#[test]
fn get_proposal_missing_id_errors() {
    let g = setup();
    assert_eq!(g.get_proposal(999), Err(Error::ProposalNotFound));
}

#[test]
fn version_is_stable() {
    assert_eq!(Governance::version(), 1);
}

#[test]
fn uninitialized_governance_refuses() {
    let mut g = Governance::new();
    let nobody = Authorization { granted: vec![] };
    assert_eq!(g.set_voting_power(&nobody, who(ALICE), 1), Err(Error::NotInitialized));
    assert_eq!(
        g.create_proposal(&signed(ALICE), 0, who(ALICE), ProposalKind::Standard, sym("x"), 1),
        Err(Error::NotInitialized)
    );
    assert_eq!(vote(&mut g, 0, 0, ALICE, true), Err(Error::NoVotingPower));
    assert_eq!(g.execute_proposal(0, 0), Err(Error::ProposalNotFound));
}

#[test]
fn a_vote_on_nothing_is_refused() {
    let mut g = setup();
    grant(&mut g, ALICE, 1);
    assert_eq!(vote(&mut g, 0, 5, ALICE, true), Err(Error::ProposalNotFound));
    assert_eq!(vote(&mut g, 0, 5, BOB, true), Err(Error::NoVotingPower));
}

#[test]
fn a_tie_is_no_majority_and_one_vote_more_is() {
    let mut g = setup();
    grant(&mut g, ALICE, 20_000);
    grant(&mut g, BOB, 20_000);
    grant(&mut g, CAROL, 1);
    let id = propose(&mut g, ALICE, ProposalKind::Standard, 1);
    assert_eq!(vote(&mut g, 0, id, BOB, false), Ok(false));
    assert_eq!(vote(&mut g, 0, id, ALICE, true), Ok(false));
    assert_eq!(vote(&mut g, 0, id, CAROL, true), Ok(true));
    let p = g.get_proposal(id).unwrap();
    assert_eq!((p.votes_for, p.votes_against), (20_001, 20_000));
}

#[test]
fn the_quorum_is_met_exactly_at_its_share() {
    let mut g = setup();
    grant(&mut g, ALICE, 29);
    grant(&mut g, BOB, 1);
    grant(&mut g, CAROL, 70);
    let id = propose(&mut g, ALICE, ProposalKind::Standard, 1);
    assert_eq!(vote(&mut g, 0, id, ALICE, true), Ok(false));
    assert_eq!(vote(&mut g, VOTING_PERIOD - 1, id, BOB, true), Ok(true));
}

#[test]
fn a_proposal_can_pass_after_its_window_when_power_was_taken_back() {
    let mut g = setup();
    grant(&mut g, ALICE, 10);
    grant(&mut g, BOB, 90);
    let id = propose(&mut g, ALICE, ProposalKind::Standard, 4);
    assert_eq!(vote(&mut g, 0, id, ALICE, true), Ok(false));
    assert_eq!(g.execute_proposal(VOTING_PERIOD, id), Ok(false));
    grant(&mut g, BOB, 0);
    assert_eq!(g.execute_proposal(VOTING_PERIOD, id), Ok(true));
    assert_eq!(g.get_parameter(sym("max_util")), Some(4));
}

#[test]
fn proposals_and_votes_are_announced() {
    let mut g = setup();
    grant(&mut g, ALICE, 50);
    let id = propose(&mut g, ALICE, ProposalKind::Standard, 9);
    let second = propose(&mut g, ALICE, ProposalKind::Critical, 8);
    assert_eq!((id, second), (0, 1));
    vote(&mut g, 0, id, ALICE, true).unwrap();
    let param = sym("max_util");
    assert_eq!(
        g.take_events(),
        vec![
            GovernanceEvent::Proposed { id: 0, proposer: who(ALICE), param, new_value: 9 },
            GovernanceEvent::Proposed { id: 1, proposer: who(ALICE), param, new_value: 8 },
            GovernanceEvent::Executed { id: 0, param, new_value: 9 },
            GovernanceEvent::Voted {
                id: 0,
                voter: who(ALICE),
                support: true,
                power: 50,
                executed: true
            },
        ]
    );
}

#[test]
fn tallies_beyond_the_range_are_known_before() {
    let mut g = setup();
    grant(&mut g, ALICE, i128::MAX);
    assert!(!g.power_fits(who(BOB), 1));
    let id = propose(&mut g, ALICE, ProposalKind::Standard, 9);
    assert!(!g.vote_fits(0, id, who(ALICE), true));
    assert!(g.execute_fits(AFTER, id));
    assert!(!g.proposal_fits(u64::MAX, who(ALICE)));
}
