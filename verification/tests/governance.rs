use voice_contracts::governance::engine::VoiceDAO;
use voice_contracts::governance::error::{DaoError, ErrorKind};
use voice_contracts::governance::model::{
    APPROVAL_THRESHOLD, EXECUTION_DELAY, MAX_PROPOSALS_PER_MEMBER, MIN_PROPOSAL_DEPOSIT,
    QUORUM_THRESHOLD, TOTAL_VOTING_POWER, VOTING_PERIOD,
};
use voice_contracts::governance::types::{
    ContributionStatus, ContributionType, GovernanceConfig, ProposalStatus, ProposalType,
    TreasuryFund, VoteType,
};

const START: u64 = 1_000;

fn accounts(i: usize) -> String {
    ["alice", "bob", "charlie", "danny", "eugene", "fargo"][i].to_string()
}

fn content() -> ProposalType {
    ProposalType::Content {
        action: "feature".to_string(),
        content_id: "voice-1".to_string(),
        details: "front page".to_string(),
    }
}

/// An engine owned by bob, with alice, charlie and danny as further members, and
/// the thresholds that the tests count with: a quorum of 10% and an approval of 50%.
fn engine() -> VoiceDAO {
    let mut dao = VoiceDAO::new(accounts(1), accounts(2), START);
    dao.join_dao(accounts(0), START).unwrap();
    dao.join_dao(accounts(2), START).unwrap();
    dao.join_dao(accounts(3), START).unwrap();
    dao
}

fn propose(dao: &mut VoiceDAO, payload: ProposalType) -> u64 {
    dao.create_proposal(
        accounts(0),
        "A proposal".to_string(),
        "What it is for".to_string(),
        payload,
        vec!["tag".to_string()],
        MIN_PROPOSAL_DEPOSIT,
        START,
    )
    .unwrap()
    .proposal_id
}

/// A proposal with the given payload, voted through, decided and queued.
fn queued(dao: &mut VoiceDAO, payload: ProposalType) -> u64 {
    let id = propose(dao, payload);
    dao.vote_on_proposal(accounts(2), id, VoteType::For, None, START + 1, 100).unwrap();
    let ends = dao.get_proposal(id).unwrap().voting_ends_at;
    dao.finalize_proposal(id, ends + 1, 100).unwrap();
    let eta = dao.get_proposal(id).unwrap().execution_eta;
    dao.queue_proposal(id, eta).unwrap();
    id
}

#[test]
fn test_dao_initialization() {
    let dao = VoiceDAO::new(accounts(1), accounts(2), START);

    assert_eq!(dao.owner(), accounts(1));
    assert_eq!(dao.voice_token_contract(), accounts(2));
    assert!(dao.is_member(accounts(1)));
    assert!(dao.is_council_member(accounts(1)));
    assert!(!dao.is_paused());
}

#[test]
fn test_join_dao() {
    let mut dao = VoiceDAO::new(accounts(1), accounts(2), START);
    dao.join_dao(accounts(2), START).unwrap();

    assert!(dao.is_member(accounts(2)));
    let member = dao.get_member(accounts(2)).unwrap();
    assert_eq!(member.roles, vec!["member".to_string()]);
}

#[test]
fn new_engine_has_default_parameters_and_roles() {
    let dao = VoiceDAO::new(accounts(1), accounts(2), 77);
    let config = dao.get_governance_config();
    assert_eq!(config.min_proposal_deposit, 100_000_000_000_000_000_000_000_000);
    assert_eq!(config.voting_period, 7 * 24 * 60 * 60 * 1_000_000_000);
    assert_eq!(config.execution_delay, 24 * 60 * 60 * 1_000_000_000);
    assert_eq!(config.quorum_threshold, 1000);
    assert_eq!(config.approval_threshold, 5000);
    assert_eq!(config.max_proposals_per_member, 5);
    assert_eq!(config.proposal_fee, 0);
    assert_eq!(MIN_PROPOSAL_DEPOSIT, config.min_proposal_deposit);
    assert_eq!(VOTING_PERIOD, config.voting_period);
    assert_eq!(EXECUTION_DELAY, config.execution_delay);
    assert_eq!(QUORUM_THRESHOLD, config.quorum_threshold);
    assert_eq!(APPROVAL_THRESHOLD, config.approval_threshold);
    assert_eq!(MAX_PROPOSALS_PER_MEMBER, config.max_proposals_per_member);

    let founder = dao.get_member(accounts(1)).unwrap();
    assert_eq!(founder.account_id, accounts(1));
    assert_eq!(founder.roles, vec!["founder".to_string()]);
    assert_eq!(founder.voting_power, 0);
    assert_eq!(founder.delegated_power, 0);
    assert_eq!(founder.contributions, 0);
    assert_eq!(founder.reputation, 0);
    assert_eq!(founder.joined_at, 77);
    assert_eq!(founder.last_active, 77);
    assert!(founder.delegated_to.is_none());
    assert_eq!(dao.get_council_members(), vec![accounts(1)]);
    assert_eq!(dao.get_members(None, None).len(), 1);
    assert!(dao.get_proposals(None, None).is_empty());

    let treasury = dao.get_treasury_balance();
    assert_eq!(treasury.voice_balance, 0);
    assert_eq!(treasury.near_balance, 0);
    assert_eq!(treasury.total_spent, 0);
    assert!(treasury.spending_categories.is_empty());
    assert_eq!(dao.get_total_voting_power(), 1_000_000_000_000_000_000_000_000_000);
    assert_eq!(TOTAL_VOTING_POWER, 1_000_000_000_000_000_000_000_000_000);
}

#[test]
fn join_twice_is_refused() {
    let mut dao = engine();
    assert_eq!(dao.join_dao(accounts(0), START + 5), Err(DaoError::AlreadyMember));
    assert_eq!(dao.get_members(None, None).len(), 4);
}

#[test]
fn create_proposal_starts_active_with_the_window() {
    let mut dao = engine();
    let event = dao
        .create_proposal(
            accounts(0),
            "Title".to_string(),
            "Body".to_string(),
            content(),
            vec!["a".to_string(), "b".to_string()],
            MIN_PROPOSAL_DEPOSIT + 7,
            5_000,
        )
        .unwrap();
    assert_eq!(event.proposal_id, 1);
    assert_eq!(event.proposer, accounts(0));
    assert_eq!(event.title, "Title");
    assert!(matches!(event.proposal_type, ProposalType::Content { .. }));

    let p = dao.get_proposal(1).unwrap();
    assert_eq!(p.id, 1);
    assert_eq!(p.title, "Title");
    assert_eq!(p.description, "Body");
    assert_eq!(p.proposer, accounts(0));
    assert_eq!(p.status, ProposalStatus::Active);
    assert_eq!((p.votes_for, p.votes_against, p.votes_abstain, p.total_votes), (0, 0, 0, 0));
    assert_eq!(p.created_at, 5_000);
    assert_eq!(p.voting_starts_at, 5_000);
    assert_eq!(p.voting_ends_at, 5_000 + 604_800_000_000_000);
    assert_eq!(p.execution_eta, 0);
    assert_eq!(p.deposit, MIN_PROPOSAL_DEPOSIT + 7);
    assert_eq!(p.tags, vec!["a".to_string(), "b".to_string()]);
    assert!(p.attachments.is_empty());

    let second = propose(&mut dao, content());
    assert_eq!(second, 2);
    assert!(dao.get_proposal(0).is_none());
    assert!(dao.get_proposal(3).is_none());
}

#[test]
fn create_proposal_errors() {
    let mut dao = engine();
    let attempt = |dao: &mut VoiceDAO, who: String, deposit: u128, now: u64| {
        dao.create_proposal(who, "t".to_string(), "d".to_string(), content(), vec![], deposit, now)
            .map(|e| e.proposal_id)
    };
    assert_eq!(
        attempt(&mut dao, accounts(5), MIN_PROPOSAL_DEPOSIT, START),
        Err(DaoError::Unauthorized)
    );
    assert_eq!(
        attempt(&mut dao, accounts(0), MIN_PROPOSAL_DEPOSIT - 1, START),
        Err(DaoError::InsufficientDeposit)
    );
    assert_eq!(
        attempt(&mut dao, accounts(0), MIN_PROPOSAL_DEPOSIT, u64::MAX),
        Err(DaoError::ArithmeticOverflow)
    );
    dao.pause_dao(&accounts(1)).unwrap();
    assert_eq!(
        attempt(&mut dao, accounts(5), 0, START),
        Err(DaoError::EnginePaused)
    );
    dao.unpause_dao(&accounts(1)).unwrap();
    for n in 1..=5 {
        assert_eq!(attempt(&mut dao, accounts(0), MIN_PROPOSAL_DEPOSIT, START), Ok(n));
    }
    assert_eq!(
        attempt(&mut dao, accounts(0), MIN_PROPOSAL_DEPOSIT, START),
        Err(DaoError::TooManyActiveProposals)
    );
    // Another member still may, and a decided proposal frees a place.
    assert_eq!(attempt(&mut dao, accounts(2), MIN_PROPOSAL_DEPOSIT, START), Ok(6));
    dao.finalize_proposal(1, START + VOTING_PERIOD + 1, 100).unwrap();
    assert_eq!(attempt(&mut dao, accounts(0), MIN_PROPOSAL_DEPOSIT, START), Ok(7));
    assert_eq!(dao.get_proposals(None, None).len(), 7);
}

#[test]
fn votes_add_up() {
    let mut dao = engine();
    let id = propose(&mut dao, content());
    let event = dao
        .vote_on_proposal(accounts(0), id, VoteType::For, Some("yes".to_string()), START + 1, 40)
        .unwrap();
    assert_eq!(event.proposal_id, id);
    assert_eq!(event.voter, accounts(0));
    assert_eq!(event.support, VoteType::For);
    assert_eq!(event.voting_power, 40);
    assert_eq!(event.reason, Some("yes".to_string()));
    dao.vote_on_proposal(accounts(2), id, VoteType::Against, None, START + 2, 25).unwrap();
    dao.vote_on_proposal(accounts(3), id, VoteType::Abstain, None, START + 3, 5).unwrap();
    let p = dao.get_proposal(id).unwrap();
    assert_eq!(p.votes_for, 40);
    assert_eq!(p.votes_against, 25);
    assert_eq!(p.votes_abstain, 5);
    assert_eq!(p.total_votes, 70);
    assert_eq!(p.votes_for + p.votes_against + p.votes_abstain, p.total_votes);
    assert_eq!(dao.get_member(accounts(2)).unwrap().last_active, START + 2);
    assert_eq!(dao.get_member(accounts(1)).unwrap().last_active, START);
}

#[test]
fn revote_does_not_count_twice() {
    let mut dao = engine();
    let id = propose(&mut dao, content());
    dao.vote_on_proposal(accounts(0), id, VoteType::For, None, START + 1, 100).unwrap();
    let p = dao.get_proposal(id).unwrap();
    assert_eq!((p.votes_for, p.votes_against, p.total_votes), (100, 0, 100));
    dao.vote_on_proposal(accounts(0), id, VoteType::Against, None, START + 2, 100).unwrap();
    let p = dao.get_proposal(id).unwrap();
    assert_eq!(p.votes_for, 0);
    assert_eq!(p.votes_against, 100);
    assert_eq!(p.votes_abstain, 0);
    assert_eq!(p.total_votes, 100);
}

#[test]
fn revote_with_other_power_replaces_the_old_power() {
    let mut dao = engine();
    let id = propose(&mut dao, content());
    dao.vote_on_proposal(accounts(0), id, VoteType::For, None, START + 1, 30).unwrap();
    dao.vote_on_proposal(accounts(2), id, VoteType::For, None, START + 1, 11).unwrap();
    dao.vote_on_proposal(accounts(0), id, VoteType::Abstain, None, START + 2, 7).unwrap();
    let p = dao.get_proposal(id).unwrap();
    assert_eq!((p.votes_for, p.votes_against, p.votes_abstain, p.total_votes), (11, 0, 7, 18));
    dao.vote_on_proposal(accounts(0), id, VoteType::For, None, START + 3, 9).unwrap();
    let p = dao.get_proposal(id).unwrap();
    assert_eq!((p.votes_for, p.votes_against, p.votes_abstain, p.total_votes), (20, 0, 0, 20));
}

#[test]
fn vote_errors() {
    let mut dao = engine();
    let id = propose(&mut dao, content());
    let ends = START + VOTING_PERIOD;
    let vote = |dao: &mut VoiceDAO, who: usize, id: u64, now: u64, power: u128| {
        dao.vote_on_proposal(accounts(who), id, VoteType::For, None, now, power).map(|_| ())
    };
    assert_eq!(vote(&mut dao, 0, 9, START, 1), Err(DaoError::ProposalNotFound));
    assert_eq!(vote(&mut dao, 0, 0, START, 1), Err(DaoError::ProposalNotFound));
    assert_eq!(vote(&mut dao, 0, id, START - 1, 1), Err(DaoError::VotingClosed));
    assert_eq!(vote(&mut dao, 0, id, ends + 1, 1), Err(DaoError::VotingClosed));
    assert_eq!(vote(&mut dao, 5, id, START, 1), Err(DaoError::NotAMember));
    assert_eq!(vote(&mut dao, 0, id, START, 0), Err(DaoError::NoVotingPower));
    // Both ends of the window belong to it.
    assert_eq!(vote(&mut dao, 0, id, START, 1), Ok(()));
    assert_eq!(vote(&mut dao, 2, id, ends, 1), Ok(()));
    assert_eq!(vote(&mut dao, 3, id, START, u128::MAX), Err(DaoError::ArithmeticOverflow));
    assert_eq!(dao.get_proposal(id).unwrap().total_votes, 2);
    // A voter's own earlier power leaves before the new comes in.
    assert_eq!(vote(&mut dao, 0, id, START, u128::MAX - 1), Ok(()));
    assert_eq!(dao.get_proposal(id).unwrap().total_votes, u128::MAX);
    dao.pause_dao(&accounts(1)).unwrap();
    assert_eq!(vote(&mut dao, 0, id, START, 1), Err(DaoError::EnginePaused));
    dao.unpause_dao(&accounts(1)).unwrap();
    dao.finalize_proposal(id, ends + 1, 100).unwrap_err();
    let other = propose(&mut dao, content());
    dao.finalize_proposal(other, ends + 1, 100).unwrap();
    assert_eq!(vote(&mut dao, 0, other, START, 1), Err(DaoError::ProposalNotActive));
}

#[test]
fn three_members_carry_the_proposal() {
    let mut dao = engine();
    let near_before = dao.get_treasury_balance().near_balance;
    let id = propose(&mut dao, content());
    dao.vote_on_proposal(accounts(1), id, VoteType::For, None, START + 1, 40).unwrap();
    dao.vote_on_proposal(accounts(2), id, VoteType::For, None, START + 2, 30).unwrap();
    dao.vote_on_proposal(accounts(3), id, VoteType::For, None, START + 3, 30).unwrap();
    let after = START + VOTING_PERIOD + 1;
    let refund = dao.finalize_proposal(id, after, 100).unwrap().unwrap();
    assert_eq!(refund.recipient, accounts(0));
    assert_eq!(refund.amount, MIN_PROPOSAL_DEPOSIT);
    assert_eq!(refund.fund, TreasuryFund::Near);
    let p = dao.get_proposal(id).unwrap();
    assert_eq!(p.total_votes, 100);
    assert_eq!(p.votes_for, 100);
    assert_eq!(p.status, ProposalStatus::Succeeded);
    assert_eq!(p.execution_eta, after + EXECUTION_DELAY);
    assert_eq!(dao.get_treasury_balance().near_balance, near_before);
}

#[test]
fn one_small_vote_misses_the_quorum() {
    let mut dao = engine();
    let id = propose(&mut dao, content());
    dao.vote_on_proposal(accounts(1), id, VoteType::For, None, START + 1, 5).unwrap();
    let refund = dao.finalize_proposal(id, START + VOTING_PERIOD + 1, 100).unwrap();
    assert!(refund.is_none());
    let p = dao.get_proposal(id).unwrap();
    assert_eq!(p.status, ProposalStatus::Defeated);
    assert_eq!(p.execution_eta, 0);
    assert_eq!(dao.get_treasury_balance().near_balance, MIN_PROPOSAL_DEPOSIT);
    assert_eq!(dao.get_treasury_balance().available_funds, 0);
}

#[test]
fn finalize_is_once_only() {
    let mut dao = engine();
    let id = propose(&mut dao, content());
    dao.vote_on_proposal(accounts(1), id, VoteType::For, None, START + 1, 50).unwrap();
    let after = START + VOTING_PERIOD + 1;
    assert!(dao.finalize_proposal(id, after, 100).is_ok());
    let second = dao.finalize_proposal(id, after + 1, 100).unwrap_err();
    assert_eq!(second, DaoError::ProposalNotActive);
    assert_eq!(second.kind(), ErrorKind::InvalidState);
    assert_eq!(dao.get_proposal(id).unwrap().status, ProposalStatus::Succeeded);
}

#[test]
fn finalize_thresholds_are_exact() {
    // quorum: floor(total * 10000 / power) >= 1000; approval: floor(for * 10000 / (for + against)) >= 5000
    let cases: [(u128, u128, u128, u128, ProposalStatus); 8] = [
        (10, 0, 0, 100, ProposalStatus::Succeeded),
        (9, 0, 0, 100, ProposalStatus::Defeated),
        (5, 5, 0, 100, ProposalStatus::Succeeded),
        (4, 5, 1, 100, ProposalStatus::Defeated),
        (1, 0, 9, 100, ProposalStatus::Succeeded),
        (100, 0, 0, 1001, ProposalStatus::Defeated),
        (100, 0, 0, 1000, ProposalStatus::Succeeded),
        (4999, 5001, 0, 10, ProposalStatus::Defeated),
    ];
    for (votes_for, votes_against, votes_abstain, power, expected) in cases {
        let mut dao = engine();
        let id = propose(&mut dao, content());
        if votes_for > 0 {
            dao.vote_on_proposal(accounts(1), id, VoteType::For, None, START, votes_for).unwrap();
        }
        if votes_against > 0 {
            dao.vote_on_proposal(accounts(2), id, VoteType::Against, None, START, votes_against)
                .unwrap();
        }
        if votes_abstain > 0 {
            dao.vote_on_proposal(accounts(3), id, VoteType::Abstain, None, START, votes_abstain)
                .unwrap();
        }
        dao.finalize_proposal(id, START + VOTING_PERIOD + 1, power).unwrap();
        assert_eq!(dao.get_proposal(id).unwrap().status, expected);
    }
}

#[test]
fn no_quorum_defeats_whatever_the_approval() {
    let mut dao = engine();
    let id = propose(&mut dao, content());
    dao.vote_on_proposal(accounts(1), id, VoteType::For, None, START, 99).unwrap();
    let refund = dao.finalize_proposal(id, START + VOTING_PERIOD + 1, 1000).unwrap();
    assert!(refund.is_none());
    assert_eq!(dao.get_proposal(id).unwrap().status, ProposalStatus::Defeated);
}

#[test]
fn abstentions_alone_are_defeated() {
    // Below the quorum and with it: a ballot without a vote for or against
    // has no approval.
    for power in [5u128, 50, 100] {
        let mut dao = engine();
        let id = propose(&mut dao, content());
        dao.vote_on_proposal(accounts(1), id, VoteType::Abstain, None, START, power).unwrap();
        let refund = dao.finalize_proposal(id, START + VOTING_PERIOD + 1, 100).unwrap();
        assert!(refund.is_none());
        let p = dao.get_proposal(id).unwrap();
        assert_eq!(p.status, ProposalStatus::Defeated);
        assert_eq!((p.votes_for, p.votes_against, p.votes_abstain, p.total_votes), (0, 0, power, power));
        assert_eq!(dao.get_treasury_balance().near_balance, MIN_PROPOSAL_DEPOSIT);
    }
}

#[test]
fn finalize_errors() {
    let mut dao = engine();
    let id = propose(&mut dao, content());
    let ends = START + VOTING_PERIOD;
    assert_eq!(dao.finalize_proposal(7, ends + 1, 100).unwrap_err(), DaoError::ProposalNotFound);
    assert_eq!(dao.finalize_proposal(id, ends, 100).unwrap_err(), DaoError::VotingPeriodNotEnded);
    assert_eq!(dao.finalize_proposal(id, ends + 1, 0).unwrap_err(), DaoError::InvalidTotalPower);
    dao.vote_on_proposal(accounts(1), id, VoteType::For, None, START, u128::MAX / 10000 + 1)
        .unwrap();
    assert_eq!(dao.finalize_proposal(id, ends + 1, 100).unwrap_err(), DaoError::ArithmeticOverflow);
    dao.vote_on_proposal(accounts(1), id, VoteType::For, None, START, u128::MAX / 10000).unwrap();
    assert_eq!(dao.finalize_proposal(id, u64::MAX, 100).unwrap_err(), DaoError::ArithmeticOverflow);
    assert_eq!(dao.get_proposal(id).unwrap().status, ProposalStatus::Active);
    assert!(dao.finalize_proposal(id, ends + 1, 100).unwrap().is_some());
    // No votes at all: defeated, no error.
    let quiet = propose(&mut dao, content());
    assert!(dao.finalize_proposal(quiet, ends + 1, 100).unwrap().is_none());
    assert_eq!(dao.get_proposal(quiet).unwrap().status, ProposalStatus::Defeated);
    // A forfeited deposit that the treasury cannot take is an overflow.
    let big = dao
        .create_proposal(accounts(0), "t".into(), "d".into(), content(), vec![], u128::MAX, START)
        .unwrap()
        .proposal_id;
    assert_eq!(dao.finalize_proposal(big, ends + 1, 100).unwrap_err(), DaoError::ArithmeticOverflow);
    assert_eq!(dao.get_treasury_balance().near_balance, MIN_PROPOSAL_DEPOSIT);
}

#[test]
fn queue_waits_for_the_timelock() {
    let mut dao = engine();
    let id = propose(&mut dao, content());
    assert_eq!(dao.queue_proposal(id, u64::MAX), Err(DaoError::ProposalNotSucceeded));
    assert_eq!(dao.queue_proposal(4, START), Err(DaoError::ProposalNotFound));
    dao.vote_on_proposal(accounts(1), id, VoteType::For, None, START, 50).unwrap();
    let after = START + VOTING_PERIOD + 1;
    dao.finalize_proposal(id, after, 100).unwrap();
    let eta = after + EXECUTION_DELAY;
    assert_eq!(dao.get_proposal(id).unwrap().execution_eta, eta);
    assert_eq!(dao.queue_proposal(id, eta - 1), Err(DaoError::ExecutionDelayNotMet));
    assert_eq!(dao.get_proposal(id).unwrap().status, ProposalStatus::Succeeded);
    assert_eq!(dao.queue_proposal(id, eta), Ok(()));
    assert_eq!(dao.get_proposal(id).unwrap().status, ProposalStatus::Queued);
    assert_eq!(dao.queue_proposal(id, eta + 1), Err(DaoError::ProposalNotSucceeded));
}

#[test]
fn queue_after_the_eta_succeeds_too() {
    let mut dao = engine();
    let id = propose(&mut dao, content());
    dao.vote_on_proposal(accounts(1), id, VoteType::For, None, START, 50).unwrap();
    dao.finalize_proposal(id, START + VOTING_PERIOD + 1, 100).unwrap();
    assert_eq!(dao.queue_proposal(id, u64::MAX), Ok(()));
}

#[test]
fn execute_needs_a_queued_proposal_and_an_authorized_caller() {
    let mut dao = engine();
    let id = propose(&mut dao, content());
    assert_eq!(dao.execute_proposal(accounts(1), 5, START).unwrap_err(), DaoError::ProposalNotFound);
    assert_eq!(dao.execute_proposal(accounts(1), id, START).unwrap_err(), DaoError::ProposalNotQueued);
    dao.vote_on_proposal(accounts(1), id, VoteType::For, None, START, 50).unwrap();
    dao.finalize_proposal(id, START + VOTING_PERIOD + 1, 100).unwrap();
    assert_eq!(dao.execute_proposal(accounts(1), id, START).unwrap_err(), DaoError::ProposalNotQueued);
    dao.queue_proposal(id, u64::MAX).unwrap();
    assert_eq!(dao.execute_proposal(accounts(0), id, START).unwrap_err(), DaoError::Unauthorized);
    assert_eq!(dao.get_proposal(id).unwrap().status, ProposalStatus::Queued);
    dao.add_council_member(&accounts(1), accounts(0)).unwrap();
    let done = dao.execute_proposal(accounts(0), id, START).unwrap();
    assert!(done.event.success);
    assert_eq!(done.event.result, "Success");
    assert_eq!(done.event.executor, accounts(0));
    assert_eq!(done.event.proposal_id, id);
    assert!(done.transfer.is_none());
    assert_eq!(dao.get_proposal(id).unwrap().status, ProposalStatus::Executed);
    assert_eq!(dao.execute_proposal(accounts(0), id, START).unwrap_err(), DaoError::ProposalNotQueued);
}

#[test]
fn owner_off_the_council_may_still_execute() {
    let mut dao = engine();
    dao.remove_council_member(&accounts(1), accounts(1)).unwrap();
    assert!(!dao.is_council_member(accounts(1)));
    let id = queued(&mut dao, content());
    assert!(dao.execute_proposal(accounts(1), id, START).unwrap().event.success);
}

fn spend(token: &str, amount: u128, purpose: &str) -> ProposalType {
    ProposalType::Treasury {
        recipient: accounts(4),
        amount,
        token: token.to_string(),
        purpose: purpose.to_string(),
    }
}

#[test]
fn treasury_spend_without_cover_fails_and_changes_nothing() {
    let mut dao = engine();
    dao.contribute_to_treasury(500).unwrap();
    let id = queued(&mut dao, spend("NEAR", 501, "ops"));
    let done = dao.execute_proposal(accounts(1), id, START).unwrap();
    assert!(!done.event.success);
    assert_eq!(done.event.result, "Failed");
    assert!(done.transfer.is_none());
    assert_eq!(dao.get_proposal(id).unwrap().status, ProposalStatus::Queued);
    let treasury = dao.get_treasury_balance();
    assert_eq!(treasury.near_balance, 500);
    assert_eq!(treasury.total_spent, 0);
    assert!(treasury.spending_categories.is_empty());
    // With cover it goes through on a later attempt.
    dao.contribute_to_treasury(1).unwrap();
    let done = dao.execute_proposal(accounts(1), id, START).unwrap();
    assert!(done.event.success);
    assert_eq!(dao.get_proposal(id).unwrap().status, ProposalStatus::Executed);
}

#[test]
fn treasury_spend_debits_books_and_transfers() {
    let mut dao = engine();
    dao.contribute_to_treasury(1_000).unwrap();
    let first = queued(&mut dao, spend("NEAR", 300, "ops"));
    let second = queued(&mut dao, spend("NEAR", 200, "ops"));
    let third = queued(&mut dao, spend("NEAR", 100, "events"));
    let done = dao.execute_proposal(accounts(1), first, START).unwrap();
    let transfer = done.transfer.unwrap();
    assert_eq!(transfer.recipient, accounts(4));
    assert_eq!(transfer.amount, 300);
    assert_eq!(transfer.fund, TreasuryFund::Near);
    dao.execute_proposal(accounts(1), second, START).unwrap();
    dao.execute_proposal(accounts(1), third, START).unwrap();
    let treasury = dao.get_treasury_balance();
    assert_eq!(treasury.near_balance, 400);
    assert_eq!(treasury.available_funds, 1_000);
    assert_eq!(treasury.total_spent, 600);
    assert_eq!(treasury.spending_categories.len(), 2);
    assert_eq!(treasury.spending_categories[0].name, "ops");
    assert_eq!(treasury.spending_categories[0].amount, 500);
    assert_eq!(treasury.spending_categories[1].name, "events");
    assert_eq!(treasury.spending_categories[1].amount, 100);
}

#[test]
fn treasury_spend_of_the_platform_token_and_of_unknown_tokens() {
    let mut dao = engine();
    let voice = queued(&mut dao, spend("VOICE", 1, "ops"));
    assert!(!dao.execute_proposal(accounts(1), voice, START).unwrap().event.success);
    let nothing = queued(&mut dao, spend("VOICE", 0, "ops"));
    let done = dao.execute_proposal(accounts(1), nothing, START).unwrap();
    assert!(done.event.success);
    assert_eq!(done.transfer.unwrap().fund, TreasuryFund::Voice);
    let unknown = queued(&mut dao, spend("USDC", 0, "ops"));
    assert!(!dao.execute_proposal(accounts(1), unknown, START).unwrap().event.success);
    let lower = queued(&mut dao, spend("near", 0, "ops"));
    assert!(!dao.execute_proposal(accounts(1), lower, START).unwrap().event.success);
}

#[test]
fn governance_change_sets_the_two_parameters() {
    let change = |parameter: &str, value: &str| ProposalType::Governance {
        parameter: parameter.to_string(),
        new_value: value.to_string(),
    };
    let mut dao = engine();
    let id = queued(&mut dao, change("voting_period", "3600"));
    assert!(dao.execute_proposal(accounts(1), id, START).unwrap().event.success);
    assert_eq!(dao.get_governance_config().voting_period, 3600);
    let id = queued(&mut dao, change("quorum_threshold", "2500"));
    assert!(dao.execute_proposal(accounts(1), id, START).unwrap().event.success);
    assert_eq!(dao.get_governance_config().quorum_threshold, 2500);
    assert_eq!(dao.get_governance_config().approval_threshold, 5000);

    for (parameter, value) in [
        ("voting_period", "soon"),
        ("voting_period", "0"),
        ("voting_period", ""),
        ("voting_period", "-1"),
        ("voting_period", "18446744073709551616"),
        ("quorum_threshold", "4294967296"),
        ("quorum_threshold", "12 "),
        ("approval_threshold", "100"),
        ("execution_delay", "100"),
    ] {
        let id = queued(&mut dao, change(parameter, value));
        let done = dao.execute_proposal(accounts(1), id, START).unwrap();
        assert!(!done.event.success);
        assert_eq!(dao.get_proposal(id).unwrap().status, ProposalStatus::Queued);
    }
    let config = dao.get_governance_config();
    assert_eq!(config.voting_period, 3600);
    assert_eq!(config.quorum_threshold, 2500);
    assert_eq!(config.approval_threshold, 5000);
    assert_eq!(config.execution_delay, EXECUTION_DELAY);
}

#[test]
fn membership_change_adds_and_removes() {
    let change = |action: &str, who: usize| ProposalType::Membership {
        action: action.to_string(),
        member: accounts(who),
        role: "core".to_string(),
    };
    let mut dao = engine();
    let add = queued(&mut dao, change("add", 4));
    assert!(dao.execute_proposal(accounts(1), add, 9_999).unwrap().event.success);
    let eugene = dao.get_member(accounts(4)).unwrap();
    assert_eq!(eugene.roles, vec!["core".to_string()]);
    assert_eq!(eugene.joined_at, 9_999);
    let again = queued(&mut dao, change("add", 4));
    assert!(!dao.execute_proposal(accounts(1), again, START).unwrap().event.success);
    let order: Vec<String> = dao.get_members(None, None).into_iter().map(|m| m.account_id).collect();
    assert_eq!(order, vec![accounts(1), accounts(0), accounts(2), accounts(3), accounts(4)]);

    // The last member takes the place of the one removed.
    let remove = queued(&mut dao, change("remove", 0));
    assert!(dao.execute_proposal(accounts(1), remove, START).unwrap().event.success);
    assert!(!dao.is_member(accounts(0)));
    let order: Vec<String> = dao.get_members(None, None).into_iter().map(|m| m.account_id).collect();
    assert_eq!(order, vec![accounts(1), accounts(4), accounts(2), accounts(3)]);
    let missing = queued_by(&mut dao, 2, change("remove", 0));
    assert!(!dao.execute_proposal(accounts(1), missing, START).unwrap().event.success);
    let other = queued_by(&mut dao, 2, change("suspend", 2));
    assert!(!dao.execute_proposal(accounts(1), other, START).unwrap().event.success);
    assert_eq!(dao.get_members(None, None).len(), 4);
}

fn queued_by(dao: &mut VoiceDAO, who: usize, payload: ProposalType) -> u64 {
    let id = dao
        .create_proposal(accounts(who), "t".into(), "d".into(), payload, vec![], MIN_PROPOSAL_DEPOSIT, START)
        .unwrap()
        .proposal_id;
    dao.vote_on_proposal(accounts(2), id, VoteType::For, None, START + 1, 100).unwrap();
    dao.finalize_proposal(id, START + VOTING_PERIOD + 1, 100).unwrap();
    dao.queue_proposal(id, u64::MAX).unwrap();
    id
}

#[test]
fn contract_calls_and_partnerships_are_not_carried_out() {
    let mut dao = engine();
    let call = queued(
        &mut dao,
        ProposalType::Contract {
            action: "pause".to_string(),
            target_contract: accounts(5),
            method: "pause".to_string(),
            args: "{}".to_string(),
        },
    );
    let done = dao.execute_proposal(accounts(1), call, START).unwrap();
    assert!(!done.event.success);
    assert_eq!(done.event.result, "Failed");
    let partner = queued(
        &mut dao,
        ProposalType::Partnership { partner: accounts(5), terms: "x".to_string(), duration: 9 },
    );
    assert!(!dao.execute_proposal(accounts(1), partner, START).unwrap().event.success);
    assert_eq!(dao.get_proposal(partner).unwrap().status, ProposalStatus::Queued);
}

#[test]
fn grant_needs_cover_in_the_platform_token() {
    let grant = |amount: u128| ProposalType::Grant {
        recipient: accounts(4),
        amount,
        milestones: vec!["m1".to_string(), "m2".to_string()],
        category: "research".to_string(),
    };
    let mut dao = engine();
    dao.contribute_to_treasury(1_000).unwrap();
    let id = queued(&mut dao, grant(10));
    let done = dao.execute_proposal(accounts(1), id, START).unwrap();
    assert!(!done.event.success);
    assert!(done.transfer.is_none());
    assert_eq!(dao.get_treasury_balance().near_balance, 1_000);
    let free = queued(&mut dao, grant(0));
    let done = dao.execute_proposal(accounts(1), free, START).unwrap();
    assert!(done.event.success);
    let transfer = done.transfer.unwrap();
    assert_eq!((transfer.recipient, transfer.amount, transfer.fund), (accounts(4), 0, TreasuryFund::Voice));
    let treasury = dao.get_treasury_balance();
    assert_eq!(treasury.spending_categories.len(), 1);
    assert_eq!(treasury.spending_categories[0].name, "research");
    assert_eq!(treasury.spending_categories[0].amount, 0);
}

#[test]
fn contributions_are_numbered_and_counted() {
    let mut dao = engine();
    let first = dao
        .submit_contribution(
            accounts(0),
            ContributionType::CodeCommit,
            "Fix".to_string(),
            "A fix".to_string(),
            "Qm1".to_string(),
            START + 9,
        )
        .unwrap();
    assert_eq!(first, "contribution-1");
    for n in 2..=11u64 {
        let id = dao
            .submit_contribution(
                accounts(5),
                ContributionType::Design,
                "t".to_string(),
                "d".to_string(),
                "Qm".to_string(),
                START,
            )
            .unwrap();
        assert_eq!(id, format!("contribution-{}", n));
    }
    let c = dao.get_contribution("contribution-1".to_string()).unwrap();
    assert_eq!(c.id, "contribution-1");
    assert_eq!(c.contributor, accounts(0));
    assert_eq!(c.contribution_type, ContributionType::CodeCommit);
    assert_eq!(c.title, "Fix");
    assert_eq!(c.description, "A fix");
    assert_eq!(c.ipfs_hash, "Qm1");
    assert_eq!(c.reward_amount, 0);
    assert_eq!(c.status, ContributionStatus::Submitted);
    assert_eq!(c.created_at, START + 9);
    assert!(c.reviewed_at.is_none());
    assert!(c.reviewer.is_none());
    assert_eq!(dao.get_contribution("contribution-10".to_string()).unwrap().contributor, accounts(5));
    assert!(dao.get_contribution("contribution-12".to_string()).is_none());
    assert!(dao.get_contribution("contribution-01".to_string()).is_none());
    assert_eq!(dao.get_member(accounts(0)).unwrap().contributions, 1);
    assert_eq!(dao.get_contributions_by_member(accounts(5)).len(), 10);
    assert_eq!(dao.get_contributions_by_member(accounts(0)).len(), 1);
    assert!(dao.get_contributions_by_member(accounts(1)).is_empty());
    assert_eq!(dao.get_dao_stats(START).unwrap().total_contributions, 11);
}

#[test]
fn review_sets_the_status_once_and_rewards_approval() {
    let mut dao = engine();
    let submit = |dao: &mut VoiceDAO, who: usize| {
        dao.submit_contribution(
            accounts(who),
            ContributionType::Documentation,
            "t".to_string(),
            "d".to_string(),
            "Qm".to_string(),
            START,
        )
        .unwrap()
    };
    let first = submit(&mut dao, 0);
    let second = submit(&mut dao, 0);
    let third = submit(&mut dao, 5);

    assert_eq!(
        dao.review_contribution(accounts(0), first.clone(), true, 0, START).unwrap_err(),
        DaoError::Unauthorized
    );
    assert_eq!(
        dao.review_contribution(accounts(1), "contribution-9".to_string(), true, 0, START).unwrap_err(),
        DaoError::ContributionNotFound
    );
    // An approval with a reward that the treasury does not cover: recorded, not paid.
    let paid = dao.review_contribution(accounts(1), first.clone(), true, 50, START + 4).unwrap();
    assert!(paid.is_none());
    let c = dao.get_contribution(first.clone()).unwrap();
    assert_eq!(c.status, ContributionStatus::Approved);
    assert_eq!(c.reward_amount, 50);
    assert_eq!(c.reviewed_at, Some(START + 4));
    assert_eq!(c.reviewer, Some(accounts(1)));
    assert_eq!(dao.get_member(accounts(0)).unwrap().reputation, 10);
    assert_eq!(dao.get_treasury_balance().total_spent, 0);

    let paid = dao.review_contribution(accounts(1), second.clone(), false, 5, START).unwrap();
    assert!(paid.is_none());
    assert_eq!(dao.get_contribution(second.clone()).unwrap().status, ContributionStatus::Rejected);
    assert_eq!(dao.get_contribution(second.clone()).unwrap().reward_amount, 5);
    assert_eq!(dao.get_member(accounts(0)).unwrap().reputation, 10);

    assert_eq!(
        dao.review_contribution(accounts(1), first, true, 0, START).unwrap_err(),
        DaoError::ContributionAlreadyReviewed
    );
    assert_eq!(
        dao.review_contribution(accounts(1), second, true, 0, START).unwrap_err(),
        DaoError::ContributionAlreadyReviewed
    );
    assert_eq!(dao.get_member(accounts(0)).unwrap().reputation, 10);
    // One who is no member can hand in work; there is no reputation to add to.
    assert!(dao.review_contribution(accounts(1), third.clone(), true, 0, START).unwrap().is_none());
    assert_eq!(dao.get_contribution(third).unwrap().status, ContributionStatus::Approved);
}

#[test]
fn delegation_is_one_edge_per_member() {
    let mut dao = engine();
    assert_eq!(dao.delegate_voting_power(accounts(5), accounts(0)), Err(DaoError::NotAMember));
    assert_eq!(dao.delegate_voting_power(accounts(0), accounts(5)), Err(DaoError::DelegateNotMember));
    assert_eq!(dao.delegate_voting_power(accounts(0), accounts(0)), Err(DaoError::SelfDelegation));
    assert!(dao.get_delegate(accounts(0)).is_none());
    dao.delegate_voting_power(accounts(0), accounts(2)).unwrap();
    dao.delegate_voting_power(accounts(3), accounts(2)).unwrap();
    assert_eq!(dao.get_delegate(accounts(0)), Some(accounts(2)));
    dao.delegate_voting_power(accounts(0), accounts(3)).unwrap();
    assert_eq!(dao.get_delegate(accounts(0)), Some(accounts(3)));
    assert_eq!(dao.get_delegate(accounts(3)), Some(accounts(2)));
    // No power moves by a delegation.
    assert_eq!(dao.get_voting_power(&accounts(3)), 0);
    assert_eq!(dao.get_member(accounts(3)).unwrap().delegated_power, 0);
    dao.undelegate_voting_power(accounts(0));
    assert!(dao.get_delegate(accounts(0)).is_none());
    assert_eq!(dao.get_delegate(accounts(3)), Some(accounts(2)));
    dao.undelegate_voting_power(accounts(0));
    dao.undelegate_voting_power(accounts(5));
    assert_eq!(dao.get_delegate(accounts(3)), Some(accounts(2)));
}

#[test]
fn only_the_owner_administers() {
    let mut dao = engine();
    let config = GovernanceConfig {
        min_proposal_deposit: 1,
        voting_period: 2,
        execution_delay: 3,
        quorum_threshold: 4,
        approval_threshold: 5,
        max_proposals_per_member: 6,
        proposal_fee: 7,
    };
    assert_eq!(dao.add_council_member(&accounts(0), accounts(0)), Err(DaoError::Unauthorized));
    assert_eq!(dao.remove_council_member(&accounts(0), accounts(1)), Err(DaoError::Unauthorized));
    assert_eq!(dao.update_governance_config(&accounts(0), config), Err(DaoError::Unauthorized));
    assert_eq!(dao.pause_dao(&accounts(0)), Err(DaoError::Unauthorized));
    assert_eq!(dao.unpause_dao(&accounts(0)), Err(DaoError::Unauthorized));
    assert_eq!(dao.get_council_members(), vec![accounts(1)]);
    assert_eq!(dao.get_governance_config().voting_period, VOTING_PERIOD);

    dao.add_council_member(&accounts(1), accounts(0)).unwrap();
    dao.add_council_member(&accounts(1), accounts(5)).unwrap();
    dao.add_council_member(&accounts(1), accounts(0)).unwrap();
    assert_eq!(dao.get_council_members(), vec![accounts(1), accounts(0), accounts(5)]);
    dao.remove_council_member(&accounts(1), accounts(1)).unwrap();
    assert_eq!(dao.get_council_members(), vec![accounts(5), accounts(0)]);
    dao.remove_council_member(&accounts(1), accounts(3)).unwrap();
    assert_eq!(dao.get_council_members().len(), 2);
    let without_window = GovernanceConfig { voting_period: 0, ..config };
    assert_eq!(
        dao.update_governance_config(&accounts(1), without_window),
        Err(DaoError::InvalidVotingPeriod)
    );
    assert_eq!(dao.update_governance_config(&accounts(0), without_window), Err(DaoError::Unauthorized));
    assert_eq!(dao.get_governance_config().voting_period, VOTING_PERIOD);
    dao.update_governance_config(&accounts(1), config).unwrap();
    assert_eq!(dao.get_governance_config(), config);
    dao.pause_dao(&accounts(1)).unwrap();
    assert!(dao.is_paused());
    dao.unpause_dao(&accounts(1)).unwrap();
    assert!(!dao.is_paused());
}

#[test]
fn treasury_takes_contributions() {
    let mut dao = engine();
    dao.contribute_to_treasury(10).unwrap();
    dao.contribute_to_treasury(u128::MAX - 10).unwrap();
    assert_eq!(dao.contribute_to_treasury(1), Err(DaoError::ArithmeticOverflow));
    let treasury = dao.get_treasury_balance();
    assert_eq!(treasury.near_balance, u128::MAX);
    assert_eq!(treasury.available_funds, u128::MAX);
    assert_eq!(treasury.voice_balance, 0);
}

#[test]
fn pages_of_proposals_and_members() {
    let mut dao = engine();
    for _ in 0..4 {
        propose(&mut dao, content());
    }
    for who in [1, 2, 3] {
        queued_by(&mut dao, who, content());
    }
    let ids = |ps: Vec<voice_contracts::governance::types::Proposal>| -> Vec<u64> {
        ps.into_iter().map(|p| p.id).collect()
    };
    assert_eq!(ids(dao.get_proposals(None, None)), vec![1, 2, 3, 4, 5, 6, 7]);
    assert_eq!(ids(dao.get_proposals(Some(2), Some(3))), vec![3, 4, 5]);
    assert_eq!(ids(dao.get_proposals(Some(5), Some(50))), vec![6, 7]);
    assert_eq!(ids(dao.get_proposals(Some(6), Some(u64::MAX))), vec![7]);
    assert_eq!(ids(dao.get_proposals(None, Some(0))), Vec::<u64>::new());
    assert_eq!(ids(dao.get_proposals(Some(7), None)), Vec::<u64>::new());
    assert_eq!(ids(dao.get_proposals(Some(u128::MAX), None)), Vec::<u64>::new());
    assert_eq!(ids(dao.get_active_proposals()), vec![1, 2, 3, 4]);
    assert_eq!(ids(dao.get_active_proposals_by_member(&accounts(0))), vec![1, 2, 3, 4]);
    assert_eq!(ids(dao.get_active_proposals_by_member(&accounts(1))), Vec::<u64>::new());
    let names = |ms: Vec<voice_contracts::governance::types::Member>| -> Vec<String> {
        ms.into_iter().map(|m| m.account_id).collect()
    };
    assert_eq!(names(dao.get_members(Some(1), Some(2))), vec![accounts(0), accounts(2)]);
    assert_eq!(names(dao.get_members(Some(3), None)), vec![accounts(3)]);
    assert!(dao.get_member(accounts(5)).is_none());
}

#[test]
fn stats_count_what_is_there() {
    let mut dao = engine();
    propose(&mut dao, content());
    queued(&mut dao, content());
    dao.contribute_to_treasury(42).unwrap();
    let stats = dao.get_dao_stats(START + 3).unwrap();
    assert_eq!(stats.total_proposals, 2);
    assert_eq!(stats.active_proposals, 1);
    assert_eq!(stats.total_members, 4);
    assert_eq!(stats.total_voting_power, 1_000_000_000_000_000_000_000_000_000);
    assert_eq!(stats.treasury_value, 42);
    assert_eq!(stats.total_contributions, 0);
    assert_eq!(stats.last_updated, START + 3);
}

#[test]
fn errors_have_a_class_and_a_reason() {
    let table = [
        (DaoError::EnginePaused, ErrorKind::InvalidState, "DAO is paused"),
        (DaoError::Unauthorized, ErrorKind::Unauthorized, "Not authorized"),
        (DaoError::InsufficientDeposit, ErrorKind::InsufficientFunds, "Insufficient deposit"),
        (DaoError::TooManyActiveProposals, ErrorKind::InvalidState, "Too many active proposals"),
        (DaoError::ProposalNotFound, ErrorKind::NotFound, "Proposal not found"),
        (DaoError::ProposalNotActive, ErrorKind::InvalidState, "Proposal not active"),
        (DaoError::VotingClosed, ErrorKind::TimingViolation, "Not in voting period"),
        (DaoError::NotAMember, ErrorKind::NotFound, "Not a DAO member"),
        (DaoError::NoVotingPower, ErrorKind::Unauthorized, "No voting power"),
        (DaoError::VotingPeriodNotEnded, ErrorKind::TimingViolation, "Voting period not ended"),
        (DaoError::InvalidTotalPower, ErrorKind::ValidationError, "Total voting power is zero"),
        (DaoError::InvalidVotingPeriod, ErrorKind::ValidationError, "Voting period is zero"),
        (DaoError::ProposalNotSucceeded, ErrorKind::InvalidState, "Proposal not succeeded"),
        (DaoError::ExecutionDelayNotMet, ErrorKind::TimingViolation, "Execution delay not met"),
        (DaoError::ProposalNotQueued, ErrorKind::InvalidState, "Proposal not queued"),
        (DaoError::ContributionNotFound, ErrorKind::NotFound, "Contribution not found"),
        (
            DaoError::ContributionAlreadyReviewed,
            ErrorKind::InvalidState,
            "Contribution already reviewed",
        ),
        (DaoError::AlreadyMember, ErrorKind::InvalidState, "Already a member"),
        (DaoError::DelegateNotMember, ErrorKind::NotFound, "Delegate not a member"),
        (DaoError::SelfDelegation, ErrorKind::ValidationError, "Cannot delegate to self"),
        (DaoError::ArithmeticOverflow, ErrorKind::ValidationError, "Arithmetic overflow"),
    ];
    for (error, kind, reason) in table {
        assert_eq!(error.kind(), kind);
        assert_eq!(error.message(), reason);
    }
}

#[test]
fn state_goes_out_and_comes_back() {
    let mut dao = engine();
    let id = propose(&mut dao, content());
    dao.vote_on_proposal(accounts(1), id, VoteType::For, None, START, 40).unwrap();
    dao.vote_on_proposal(accounts(2), id, VoteType::Against, None, START, 2).unwrap();
    dao.submit_contribution(accounts(0), ContributionType::Design, "t".into(), "d".into(), "Qm".into(), START)
        .unwrap();
    dao.delegate_voting_power(accounts(0), accounts(1)).unwrap();
    let snapshot = dao.into_snapshot();
    assert_eq!(snapshot.proposals.len(), 1);
    assert_eq!(snapshot.votes[0].len(), 2);
    assert_eq!(snapshot.members.len(), 4);
    assert_eq!(snapshot.roles.len(), 4);
    assert_eq!(snapshot.roles[1].key, "council");
    assert_eq!(snapshot.roles[1].config.name, "Council");
    assert_eq!(snapshot.roles[1].config.permissions, vec!["execute", "review", "moderate"]);
    assert_eq!(snapshot.roles[1].config.max_members, Some(21));
    assert_eq!(snapshot.roles[2].config.min_voting_power, 100_000_000_000_000_000_000_000_000);
    assert!(snapshot.is_well_formed());
    let mut back = VoiceDAO::from_snapshot(snapshot).unwrap();
    assert_eq!(back.get_proposal(id).unwrap().total_votes, 42);
    assert_eq!(back.get_delegate(accounts(0)), Some(accounts(1)));
    back.vote_on_proposal(accounts(1), id, VoteType::Abstain, None, START, 1).unwrap();
    assert_eq!(back.get_proposal(id).unwrap().votes_for, 0);
}

#[test]
fn a_state_that_is_not_an_engines_is_refused() {
    let fresh = || {
        let mut dao = engine();
        let id = propose(&mut dao, content());
        dao.vote_on_proposal(accounts(1), id, VoteType::For, None, START, 40).unwrap();
        dao.submit_contribution(accounts(0), ContributionType::Design, "t".into(), "d".into(), "Q".into(), START)
            .unwrap();
        dao.delegate_voting_power(accounts(0), accounts(1)).unwrap();
        dao.into_snapshot()
    };
    assert!(VoiceDAO::from_snapshot(fresh()).is_some());

    let mut s = fresh();
    s.proposals[0].votes_for = 41;
    assert!(VoiceDAO::from_snapshot(s).is_none());
    let mut s = fresh();
    s.proposals[0].total_votes = 39;
    assert!(VoiceDAO::from_snapshot(s).is_none());
    let mut s = fresh();
    s.proposals[0].id = 2;
    assert!(VoiceDAO::from_snapshot(s).is_none());
    let mut s = fresh();
    s.proposal_counter = 2;
    assert!(VoiceDAO::from_snapshot(s).is_none());
    let mut s = fresh();
    s.votes.push(Vec::new());
    assert!(VoiceDAO::from_snapshot(s).is_none());
    let mut s = fresh();
    s.votes[0][0].proposal_id = 7;
    assert!(VoiceDAO::from_snapshot(s).is_none());
    let mut s = fresh();
    let again = s.votes[0][0].clone();
    s.votes[0].push(again);
    s.proposals[0].votes_for = 80;
    s.proposals[0].total_votes = 80;
    assert!(VoiceDAO::from_snapshot(s).is_none());
    let mut s = fresh();
    s.proposals[0].voting_ends_at = s.proposals[0].voting_starts_at - 1;
    assert!(VoiceDAO::from_snapshot(s).is_none());
    let mut s = fresh();
    s.proposals[0].voting_ends_at = s.proposals[0].voting_starts_at;
    assert!(VoiceDAO::from_snapshot(s).is_none());
    let mut s = fresh();
    s.governance_config.voting_period = 0;
    assert!(VoiceDAO::from_snapshot(s).is_none());
    let mut s = fresh();
    let twin = s.members[1].clone();
    s.members.push(twin);
    assert!(VoiceDAO::from_snapshot(s).is_none());
    let mut s = fresh();
    s.members[0].delegated_to = Some(s.members[0].account_id.clone());
    assert!(VoiceDAO::from_snapshot(s).is_none());
    let mut s = fresh();
    s.council.push(accounts(1));
    assert!(VoiceDAO::from_snapshot(s).is_none());
    let mut s = fresh();
    s.delegations[0].delegate = accounts(0);
    assert!(VoiceDAO::from_snapshot(s).is_none());
    let mut s = fresh();
    s.contributions[0].id = "contribution-2".to_string();
    assert!(VoiceDAO::from_snapshot(s).is_none());
    let mut s = fresh();
    s.contribution_counter = 0;
    assert!(VoiceDAO::from_snapshot(s).is_none());
    let mut s = fresh();
    s.roles[3].key = "founder".to_string();
    assert!(VoiceDAO::from_snapshot(s).is_none());
    // What the invariant does not speak of may be anything.
    let mut s = fresh();
    s.treasury.voice_balance = 1_000;
    s.members[2].delegated_power = 9;
    s.paused = true;
    let dao = VoiceDAO::from_snapshot(s).unwrap();
    assert_eq!(dao.get_voting_power(&accounts(2)), 9);
    assert_eq!(dao.get_voting_power(&accounts(5)), 0);
    assert!(dao.is_paused());
}

#[test]
fn spends_of_the_platform_token_with_cover() {
    let mut s = engine().into_snapshot();
    s.treasury.voice_balance = 1_000;
    let mut dao = VoiceDAO::from_snapshot(s).unwrap();
    let id = queued(&mut dao, spend("VOICE", 300, "ops"));
    let done = dao.execute_proposal(accounts(1), id, START).unwrap();
    assert!(done.event.success);
    let transfer = done.transfer.unwrap();
    assert_eq!((transfer.recipient, transfer.amount, transfer.fund), (accounts(4), 300, TreasuryFund::Voice));
    let grant = queued(
        &mut dao,
        ProposalType::Grant {
            recipient: accounts(5),
            amount: 700,
            milestones: vec![],
            category: "ops".to_string(),
        },
    );
    assert!(dao.execute_proposal(accounts(1), grant, START).unwrap().event.success);
    let treasury = dao.get_treasury_balance();
    assert_eq!(treasury.voice_balance, 0);
    assert_eq!(treasury.total_spent, 1_000);
    assert_eq!(treasury.spending_categories.len(), 1);
    assert_eq!(treasury.spending_categories[0].amount, 1_000);

    // A reward that the balance covers is paid on approval.
    let mut s = dao.into_snapshot();
    s.treasury.voice_balance = 50;
    let mut dao = VoiceDAO::from_snapshot(s).unwrap();
    let c = dao
        .submit_contribution(accounts(0), ContributionType::Design, "t".into(), "d".into(), "Q".into(), START)
        .unwrap();
    let paid = dao.review_contribution(accounts(1), c, true, 50, START).unwrap().unwrap();
    assert_eq!((paid.recipient, paid.amount, paid.fund), (accounts(0), 50, TreasuryFund::Voice));
    assert_eq!(dao.get_treasury_balance().voice_balance, 0);
    assert_eq!(dao.get_treasury_balance().total_spent, 1_050);
}
