use voice_contracts::dao::contract::{proposal_type_from_view, DAO};
use voice_contracts::dao::model::OWNER_VOTING_POWER;
use voice_contracts::dao::types::{
    DaoError, ProposalStatusView, ProposalType, ProposalTypeView,
};

const T0: u64 = 50;
const VOTING: u64 = 604_800_000_000_000;
const EXECUTION: u64 = 259_200_000_000_000;
const DEPOSIT: u128 = 100_000_000_000_000_000_000_000;
const MIN_POWER: u128 = 1_000_000_000_000_000_000_000;

fn who(i: usize) -> String {
    ["alice", "bob", "charlie", "danny", "eugene", "fargo"][i].to_string()
}

fn general() -> ProposalTypeView {
    ProposalTypeView::General {
        description: "anything".to_string(),
        actions: vec!["one".to_string(), "two".to_string()],
    }
}

fn spend(recipient: &str, amount: &str) -> ProposalTypeView {
    ProposalTypeView::TreasurySpend {
        recipient: recipient.to_string(),
        amount: amount.to_string(),
        description: "pay".to_string(),
    }
}

fn membership(account: &str, action: &str) -> ProposalTypeView {
    ProposalTypeView::MembershipChange { account_id: account.to_string(), action: action.to_string() }
}

/// An organisation of alice (the owner, 10^24), bob (6 * 10^23) and charlie (10^21).
fn organisation() -> DAO {
    let mut dao = DAO::new(who(0), T0);
    dao.join_dao(who(1), 600_000_000_000_000_000_000_000, T0 + 1).unwrap();
    dao.join_dao(who(2), MIN_POWER, T0 + 2).unwrap();
    dao
}

fn approved(dao: &mut DAO, payload: ProposalTypeView) -> u128 {
    let id: u128 = dao.create_proposal(who(0), DEPOSIT, payload, "d".to_string(), T0).unwrap().parse().unwrap();
    dao.vote(who(0), id, true, T0 + 1).unwrap();
    dao.finalize_proposal(id, T0 + VOTING).unwrap();
    assert_eq!(dao.get_proposal(id).unwrap().status, ProposalStatusView::Approved);
    id
}

#[test]
fn new_organisation_has_its_owner_as_only_member() {
    let dao = DAO::new(who(0), T0);
    assert_eq!(dao.owner_id(), who(0));
    assert_eq!(dao.get_total_voting_power(), "1000000000000000000000000");
    assert_eq!(OWNER_VOTING_POWER, 1_000_000_000_000_000_000_000_000);
    assert_eq!(dao.get_total_proposals(), "0");
    assert_eq!(dao.get_treasury_balance(), "0");
    assert_eq!(dao.get_active_members(), vec![who(0)]);
    let owner = dao.get_member(who(0)).unwrap();
    assert_eq!(owner.account_id, "alice");
    assert_eq!(owner.voting_power, "1000000000000000000000000");
    assert_eq!(owner.joined_at, "50");
    assert!(owner.is_active);
    assert!(dao.get_member(who(1)).is_none());
    let config = dao.get_config();
    assert_eq!(config.voting_period, "604800000000000");
    assert_eq!(config.execution_period, "259200000000000");
    assert_eq!(config.quorum_threshold, 1000);
    assert_eq!(config.approval_threshold, 5000);
    assert_eq!(config.proposal_deposit, "100000000000000000000000");
    assert_eq!(config.min_voting_power, "1000000000000000000000");
    assert!(dao.get_proposals(None, None).is_empty());
}

#[test]
fn joining_adds_power_and_is_once_only() {
    let mut dao = organisation();
    assert_eq!(dao.get_total_voting_power(), "1601000000000000000000000");
    assert_eq!(dao.get_active_members(), vec![who(0), who(1), who(2)]);
    assert_eq!(dao.join_dao(who(1), MIN_POWER, T0), Err(DaoError::AlreadyMember));
    assert_eq!(dao.join_dao(who(3), MIN_POWER - 1, T0), Err(DaoError::InsufficientVotingPower));
    assert_eq!(dao.join_dao(who(3), u128::MAX, T0), Err(DaoError::ArithmeticOverflow));
    assert_eq!(dao.get_total_voting_power(), "1601000000000000000000000");
    assert!(dao.get_member(who(3)).is_none());
}

#[test]
fn treasury_takes_funds() {
    let mut dao = organisation();
    dao.add_to_treasury(7).unwrap();
    dao.add_to_treasury(u128::MAX - 7).unwrap();
    assert_eq!(dao.add_to_treasury(1), Err(DaoError::ArithmeticOverflow));
    assert_eq!(dao.get_treasury_balance(), "340282366920938463463374607431768211455");
}

#[test]
fn textual_payloads_are_checked() {
    assert!(matches!(proposal_type_from_view(general()), Ok(ProposalType::General { .. })));
    match proposal_type_from_view(spend("bob.near", "1500")) {
        Ok(ProposalType::TreasurySpend { recipient, amount, description }) => {
            assert_eq!(recipient, "bob.near");
            assert_eq!(amount, 1500);
            assert_eq!(description, "pay");
        }
        other => panic!("{:?}", other),
    }
    assert!(matches!(
        proposal_type_from_view(spend("bob.near", "340282366920938463463374607431768211455")),
        Ok(ProposalType::TreasurySpend { amount: u128::MAX, .. })
    ));
    for amount in ["", "x", "-1", "1.5", "340282366920938463463374607431768211456", "1 "] {
        assert_eq!(
            proposal_type_from_view(spend("bob.near", amount)).unwrap_err(),
            DaoError::InvalidAmount
        );
    }
    // The account is looked at before the amount.
    assert_eq!(proposal_type_from_view(spend("B", "x")).unwrap_err(), DaoError::InvalidAccountId);
    assert!(proposal_type_from_view(membership("bob", "remove")).is_ok());
    assert!(proposal_type_from_view(membership("bob", "whatever")).is_ok());
}

#[test]
fn account_names_follow_the_rule_of_the_account_crate() {
    let good = [
        "aa", "a-a", "a-aa", "100", "0o", "com", "near", "bowen", "b-o_w_e-n", "b.owen",
        "bro.wen", "a.ha", "a.b-a.ra", "system", "over.9000", "google.com",
        "illia.cheapaccounts.near", "0o0ooo00oo00o", "alex-skidanov", "10-4.8-2",
        "b-o_w_e-n", "no_lols", "0123456789012345678901234567890123456789012345678901234567890123",
        "near.a",
    ];
    let bad = [
        "", "a", "A", "Abc", "-near", "near-", "-near-", "near.", ".near", "near@", "@near",
        "неар", "@@@@@", "0__0", "0_-_0", "0_-_0", "..", "a..near", "nEar", "_bowen", "hello world",
        "abcdefghijklmnopqrstuvwxyz.abcdefghijklmnopqrstuvwxyz.abcdefghijklmnopqrstuvwxyz",
        "01234567890123456789012345678901234567890123456789012345678901234",
        "some-complex-address@gmail.com", "sub.buy_d1gitz@atata@b0-rg.c_0_m",
    ];
    for name in good {
        assert!(proposal_type_from_view(membership(name, "add")).is_ok(), "{}", name);
        assert!(proposal_type_from_view(spend(name, "1")).is_ok(), "{}", name);
    }
    for name in bad {
        assert_eq!(
            proposal_type_from_view(membership(name, "add")).unwrap_err(),
            DaoError::InvalidAccountId,
            "{}",
            name
        );
        assert_eq!(
            proposal_type_from_view(spend(name, "1")).unwrap_err(),
            DaoError::InvalidAccountId,
            "{}",
            name
        );
    }
}

#[test]
fn create_proposal_numbers_from_one_and_keeps_the_deposit() {
    let mut dao = organisation();
    let id = dao.create_proposal(who(1), DEPOSIT + 5, spend("danny", "12"), "why".to_string(), 1_000).unwrap();
    assert_eq!(id, "1");
    assert_eq!(dao.create_proposal(who(0), DEPOSIT, general(), "x".to_string(), 2_000).unwrap(), "2");
    assert_eq!(dao.get_total_proposals(), "2");
    assert_eq!(dao.get_proposal_deposit(1), Some(DEPOSIT + 5));
    assert_eq!(dao.get_proposal_deposit(2), Some(DEPOSIT));
    assert_eq!(dao.get_proposal_deposit(3), None);
    let p = dao.get_proposal(1).unwrap();
    assert_eq!(p.id, "1");
    assert_eq!(p.proposer, "bob");
    assert_eq!(p.description, "why");
    assert_eq!(p.votes_for, "0");
    assert_eq!(p.votes_against, "0");
    assert_eq!(p.status, ProposalStatusView::InProgress);
    assert_eq!(p.created_at, "1000");
    assert_eq!(p.voting_period_end, (1_000 + VOTING).to_string());
    assert_eq!(p.execution_period_end, (1_000 + VOTING + EXECUTION).to_string());
    assert!(p.voters.is_empty());
    match p.proposal_type {
        ProposalTypeView::TreasurySpend { recipient, amount, description } => {
            assert_eq!((recipient.as_str(), amount.as_str(), description.as_str()), ("danny", "12", "pay"));
        }
        other => panic!("{:?}", other),
    }
    assert!(dao.get_proposal(0).is_none());
    assert!(dao.get_proposal(3).is_none());
}

#[test]
fn organisation_create_proposal_errors() {
    let mut dao = organisation();
    let attempt = |dao: &mut DAO, i: usize, deposit: u128, payload: ProposalTypeView, now: u64| {
        dao.create_proposal(who(i), deposit, payload, "d".to_string(), now).unwrap_err()
    };
    assert_eq!(attempt(&mut dao, 4, DEPOSIT, general(), T0), DaoError::NotAMember);
    assert_eq!(attempt(&mut dao, 0, DEPOSIT - 1, general(), T0), DaoError::InsufficientDeposit);
    assert_eq!(attempt(&mut dao, 0, DEPOSIT - 1, spend("X", "1"), T0), DaoError::InsufficientDeposit);
    assert_eq!(attempt(&mut dao, 0, DEPOSIT, spend("X", "1"), T0), DaoError::InvalidAccountId);
    assert_eq!(attempt(&mut dao, 0, DEPOSIT, spend("xx", "one"), T0), DaoError::InvalidAmount);
    assert_eq!(attempt(&mut dao, 0, DEPOSIT, membership("x", "add"), T0), DaoError::InvalidAccountId);
    assert_eq!(attempt(&mut dao, 0, DEPOSIT, general(), u64::MAX - VOTING), DaoError::ArithmeticOverflow);
    assert_eq!(
        attempt(&mut dao, 0, DEPOSIT, general(), u64::MAX - VOTING - EXECUTION + 1),
        DaoError::ArithmeticOverflow
    );
    assert_eq!(dao.get_total_proposals(), "0");
    assert!(dao.create_proposal(who(0), DEPOSIT, general(), "d".into(), u64::MAX - VOTING - EXECUTION).is_ok());
    // One who was removed is a member still, but not active.
    let id = approved(&mut dao, membership("charlie", "remove"));
    dao.execute_proposal(id, T0 + VOTING).unwrap();
    assert_eq!(attempt(&mut dao, 2, DEPOSIT, general(), T0), DaoError::MemberNotActive);
}

#[test]
fn votes_count_the_power_of_the_voter_once() {
    let mut dao = organisation();
    let id: u128 = dao.create_proposal(who(0), DEPOSIT, general(), "d".into(), T0).unwrap().parse().unwrap();
    dao.vote(who(1), id, true, T0).unwrap();
    dao.vote(who(2), id, false, T0 + VOTING - 1).unwrap();
    let p = dao.get_proposal(id).unwrap();
    assert_eq!(p.votes_for, "600000000000000000000000");
    assert_eq!(p.votes_against, "1000000000000000000000");
    let voters: Vec<(String, bool)> = p.voters.into_iter().map(|v| (v.voter, v.support)).collect();
    assert_eq!(voters, vec![(who(1), true), (who(2), false)]);

    assert_eq!(dao.vote(who(1), id, false, T0), Err(DaoError::AlreadyVoted));
    assert_eq!(dao.vote(who(4), id, true, T0), Err(DaoError::NotAMember));
    assert_eq!(dao.vote(who(4), 9, true, T0), Err(DaoError::NotAMember));
    assert_eq!(dao.vote(who(0), 9, true, T0), Err(DaoError::ProposalNotFound));
    assert_eq!(dao.vote(who(0), 0, true, T0), Err(DaoError::ProposalNotFound));
    assert_eq!(dao.vote(who(0), id, true, T0 + VOTING), Err(DaoError::VotingEnded));
    assert_eq!(dao.get_proposal(id).unwrap().votes_for, "600000000000000000000000");
}

#[test]
fn vote_on_a_decided_proposal_is_refused() {
    let mut dao = organisation();
    let mut config_now = T0;
    let first: u128 = dao.create_proposal(who(0), DEPOSIT, general(), "d".into(), config_now).unwrap().parse().unwrap();
    config_now += 10;
    let second: u128 = dao.create_proposal(who(0), DEPOSIT, general(), "d".into(), config_now).unwrap().parse().unwrap();
    // At the end of the first window the second is still open; nothing is decided yet.
    assert_eq!(dao.vote(who(1), first, true, T0 + VOTING), Err(DaoError::VotingEnded));
    dao.finalize_proposal(first, T0 + VOTING).unwrap();
    assert_eq!(dao.vote(who(1), first, true, T0 + VOTING), Err(DaoError::VotingEnded));
    assert_eq!(dao.vote(who(1), second, true, T0 + VOTING), Ok(()));
}

#[test]
fn finalize_applies_quorum_and_approval() {
    // total power 1601 * 10^21: the quorum of 10% is 1601 * 10^20 votes.
    let cases: [(&[(usize, bool)], ProposalStatusView); 6] = [
        (&[], ProposalStatusView::Rejected),
        (&[(2, true)], ProposalStatusView::Rejected),
        (&[(1, true)], ProposalStatusView::Approved),
        (&[(1, false)], ProposalStatusView::Rejected),
        (&[(0, true), (1, false)], ProposalStatusView::Approved),
        (&[(0, false), (1, true)], ProposalStatusView::Rejected),
    ];
    for (votes, expected) in cases {
        let mut dao = organisation();
        let id: u128 = dao.create_proposal(who(0), DEPOSIT, general(), "d".into(), T0).unwrap().parse().unwrap();
        for (voter, support) in votes {
            dao.vote(who(*voter), id, *support, T0).unwrap();
        }
        assert_eq!(dao.finalize_proposal(id, T0 + VOTING - 1), Err(DaoError::VotingNotEnded));
        dao.finalize_proposal(id, T0 + VOTING).unwrap();
        assert_eq!(dao.get_proposal(id).unwrap().status, expected);
        assert_eq!(dao.finalize_proposal(id, T0 + VOTING), Err(DaoError::AlreadyFinalized));
    }
    let mut dao = organisation();
    assert_eq!(dao.finalize_proposal(1, T0), Err(DaoError::ProposalNotFound));
}

#[test]
fn approval_at_exactly_half() {
    let mut dao = DAO::new(who(0), T0);
    dao.join_dao(who(1), OWNER_VOTING_POWER, T0).unwrap();
    let id: u128 = dao.create_proposal(who(0), DEPOSIT, general(), "d".into(), T0).unwrap().parse().unwrap();
    dao.vote(who(0), id, true, T0).unwrap();
    dao.vote(who(1), id, false, T0).unwrap();
    dao.finalize_proposal(id, T0 + VOTING).unwrap();
    assert_eq!(dao.get_proposal(id).unwrap().status, ProposalStatusView::Approved);
}

#[test]
fn execute_spends_from_the_treasury() {
    let mut dao = organisation();
    dao.add_to_treasury(1_000).unwrap();
    let id = approved(&mut dao, spend("danny.near", "400"));
    assert_eq!(
        dao.execute_proposal(id, T0 + VOTING + EXECUTION + 1).unwrap_err(),
        DaoError::ExecutionExpired
    );
    let payment = dao.execute_proposal(id, T0 + VOTING + EXECUTION).unwrap().unwrap();
    assert_eq!(payment.recipient, "danny.near");
    assert_eq!(payment.amount, 400);
    assert_eq!(dao.get_treasury_balance(), "600");
    // The proposal stays approved and can be executed again.
    assert_eq!(dao.get_proposal(id).unwrap().status, ProposalStatusView::Approved);
    dao.execute_proposal(id, T0 + VOTING).unwrap();
    assert_eq!(dao.get_treasury_balance(), "200");
    assert_eq!(dao.execute_proposal(id, T0 + VOTING).unwrap_err(), DaoError::InsufficientTreasury);
    assert_eq!(dao.get_treasury_balance(), "200");
}

#[test]
fn execute_errors() {
    let mut dao = organisation();
    assert_eq!(dao.execute_proposal(1, T0).unwrap_err(), DaoError::ProposalNotFound);
    let id: u128 = dao.create_proposal(who(0), DEPOSIT, general(), "d".into(), T0).unwrap().parse().unwrap();
    assert_eq!(dao.execute_proposal(id, T0).unwrap_err(), DaoError::NotApproved);
    dao.finalize_proposal(id, T0 + VOTING).unwrap();
    assert_eq!(dao.get_proposal(id).unwrap().status, ProposalStatusView::Rejected);
    assert_eq!(dao.execute_proposal(id, T0).unwrap_err(), DaoError::NotApproved);
    let other = approved(&mut dao, general());
    assert!(dao.execute_proposal(other, T0).unwrap().is_none());
}

#[test]
fn execute_removes_a_member_from_the_active() {
    let mut dao = organisation();
    let id = approved(&mut dao, membership("alice", "remove"));
    assert!(dao.execute_proposal(id, T0 + VOTING).unwrap().is_none());
    assert!(!dao.get_member(who(0)).unwrap().is_active);
    // The last active member takes the place of the one removed.
    assert_eq!(dao.get_active_members(), vec![who(2), who(1)]);
    assert_eq!(dao.get_total_voting_power(), "601000000000000000000000");
    // A second execution takes the power out again.
    dao.execute_proposal(id, T0 + VOTING).unwrap_err();
    assert_eq!(dao.get_total_voting_power(), "601000000000000000000000");
    assert_eq!(dao.vote(who(0), id, true, T0), Err(DaoError::MemberNotActive));
}

#[test]
fn execute_of_other_membership_changes_does_nothing() {
    let mut dao = organisation();
    let add = approved(&mut dao, membership("eugene", "add"));
    assert!(dao.execute_proposal(add, T0 + VOTING).unwrap().is_none());
    assert!(dao.get_member(who(4)).is_none());
    let absent = approved(&mut dao, membership("eugene", "remove"));
    assert!(dao.execute_proposal(absent, T0 + VOTING).unwrap().is_none());
    assert_eq!(dao.get_total_voting_power(), "1601000000000000000000000");
    assert_eq!(dao.get_active_members().len(), 3);
}

#[test]
fn proposals_come_in_pages_of_ten() {
    let mut dao = organisation();
    for _ in 0..12 {
        dao.create_proposal(who(0), DEPOSIT, general(), "d".into(), T0).unwrap();
    }
    let ids = |dao: &DAO, from: Option<u128>, limit: Option<u64>| -> Vec<String> {
        dao.get_proposals(from, limit).into_iter().map(|p| p.id).collect()
    };
    assert_eq!(ids(&dao, None, None).len(), 10);
    assert_eq!(ids(&dao, Some(10), None), vec!["11", "12"]);
    assert_eq!(ids(&dao, Some(3), Some(2)), vec!["4", "5"]);
    assert_eq!(ids(&dao, Some(12), None), Vec::<String>::new());
    assert_eq!(ids(&dao, None, Some(0)), Vec::<String>::new());
    assert_eq!(ids(&dao, Some(u128::MAX), Some(u64::MAX)), Vec::<String>::new());
}

#[test]
fn organisation_reasons_are_short_texts() {
    assert_eq!(DaoError::AlreadyMember.message(), "Already a member");
    assert_eq!(DaoError::InvalidAccountId.message(), "Invalid account ID");
    assert_eq!(DaoError::InvalidAmount.message(), "Invalid amount");
    assert_eq!(DaoError::InsufficientTreasury.message(), "Insufficient treasury balance");
    assert_eq!(DaoError::ExecutionExpired.message(), "Execution period expired");
}

#[test]
fn an_organisation_state_that_is_not_one_is_refused() {
    let fresh = || {
        let mut dao = organisation();
        let id = approved(&mut dao, spend("danny.near", "4"));
        assert_eq!(id, 1);
        dao.into_snapshot()
    };
    let s = fresh();
    assert!(s.is_well_formed());
    assert_eq!(s.proposal_deposits, vec![DEPOSIT]);
    let back = DAO::from_snapshot(s).unwrap();
    assert_eq!(back.get_total_proposals(), "1");
    let mut s = fresh();
    s.proposals[0].id = 2;
    assert!(DAO::from_snapshot(s).is_none());
    let mut s = fresh();
    s.proposal_deposits.clear();
    assert!(DAO::from_snapshot(s).is_none());
    let mut s = fresh();
    s.total_proposals = 0;
    assert!(DAO::from_snapshot(s).is_none());
    let mut s = fresh();
    s.proposals[0].proposal_type = ProposalType::TreasurySpend {
        recipient: "Danny".to_string(),
        amount: 4,
        description: "pay".to_string(),
    };
    assert!(DAO::from_snapshot(s).is_none());
    let mut s = fresh();
    s.members[1].is_active = false;
    assert!(DAO::from_snapshot(s).is_none());
    let mut s = fresh();
    s.active_members.pop();
    assert!(DAO::from_snapshot(s).is_none());
    let mut s = fresh();
    s.active_members.push(who(5));
    assert!(DAO::from_snapshot(s).is_none());
    let mut s = fresh();
    s.members[2].account_id = who(0);
    assert!(DAO::from_snapshot(s).is_none());
}
