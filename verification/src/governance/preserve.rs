//! Why the calls keep the engine well formed: lemmas on tallies and on the
//! pieces that the next states are made of.

use crate::keyed::{
    lemma_position, lemma_position_in_range, lemma_push_fresh, lemma_swap_removed, position,
    swap_removed,
};
use crate::governance::model::{
    contribution_ids, contribution_key, credited, delegators, fund_of_token, member_ids, tally,
    turnout, voters, weight, with_vote, DaoModel, APPROVAL_REPUTATION,
};
use crate::governance::types::{
    ContributionModel, ContributionStatus, MemberModel, ProposalModel, ProposalStatus,
    ProposalTypeModel, TreasuryFund, VoteModel, VoteType,
};
use crate::text::{decimal_text, lemma_decimal_text_injective};
use crate::ledger::{amount_of, names};
use vstd::prelude::*;

verus! {

/// A vote appended to a ballot adds its weight to each tally.
pub proof fn lemma_tally_push(votes: Seq<VoteModel>, v: VoteModel, side: VoteType)
    ensures
        tally(votes.push(v), side) == tally(votes, side) + weight(v, side),
{
    assert(votes.push(v).drop_last() =~= votes);
}

/// A vote that replaces another takes the weight of the other out of each tally
/// and adds its own; no vote weighs more than its tally.
pub proof fn lemma_tally_update(votes: Seq<VoteModel>, k: int, v: VoteModel, side: VoteType)
    requires
        0 <= k < votes.len(),
    ensures
        weight(votes[k], side) <= tally(votes, side),
        tally(votes.update(k, v), side) == tally(votes, side) - weight(votes[k], side) + weight(v, side),
    decreases votes.len(),
{
    if k == votes.len() - 1 {
        assert(votes.update(k, v).drop_last() =~= votes.drop_last());
    } else {
        lemma_tally_update(votes.drop_last(), k, v, side);
        assert(votes.update(k, v).drop_last() =~= votes.drop_last().update(k, v));
    }
}

/// The tally of the first votes of a ballot is no more than that of the ballot.
pub proof fn lemma_tally_prefix(votes: Seq<VoteModel>, k: int, side: VoteType)
    requires
        0 <= k <= votes.len(),
    ensures
        tally(votes.subrange(0, k), side) <= tally(votes, side),
    decreases votes.len() - k,
{
    if k == votes.len() {
        assert(votes.subrange(0, k) =~= votes);
    } else {
        lemma_tally_prefix(votes, k + 1, side);
        assert(votes.subrange(0, k + 1).drop_last() =~= votes.subrange(0, k));
    }
}

/// The tallies of a ballot with one more vote in it, from those of the ballot:
/// the weight of the voter's earlier vote, if there was one, leaves its tally,
/// and the weight of the new vote comes to its own.
pub proof fn lemma_tally_with_vote(votes: Seq<VoteModel>, v: VoteModel, side: VoteType)
    requires
        voters(votes).no_duplicates(),
    ensures
        voters(votes).contains(v.voter) ==> {
            let k = position(voters(votes), v.voter);
            &&& 0 <= k < votes.len()
            &&& votes[k].voter == v.voter
            &&& weight(votes[k], side) <= tally(votes, side)
            &&& tally(with_vote(votes, v), side) == tally(votes, side) - weight(votes[k], side) + weight(
                v,
                side,
            )
        },
        !voters(votes).contains(v.voter) ==> tally(with_vote(votes, v), side) == tally(votes, side)
            + weight(v, side),
        voters(with_vote(votes, v)).no_duplicates(),
        voters(with_vote(votes, v)).contains(v.voter),
{
    if voters(votes).contains(v.voter) {
        lemma_position_in_range(voters(votes), v.voter);
        let k = position(voters(votes), v.voter);
        lemma_tally_update(votes, k, v, side);
        assert(voters(votes.update(k, v)) =~= voters(votes));
    } else {
        lemma_tally_push(votes, v, side);
        lemma_push_fresh(voters(votes), v.voter);
        assert(voters(votes.push(v)) =~= voters(votes).push(v.voter));
        assert(voters(votes.push(v))[votes.len() as int] == v.voter);
    }
}

/// A change that leaves proposals, ballots, members, council, delegations,
/// contributions, roles and the names in the treasury alone, and the voting
/// period positive, keeps the engine well formed.
pub proof fn lemma_same_tables_wf(s: DaoModel, t: DaoModel)
    requires
        s.wf(),
        t.proposals == s.proposals,
        t.ballots == s.ballots,
        t.members == s.members,
        t.council == s.council,
        t.delegations == s.delegations,
        t.contributions == s.contributions,
        t.roles == s.roles,
        t.proposal_counter == s.proposal_counter,
        t.contribution_counter == s.contribution_counter,
        t.governance_config.voting_period > 0,
        names(t.treasury.spending_categories).no_duplicates(),
        t.treasury.other_tokens == s.treasury.other_tokens,
    ensures
        t.wf(),
{
    assert forall|i: int| 0 <= i < t.proposals.len() implies #[trigger] t.proposal_ok(i) by {
        assert(s.proposal_ok(i));
    }
}

/// A proposal may be replaced by one with the same identifier, window and
/// tallies: the engine stays well formed.
pub proof fn lemma_with_proposal_wf(s: DaoModel, id: u64, p: ProposalModel)
    requires
        s.wf(),
        s.has_proposal(id),
        p.id == id,
        p.voting_starts_at < p.voting_ends_at,
        p.votes_for == s.proposal(id).votes_for,
        p.votes_against == s.proposal(id).votes_against,
        p.votes_abstain == s.proposal(id).votes_abstain,
        p.total_votes == s.proposal(id).total_votes,
    ensures
        s.with_proposal(id, p).wf(),
{
    let t = s.with_proposal(id, p);
    assert forall|i: int| 0 <= i < t.proposals.len() implies #[trigger] t.proposal_ok(i) by {
        assert(s.proposal_ok(i));
    }
}

/// The record of a member may be replaced by one of the same account that does
/// not delegate to itself: the engine stays well formed, with the same members.
pub proof fn lemma_with_member_wf(s: DaoModel, who: Seq<char>, m: MemberModel)
    requires
        s.wf(),
        s.is_member(who),
        m.account_id == who,
        m.delegated_to != Some(who),
    ensures
        s.with_member(who, m).wf(),
        member_ids(s.with_member(who, m).members) == member_ids(s.members),
{
    let t = s.with_member(who, m);
    lemma_position_in_range(member_ids(s.members), who);
    assert(member_ids(t.members) =~= member_ids(s.members));
    assert forall|i: int| 0 <= i < t.proposals.len() implies #[trigger] t.proposal_ok(i) by {
        assert(s.proposal_ok(i));
    }
}

/// Seeing a member active keeps the engine well formed, with the same members.
pub proof fn lemma_touched_wf(s: DaoModel, who: Seq<char>, now: u64)
    requires
        s.wf(),
    ensures
        s.touched(who, now).wf(),
        member_ids(s.touched(who, now).members) == member_ids(s.members),
{
    if s.is_member(who) {
        lemma_position_in_range(member_ids(s.members), who);
        lemma_with_member_wf(s, who, MemberModel { last_active: now, ..s.member(who) });
    }
}

/// A new proposal with no votes and a window that does not end before it starts
/// keeps the engine well formed.
pub proof fn lemma_create_wf(s: DaoModel, p: ProposalModel)
    requires
        s.wf(),
        s.proposal_counter < u64::MAX,
        p.id == s.proposal_counter + 1,
        p.voting_starts_at < p.voting_ends_at,
        p.votes_for == 0,
        p.votes_against == 0,
        p.votes_abstain == 0,
        p.total_votes == 0,
    ensures
        s.create_proposal_next(p).wf(),
{
    let t = s.create_proposal_next(p);
    assert forall|i: int| 0 <= i < t.proposals.len() implies #[trigger] t.proposal_ok(i) by {
        if i < s.proposals.len() {
            assert(s.proposal_ok(i));
        } else {
            assert(t.ballots[i] =~= Seq::<VoteModel>::empty());
            assert(voters(t.ballots[i]) =~= Seq::<Seq<char>>::empty());
        }
    }
}

/// A vote on an existing proposal, with the proposal's identifier and a turnout
/// in range, keeps the engine well formed.
pub proof fn lemma_vote_wf(s: DaoModel, id: u64, vote: VoteModel, now: u64)
    requires
        s.wf(),
        s.has_proposal(id),
        vote.proposal_id == id,
        turnout(with_vote(s.ballot(id), vote)) <= u128::MAX,
    ensures
        s.vote_recorded(id, vote).wf(),
        s.vote_next(id, vote, now).wf(),
{
    let b0 = s.ballot(id);
    let b = with_vote(b0, vote);
    assert(s.proposal_ok(id - 1));
    lemma_tally_with_vote(b0, vote, VoteType::For);
    let mid = s.vote_recorded(id, vote);
    assert forall|k: int| 0 <= k < b.len() implies (#[trigger] b[k]).proposal_id == id by {
        if voters(b0).contains(vote.voter) {
            lemma_position_in_range(voters(b0), vote.voter);
            let at = position(voters(b0), vote.voter);
            if k != at {
                assert(b[k] == b0[k]);
            }
        } else {
            if k < b0.len() {
                assert(b[k] == b0[k]);
            }
        }
    }
    assert forall|i: int| 0 <= i < mid.proposals.len() implies #[trigger] mid.proposal_ok(i) by {
        assert(s.proposal_ok(i));
    }
    assert(mid.wf());
    lemma_touched_wf(mid, vote.voter, now);
}

/// Adding an amount under a name keeps the names free of duplicates; the amount
/// under the name grows by it, and no other amount changes.
pub proof fn lemma_credited(s: Seq<(Seq<char>, u128)>, name: Seq<char>, amount: u128)
    requires
        names(s).no_duplicates(),
        amount_of(s, name) + amount <= u128::MAX,
    ensures
        names(credited(s, name, amount)).no_duplicates(),
        names(credited(s, name, amount)).contains(name),
        amount_of(credited(s, name, amount), name) == amount_of(s, name) + amount,
        forall|other: Seq<char>|
            other != name ==> amount_of(credited(s, name, amount), other) == amount_of(s, other),
{
    let t = credited(s, name, amount);
    if names(s).contains(name) {
        lemma_position_in_range(names(s), name);
        let i = position(names(s), name);
        assert(names(t) =~= names(s));
        assert(t[i].1 == amount_of(s, name) + amount);
        assert forall|other: Seq<char>| other != name implies amount_of(t, other) == amount_of(
            s,
            other,
        ) by {
            if names(s).contains(other) {
                lemma_position_in_range(names(s), other);
                assert(position(names(s), other) != i);
            }
        }
    } else {
        lemma_push_fresh(names(s), name);
        assert(names(t) =~= names(s).push(name));
        assert(names(t)[s.len() as int] == name);
        lemma_position(names(t), name, s.len() as int);
        assert forall|other: Seq<char>| other != name implies amount_of(t, other) == amount_of(
            s,
            other,
        ) by {
            if names(s).contains(other) {
                lemma_position_in_range(names(s), other);
                let j = position(names(s), other);
                assert(names(t)[j] == other);
                lemma_position(names(t), other, j);
            } else {
                if names(t).contains(other) {
                    lemma_position_in_range(names(t), other);
                    let j = position(names(t), other);
                    assert(j < s.len());
                    assert(names(s)[j] == other);
                }
            }
        }
    }
}

/// Taking in one who is no member keeps the engine well formed.
pub proof fn lemma_new_member_wf(s: DaoModel, who: Seq<char>, roles: Seq<Seq<char>>, now: u64)
    requires
        s.wf(),
        !s.is_member(who),
    ensures
        s.with_new_member(who, roles, now).wf(),
        s.with_new_member(who, roles, now).is_member(who),
{
    let t = s.with_new_member(who, roles, now);
    assert(member_ids(t.members) =~= member_ids(s.members).push(who));
    assert(member_ids(t.members)[s.members.len() as int] == who);
    lemma_push_fresh(member_ids(s.members), who);
    assert forall|i: int| 0 <= i < t.proposals.len() implies #[trigger] t.proposal_ok(i) by {
        assert(s.proposal_ok(i));
    }
}

/// Removing a member keeps the engine well formed, and the one removed is a
/// member no more.
pub proof fn lemma_without_member_wf(s: DaoModel, who: Seq<char>)
    requires
        s.wf(),
        s.is_member(who),
    ensures
        s.without_member(who).wf(),
        !s.without_member(who).is_member(who),
        forall|other: Seq<char>| other != who ==> (s.without_member(who).is_member(other) <==> s.is_member(other)),
{
    let t = s.without_member(who);
    lemma_position_in_range(member_ids(s.members), who);
    let i = position(member_ids(s.members), who);
    lemma_swap_removed(member_ids(s.members), i);
    assert(member_ids(t.members) =~= swap_removed(member_ids(s.members), i));
    assert forall|k: int| 0 <= k < t.members.len() implies (#[trigger] t.members[k]).delegated_to != Some(
        t.members[k].account_id,
    ) by {
        let from = if k == i {
            s.members.len() - 1
        } else {
            k
        };
        assert(t.members[k] == s.members[from]);
    }
    assert forall|k: int| 0 <= k < t.proposals.len() implies #[trigger] t.proposal_ok(k) by {
        assert(s.proposal_ok(k));
    }
}

/// The payload of a proposal keeps the engine well formed and leaves the
/// proposals and their ballots alone; one that does not take effect changes
/// nothing.
pub proof fn lemma_payload_effect_wf(s: DaoModel, payload: ProposalTypeModel, now: u64)
    requires
        s.wf(),
    ensures
        s.payload_effect(payload, now).state.wf(),
        s.payload_effect(payload, now).state.proposals == s.proposals,
        s.payload_effect(payload, now).state.ballots == s.ballots,
        !s.payload_effect(payload, now).success ==> s.payload_effect(payload, now).state == s,
        !s.payload_effect(payload, now).success ==> s.payload_effect(payload, now).transfer is None,
        s.payload_effect(payload, now).overflow ==> !s.payload_effect(payload, now).success,
{
    match payload {
        ProposalTypeModel::Treasury { recipient, amount, token, purpose } => {
            match fund_of_token(token) {
                Some(fund) => lemma_spend_effect_wf(s, fund, recipient, amount, purpose),
                None => {},
            }
        },
        ProposalTypeModel::Governance { parameter, new_value } => {
            lemma_same_tables_wf(s, s.governance_effect(parameter, new_value).state);
        },
        ProposalTypeModel::Membership { action, member, role } => {
            if action == "add"@ {
                if !s.is_member(member) {
                    lemma_new_member_wf(s, member, seq![role], now);
                }
            } else if action == "remove"@ {
                if s.is_member(member) {
                    lemma_without_member_wf(s, member);
                }
            }
        },
        ProposalTypeModel::Grant { recipient, amount, milestones, category } => {
            lemma_spend_effect_wf(s, TreasuryFund::Voice, recipient, amount, category);
        },
        _ => {},
    }
}

/// A spend keeps the engine well formed and leaves all but the treasury alone.
pub proof fn lemma_spend_effect_wf(
    s: DaoModel,
    fund: TreasuryFund,
    recipient: Seq<char>,
    amount: u128,
    category: Seq<char>,
)
    requires
        s.wf(),
    ensures
        s.spend_effect(fund, recipient, amount, category).state.wf(),
        s.spend_effect(fund, recipient, amount, category).state.proposals == s.proposals,
        s.spend_effect(fund, recipient, amount, category).state.ballots == s.ballots,
        !s.spend_effect(fund, recipient, amount, category).success ==> s.spend_effect(
            fund,
            recipient,
            amount,
            category,
        ).state == s,
{
    let e = s.spend_effect(fund, recipient, amount, category);
    if e.success {
        lemma_credited(s.treasury.spending_categories, category, amount);
        lemma_same_tables_wf(s, e.state);
    }
}

/// The execution of a queued proposal keeps the engine well formed.
pub proof fn lemma_execute_wf(s: DaoModel, id: u64, now: u64)
    requires
        s.wf(),
        s.has_proposal(id),
    ensures
        s.execute_next(id, now).wf(),
{
    let e = s.payload_effect(s.proposal(id).proposal_type, now);
    lemma_payload_effect_wf(s, s.proposal(id).proposal_type, now);
    if e.success {
        assert(s.proposal_ok(id - 1));
        lemma_with_proposal_wf(
            e.state,
            id,
            ProposalModel { status: ProposalStatus::Executed, ..s.proposal(id) },
        );
    }
}

/// Replacing a contribution by one with the same identifier keeps the engine
/// well formed.
pub proof fn lemma_same_tables_wf_contributions(s: DaoModel, t: DaoModel)
    requires
        s.wf(),
        t == (DaoModel { contributions: t.contributions, ..s }),
        t.contributions.len() == s.contributions.len(),
        forall|i: int|
            0 <= i < t.contributions.len() ==> (#[trigger] t.contributions[i]).id == s.contributions[i].id,
    ensures
        t.wf(),
{
    assert forall|i: int| 0 <= i < t.proposals.len() implies #[trigger] t.proposal_ok(i) by {
        assert(s.proposal_ok(i));
    }
    assert forall|i: int| 0 <= i < t.contributions.len() implies (#[trigger] t.contributions[i]).id
        == contribution_key((i + 1) as nat) by {
        assert(s.contributions[i].id == contribution_key((i + 1) as nat));
    }
}

/// Contributions with different numbers have different identifiers.
pub proof fn lemma_contribution_key_injective(a: nat, b: nat)
    requires
        contribution_key(a) == contribution_key(b),
    ensures
        a == b,
{
    let prefix = "contribution-"@;
    let ka = contribution_key(a);
    let kb = contribution_key(b);
    assert(ka.subrange(prefix.len() as int, ka.len() as int) =~= decimal_text(a));
    assert(kb.subrange(prefix.len() as int, kb.len() as int) =~= decimal_text(b));
    lemma_decimal_text_injective(a, b);
}

/// No two contributions of a well-formed engine share an identifier.
pub proof fn lemma_contribution_ids_distinct(s: DaoModel)
    requires
        s.wf(),
    ensures
        contribution_ids(s.contributions).no_duplicates(),
{
    let ids = contribution_ids(s.contributions);
    assert forall|i: int, j: int| 0 <= i < ids.len() && 0 <= j < ids.len() && i != j implies ids[i]
        != ids[j] by {
        assert(ids[i] == s.contributions[i].id);
        assert(ids[j] == s.contributions[j].id);
        if ids[i] == ids[j] {
            lemma_contribution_key_injective((i + 1) as nat, (j + 1) as nat);
        }
    }
}

/// A contribution with the next identifier, counted for its contributor, keeps
/// the engine well formed.
pub proof fn lemma_submit_wf(s: DaoModel, c: ContributionModel)
    requires
        s.wf(),
        s.submit_error(c.contributor) is None,
        c.id == contribution_key((s.contribution_counter + 1) as nat),
    ensures
        s.submit_next(c).wf(),
{
    let t = s.submit_next(c);
    if s.is_member(c.contributor) {
        lemma_position_in_range(member_ids(s.members), c.contributor);
        let m = MemberModel {
            contributions: (s.member(c.contributor).contributions + 1) as u64,
            ..s.member(c.contributor)
        };
        lemma_with_member_wf(s, c.contributor, m);
    }
    assert forall|i: int| 0 <= i < t.proposals.len() implies #[trigger] t.proposal_ok(i) by {
        assert(s.proposal_ok(i));
    }
    assert forall|i: int| 0 <= i < t.contributions.len() implies (#[trigger] t.contributions[i]).id
        == contribution_key((i + 1) as nat) by {
        if i < s.contributions.len() {
            assert(t.contributions[i] == s.contributions[i]);
        }
    }
}

/// The review of a contribution keeps the engine well formed.
pub proof fn lemma_review_wf(
    s: DaoModel,
    reviewer: Seq<char>,
    id: Seq<char>,
    approved: bool,
    reward_amount: u128,
    now: u64,
)
    requires
        s.wf(),
        s.has_contribution(id),
    ensures
        s.review_next(reviewer, id, approved, reward_amount, now).wf(),
{
    let t = s.review_next(reviewer, id, approved, reward_amount, now);
    let c = s.contribution(id);
    lemma_position_in_range(contribution_ids(s.contributions), id);
    let at = position(contribution_ids(s.contributions), id);
    let reviewed = ContributionModel {
        status: if approved {
            ContributionStatus::Approved
        } else {
            ContributionStatus::Rejected
        },
        reward_amount,
        reviewed_at: Some(now),
        reviewer: Some(reviewer),
        ..c
    };
    let recorded = DaoModel { contributions: s.contributions.update(at, reviewed), ..s };
    assert forall|i: int| 0 <= i < recorded.contributions.len() implies (
    #[trigger] recorded.contributions[i]).id == contribution_key((i + 1) as nat) by {
        assert(s.contributions[i].id == contribution_key((i + 1) as nat));
    }
    assert forall|i: int| 0 <= i < recorded.proposals.len() implies #[trigger] recorded.proposal_ok(
        i,
    ) by {
        assert(s.proposal_ok(i));
    }
    assert(recorded.wf());
    let reputed = if approved && s.is_member(c.contributor) {
        recorded.with_member(
            c.contributor,
            MemberModel {
                reputation: (s.member(c.contributor).reputation + APPROVAL_REPUTATION) as u32,
                ..s.member(c.contributor)
            },
        )
    } else {
        recorded
    };
    if approved && s.is_member(c.contributor) {
        lemma_position_in_range(member_ids(s.members), c.contributor);
        lemma_with_member_wf(
            recorded,
            c.contributor,
            MemberModel {
                reputation: (s.member(c.contributor).reputation + APPROVAL_REPUTATION) as u32,
                ..s.member(c.contributor)
            },
        );
    }
    assert(reputed.wf());
    lemma_same_tables_wf(reputed, t);
}

/// A delegation from a member to another account keeps the engine well formed.
pub proof fn lemma_delegate_wf(s: DaoModel, delegator: Seq<char>, delegate: Seq<char>)
    requires
        s.wf(),
        delegator != delegate,
    ensures
        s.delegate_next(delegator, delegate).wf(),
        s.delegate_next(delegator, delegate).delegate_of(delegator) == Some(delegate),
{
    let t = s.delegate_next(delegator, delegate);
    let d = delegators(s.delegations);
    if d.contains(delegator) {
        lemma_position_in_range(d, delegator);
        assert(delegators(t.delegations) =~= d);
    } else {
        lemma_push_fresh(d, delegator);
        assert(delegators(t.delegations) =~= d.push(delegator));
        assert(delegators(t.delegations)[d.len() as int] == delegator);
        lemma_position(delegators(t.delegations), delegator, d.len() as int);
    }
    assert forall|i: int| 0 <= i < t.proposals.len() implies #[trigger] t.proposal_ok(i) by {
        assert(s.proposal_ok(i));
    }
}

/// Taking a delegation back keeps the engine well formed, and the delegator
/// has none left.
pub proof fn lemma_undelegate_wf(s: DaoModel, delegator: Seq<char>)
    requires
        s.wf(),
    ensures
        s.undelegate_next(delegator).wf(),
        s.undelegate_next(delegator).delegate_of(delegator) is None,
{
    let t = s.undelegate_next(delegator);
    let d = delegators(s.delegations);
    if d.contains(delegator) {
        lemma_position_in_range(d, delegator);
        let i = position(d, delegator);
        lemma_swap_removed(d, i);
        assert(delegators(t.delegations) =~= swap_removed(d, i));
        assert forall|k: int| 0 <= k < t.delegations.len() implies (#[trigger] t.delegations[k]).0
            != t.delegations[k].1 by {
            let from = if k == i {
                s.delegations.len() - 1
            } else {
                k
            };
            assert(t.delegations[k] == s.delegations[from]);
        }
    }
    assert forall|i: int| 0 <= i < t.proposals.len() implies #[trigger] t.proposal_ok(i) by {
        assert(s.proposal_ok(i));
    }
}

} // verus!
