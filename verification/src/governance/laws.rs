//! What holds of the engine whatever is asked of it: the laws of the tallies,
//! of the decision, of the timelock and of execution. Each is stated over the
//! model that the contracts of the engine speak of, and holds of every engine
//! that is well formed, which every engine made by `VoiceDAO::new` and changed
//! by its calls is.

use crate::governance::error::{DaoError, ErrorKind};
use crate::keyed::{lemma_position, lemma_position_in_range, position};
use crate::governance::model::{fund_of_token, tally, voters, with_vote, DaoModel};
use crate::governance::preserve::{lemma_payload_effect_wf, lemma_tally_with_vote};
use crate::governance::types::{
    ProposalModel, ProposalStatus, TransferModel, TreasuryFund, VoteModel, VoteType,
};
use vstd::prelude::*;

verus! {

/// The votes for, against and abstaining of a proposal add up to its total, and
/// each is the power of the votes of its side in the ballot.
pub proof fn law_tallies_add_up(s: DaoModel, id: u64)
    requires
        s.wf(),
        s.has_proposal(id),
    ensures
        s.proposal(id).votes_for + s.proposal(id).votes_against + s.proposal(id).votes_abstain
            == s.proposal(id).total_votes,
        s.proposal(id).votes_for == tally(s.ballot(id), VoteType::For),
        s.proposal(id).votes_against == tally(s.ballot(id), VoteType::Against),
        s.proposal(id).votes_abstain == tally(s.ballot(id), VoteType::Abstain),
{
    assert(s.proposal_ok(id - 1));
}

/// The voting window of a proposal ends after it starts.
pub proof fn law_window_ends_after_start(s: DaoModel, id: u64)
    requires
        s.wf(),
        s.has_proposal(id),
    ensures
        s.proposal(id).voting_starts_at < s.proposal(id).voting_ends_at,
{
    assert(s.proposal_ok(id - 1));
}

/// No voter is in the ballot of a proposal twice.
pub proof fn law_one_vote_per_voter(s: DaoModel, id: u64, i: int, j: int)
    requires
        s.wf(),
        s.has_proposal(id),
        0 <= i < s.ballot(id).len(),
        0 <= j < s.ballot(id).len(),
        s.ballot(id)[i].voter == s.ballot(id)[j].voter,
    ensures
        i == j,
{
    assert(s.proposal_ok(id - 1));
    let v = voters(s.ballot(id));
    assert(v[i] == s.ballot(id)[i].voter);
    assert(v[j] == s.ballot(id)[j].voter);
}

/// A ballot that takes two votes of one voter in turn is the ballot that takes
/// the second alone.
pub proof fn law_second_vote_replaces(b: Seq<VoteModel>, first: VoteModel, second: VoteModel)
    requires
        voters(b).no_duplicates(),
        first.voter == second.voter,
    ensures
        with_vote(with_vote(b, first), second) == with_vote(b, second),
{
    let b1 = with_vote(b, first);
    if voters(b).contains(first.voter) {
        lemma_position_in_range(voters(b), first.voter);
        let k = position(voters(b), first.voter);
        assert(voters(b1) =~= voters(b));
        assert(with_vote(b1, second) =~= with_vote(b, second));
    } else {
        assert(voters(b1) =~= voters(b).push(first.voter));
        assert(voters(b1)[b.len() as int] == first.voter);
        lemma_tally_with_vote(b, first, VoteType::For);
        lemma_position(voters(b1), first.voter, b.len() as int);
        assert(with_vote(b1, second) =~= with_vote(b, second));
    }
}

/// Voting again never counts twice: after two votes of one voter on one
/// proposal, the proposal and its ballot are as after the second vote alone.
pub proof fn law_revote_counts_once(
    s: DaoModel,
    id: u64,
    first: VoteModel,
    first_at: u64,
    second: VoteModel,
    second_at: u64,
)
    requires
        s.wf(),
        s.has_proposal(id),
        first.voter == second.voter,
    ensures
        s.vote_next(id, first, first_at).vote_next(id, second, second_at).proposals == s.vote_next(
            id,
            second,
            second_at,
        ).proposals,
        s.vote_next(id, first, first_at).vote_next(id, second, second_at).ballots == s.vote_next(
            id,
            second,
            second_at,
        ).ballots,
{
    assert(s.proposal_ok(id - 1));
    law_second_vote_replaces(s.ballot(id), first, second);
    let s1 = s.vote_next(id, first, first_at);
    assert(s1.proposals == s.vote_recorded(id, first).proposals);
    assert(s1.ballots == s.vote_recorded(id, first).ballots);
    let s2 = s1.vote_next(id, second, second_at);
    let t = s.vote_next(id, second, second_at);
    assert(s2.ballots =~= t.ballots);
    assert(s2.proposals =~= t.proposals);
}

/// A proposal is decided once: after a decision, a further call to decide it
/// fails, with an error of the class `InvalidState`.
pub proof fn law_finalize_once(
    s: DaoModel,
    id: u64,
    now: u64,
    total_power: u128,
    again_at: u64,
    again_power: u128,
)
    requires
        s.wf(),
        s.finalize_error(id, now, total_power) is None,
    ensures
        s.finalize_next(id, now, total_power).finalize_error(id, again_at, again_power) == Some(
            DaoError::ProposalNotActive,
        ),
        DaoError::ProposalNotActive.spec_kind() == ErrorKind::InvalidState,
{
}

/// A proposal that is not active is never active again: no call that succeeds
/// makes it so.
pub proof fn law_decided_stays_decided(s: DaoModel, id: u64)
    requires
        s.wf(),
        s.has_proposal(id),
        s.proposal(id).status != ProposalStatus::Active,
    ensures
        forall|p: ProposalModel| (#[trigger] s.create_proposal_next(p)).proposal(id) == s.proposal(id),
        forall|other: u64, vote: VoteModel, now: u64|
            s.has_proposal(other) ==> (#[trigger] s.vote_next(other, vote, now)).proposal(id).status
                == s.proposal(id).status,
        forall|other: u64, now: u64, total_power: u128|
            s.finalize_error(other, now, total_power) is None ==> (#[trigger] s.finalize_next(
                other,
                now,
                total_power,
            )).proposal(id) == s.proposal(id),
        forall|other: u64|
            s.has_proposal(other) ==> (#[trigger] s.queue_next(other)).proposal(id).status
                != ProposalStatus::Active,
        forall|other: u64, now: u64|
            s.has_proposal(other) && s.proposal(other).status == ProposalStatus::Queued ==> (
            #[trigger] s.execute_next(other, now)).proposal(id).status != ProposalStatus::Active,
{
    assert forall|other: u64, now: u64|
        s.has_proposal(other) && s.proposal(other).status == ProposalStatus::Queued implies (
    #[trigger] s.execute_next(other, now)).proposal(id).status != ProposalStatus::Active by {
        lemma_payload_effect_wf(s, s.proposal(other).proposal_type, now);
    }
}

/// A proposal decided without its quorum is defeated, whatever its approval.
pub proof fn law_no_quorum_defeats(s: DaoModel, id: u64, now: u64, total_power: u128)
    requires
        s.wf(),
        s.finalize_error(id, now, total_power) is None,
        (s.proposal(id).total_votes * 10000) / (total_power as int)
            < s.governance_config.quorum_threshold,
    ensures
        s.finalize_next(id, now, total_power).proposal(id).status == ProposalStatus::Defeated,
{
}

/// A proposal decided with its quorum, with votes for or against, and with
/// enough of them for, has succeeded, and the whole deposit goes back to the
/// proposer; the treasury keeps what it had.
pub proof fn law_quorum_and_approval_succeed(s: DaoModel, id: u64, now: u64, total_power: u128)
    requires
        s.wf(),
        s.finalize_error(id, now, total_power) is None,
        (s.proposal(id).total_votes * 10000) / (total_power as int)
            >= s.governance_config.quorum_threshold,
        s.proposal(id).votes_for + s.proposal(id).votes_against > 0,
        (s.proposal(id).votes_for * 10000) / (s.proposal(id).votes_for + s.proposal(id).votes_against)
            >= s.governance_config.approval_threshold,
    ensures
        s.finalize_next(id, now, total_power).proposal(id).status == ProposalStatus::Succeeded,
        s.finalize_next(id, now, total_power).proposal(id).execution_eta == now
            + s.governance_config.execution_delay,
        s.finalize_refund(id, total_power) == Some(
            TransferModel {
                recipient: s.proposal(id).proposer,
                amount: s.proposal(id).deposit,
                fund: TreasuryFund::Near,
            },
        ),
        s.finalize_next(id, now, total_power).treasury == s.treasury,
{
    assert(s.proposal_ok(id - 1));
}

/// The deposit of a decided proposal goes one way only: that of a defeated
/// proposal is added in full to the native balance of the treasury and nothing
/// is refunded; that of any other is refunded in full and the treasury keeps
/// what it had.
pub proof fn law_deposit_goes_one_way(s: DaoModel, id: u64, now: u64, total_power: u128)
    requires
        s.wf(),
        s.finalize_error(id, now, total_power) is None,
    ensures
        ({
            let after = s.finalize_next(id, now, total_power);
            let refund = s.finalize_refund(id, total_power);
            if after.proposal(id).status == ProposalStatus::Defeated {
                &&& refund is None
                &&& after.treasury.near_balance == s.treasury.near_balance + s.proposal(id).deposit
            } else {
                &&& after.proposal(id).status == ProposalStatus::Succeeded
                &&& refund == Some(
                    TransferModel {
                        recipient: s.proposal(id).proposer,
                        amount: s.proposal(id).deposit,
                        fund: TreasuryFund::Near,
                    },
                )
                &&& after.treasury == s.treasury
            }
        }),
{
}

/// A succeeded proposal can be queued from its time of execution on, and not
/// before.
pub proof fn law_timelock(s: DaoModel, id: u64, now: u64)
    requires
        s.wf(),
        s.has_proposal(id),
        s.proposal(id).status == ProposalStatus::Succeeded,
    ensures
        now < s.proposal(id).execution_eta ==> s.queue_error(id, now) == Some(
            DaoError::ExecutionDelayNotMet,
        ),
        now >= s.proposal(id).execution_eta ==> s.queue_error(id, now) is None && s.queue_next(
            id,
        ).proposal(id).status == ProposalStatus::Queued,
{
}

/// A proposal that is not queued cannot be executed.
pub proof fn law_execute_needs_queued(s: DaoModel, executor: Seq<char>, id: u64, now: u64)
    requires
        s.wf(),
        s.has_proposal(id),
        s.proposal(id).status != ProposalStatus::Queued,
    ensures
        s.execute_error(executor, id, now) == Some(DaoError::ProposalNotQueued),
{
}

/// A treasury spend that the treasury does not cover fails and changes
/// nothing: the proposal stays queued, and no funds move.
pub proof fn law_uncovered_spend_fails(
    s: DaoModel,
    executor: Seq<char>,
    id: u64,
    now: u64,
    fund: TreasuryFund,
)
    requires
        s.wf(),
        s.has_proposal(id),
        s.proposal(id).status == ProposalStatus::Queued,
        s.may_execute(executor),
        s.proposal(id).proposal_type is Treasury,
        fund_of_token(s.proposal(id).proposal_type->token) == Some(fund),
        s.treasury.balance(fund) < s.proposal(id).proposal_type->Treasury_amount,
    ensures
        s.execute_error(executor, id, now) is None,
        s.execute_next(id, now) == s,
        !s.execute_output(executor, id, now).event.success,
        s.execute_output(executor, id, now).transfer is None,
{
}

} // verus!
