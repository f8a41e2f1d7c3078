//! The organisation as a mathematical value, what holds of every such value,
//! and what each call makes of it.

use crate::account::valid_account_id;
use crate::dao::types::{
    DAOConfig, DAOConfigViewModel, DAOMemberModel, DAOMemberViewModel, DaoError, ProposalModel,
    ProposalStatus, ProposalStatusView, ProposalTypeModel, ProposalTypeViewModel, ProposalViewModel,
};
use crate::keyed::{
    lemma_position, lemma_position_in_range, lemma_push_fresh, lemma_swap_removed, position,
    swap_removed,
};
use crate::text::{decimal_text, parse_unsigned};
use vstd::prelude::*;

verus! {

/// The voting power that the owner of a new organisation has.
pub const OWNER_VOTING_POWER: u128 = 1_000_000_000_000_000_000_000_000;

/// The parameters of a new organisation: seven days to vote, three to execute,
/// a quorum of 10% and an approval of 50%.
pub open spec fn default_config() -> DAOConfig {
    DAOConfig {
        voting_period: 604_800_000_000_000,
        execution_period: 259_200_000_000_000,
        quorum_threshold: 1000,
        approval_threshold: 5000,
        proposal_deposit: 100_000_000_000_000_000_000_000,
        min_voting_power: 1_000_000_000_000_000_000_000,
    }
}

/// The account identifiers of a list of members.
pub open spec fn member_ids(s: Seq<DAOMemberModel>) -> Seq<Seq<char>> {
    s.map_values(|m: DAOMemberModel| m.account_id)
}

/// The voters of a list of votes.
pub open spec fn voter_names(s: Seq<(Seq<char>, bool)>) -> Seq<Seq<char>> {
    s.map_values(|e: (Seq<char>, bool)| e.0)
}

/// The accounts that a payload names are account names.
pub open spec fn payload_ok(p: ProposalTypeModel) -> bool {
    match p {
        ProposalTypeModel::TreasurySpend { recipient, .. } => valid_account_id(recipient),
        ProposalTypeModel::MembershipChange { account_id, .. } => valid_account_id(account_id),
        _ => true,
    }
}

/// The payload that a textual payload stands for, or why it stands for none:
/// the account of a spend or of a change of membership is to be an account
/// name, and the amount of a spend a decimal number that fits.
pub open spec fn payload_from_view(v: ProposalTypeViewModel) -> Result<ProposalTypeModel, DaoError> {
    match v {
        ProposalTypeViewModel::ParameterChange { parameter, value } => Ok(
            ProposalTypeModel::ParameterChange { parameter, value },
        ),
        ProposalTypeViewModel::TreasurySpend { recipient, amount, description } => {
            if !valid_account_id(recipient) {
                Err(DaoError::InvalidAccountId)
            } else {
                match parse_unsigned(amount, u128::MAX as nat) {
                    Some(n) => Ok(
                        ProposalTypeModel::TreasurySpend { recipient, amount: n as u128, description },
                    ),
                    None => Err(DaoError::InvalidAmount),
                }
            }
        },
        ProposalTypeViewModel::MembershipChange { account_id, action } => {
            if !valid_account_id(account_id) {
                Err(DaoError::InvalidAccountId)
            } else {
                Ok(ProposalTypeModel::MembershipChange { account_id, action })
            }
        },
        ProposalTypeViewModel::General { description, actions } => Ok(
            ProposalTypeModel::General { description, actions },
        ),
    }
}

/// The textual form of a payload.
pub open spec fn payload_to_view(p: ProposalTypeModel) -> ProposalTypeViewModel {
    match p {
        ProposalTypeModel::ParameterChange { parameter, value } => ProposalTypeViewModel::ParameterChange {
            parameter,
            value,
        },
        ProposalTypeModel::TreasurySpend { recipient, amount, description } => ProposalTypeViewModel::TreasurySpend {
            recipient,
            amount: decimal_text(amount as nat),
            description,
        },
        ProposalTypeModel::MembershipChange { account_id, action } => ProposalTypeViewModel::MembershipChange {
            account_id,
            action,
        },
        ProposalTypeModel::General { description, actions } => ProposalTypeViewModel::General {
            description,
            actions,
        },
    }
}

/// The textual form of a status.
pub open spec fn status_to_view(s: ProposalStatus) -> ProposalStatusView {
    match s {
        ProposalStatus::InProgress => ProposalStatusView::InProgress,
        ProposalStatus::Approved => ProposalStatusView::Approved,
        ProposalStatus::Rejected => ProposalStatusView::Rejected,
        ProposalStatus::Expired => ProposalStatusView::Expired,
    }
}

/// The textual form of a proposal.
pub open spec fn proposal_to_view(p: ProposalModel) -> ProposalViewModel {
    ProposalViewModel {
        id: decimal_text(p.id as nat),
        proposer: p.proposer,
        proposal_type: payload_to_view(p.proposal_type),
        description: p.description,
        votes_for: decimal_text(p.votes_for as nat),
        votes_against: decimal_text(p.votes_against as nat),
        status: status_to_view(p.status),
        created_at: decimal_text(p.created_at as nat),
        voting_period_end: decimal_text(p.voting_period_end as nat),
        execution_period_end: decimal_text(p.execution_period_end as nat),
        voters: p.voters,
    }
}

/// The textual form of a member.
pub open spec fn member_to_view(m: DAOMemberModel) -> DAOMemberViewModel {
    DAOMemberViewModel {
        account_id: m.account_id,
        voting_power: decimal_text(m.voting_power as nat),
        joined_at: decimal_text(m.joined_at as nat),
        is_active: m.is_active,
    }
}

/// The textual form of the parameters.
pub open spec fn config_to_view(c: DAOConfig) -> DAOConfigViewModel {
    DAOConfigViewModel {
        voting_period: decimal_text(c.voting_period as nat),
        execution_period: decimal_text(c.execution_period as nat),
        quorum_threshold: c.quorum_threshold,
        approval_threshold: c.approval_threshold,
        proposal_deposit: decimal_text(c.proposal_deposit as nat),
        min_voting_power: decimal_text(c.min_voting_power as nat),
    }
}

/// The votes that a quorum asks for: the share `quorum_bps` of the total voting power.
pub open spec fn quorum_votes(total_voting_power: nat, quorum_bps: nat) -> nat {
    (total_voting_power * quorum_bps) / 10000
}

/// The votes for that an approval asks for: the share `approval_bps` of the votes cast.
pub open spec fn approval_votes(total_votes: nat, approval_bps: nat) -> nat {
    (total_votes * approval_bps) / 10000
}

/// The decision on a proposal: approved with a quorum of votes cast and enough
/// of them for, rejected else.
pub open spec fn verdict(p: ProposalModel, config: DAOConfig, total_voting_power: nat) -> ProposalStatus {
    let total_votes = (p.votes_for + p.votes_against) as nat;
    if total_votes < quorum_votes(total_voting_power, config.quorum_threshold as nat) {
        ProposalStatus::Rejected
    } else if p.votes_for >= approval_votes(total_votes, config.approval_threshold as nat) {
        ProposalStatus::Approved
    } else {
        ProposalStatus::Rejected
    }
}

/// The organisation as a mathematical value.
#[verifier::ext_equal]
pub struct DaoState {
    pub owner_id: Seq<char>,
    pub config: DAOConfig,
    pub treasury_balance: u128,
    pub total_proposals: u128,
    /// The proposals by identifier: the proposal at place `i` has identifier `i + 1`.
    pub proposals: Seq<ProposalModel>,
    pub members: Seq<DAOMemberModel>,
    pub active_members: Seq<Seq<char>>,
    pub total_voting_power: u128,
    /// The deposit of each proposal, in the place of the proposal.
    pub proposal_deposits: Seq<u128>,
}

impl DaoState {
    /// The organisation is well formed: proposals are numbered from 1 in order
    /// and each has its deposit; no proposal has two votes of one voter; the
    /// accounts that payloads name are account names; no account is a member
    /// twice; and the active members are the members that are active.
    pub open spec fn wf(self) -> bool {
        &&& self.proposals.len() == self.total_proposals
        &&& self.proposal_deposits.len() == self.proposals.len()
        &&& forall|i: int|
            0 <= i < self.proposals.len() ==> {
                &&& (#[trigger] self.proposals[i]).id == i + 1
                &&& voter_names(self.proposals[i].voters).no_duplicates()
                &&& payload_ok(self.proposals[i].proposal_type)
            }
        &&& member_ids(self.members).no_duplicates()
        &&& self.active_members.no_duplicates()
        &&& forall|who: Seq<char>| #[trigger]
            self.active_members.contains(who) <==> self.is_member(who) && self.member(who).is_active
    }

    /// `id` is the identifier of a proposal.
    pub open spec fn has_proposal(self, id: u128) -> bool {
        1 <= id <= self.proposals.len()
    }

    /// The proposal with identifier `id`.
    pub open spec fn proposal(self, id: u128) -> ProposalModel {
        self.proposals[id - 1]
    }

    /// `who` is a member, active or not.
    pub open spec fn is_member(self, who: Seq<char>) -> bool {
        member_ids(self.members).contains(who)
    }

    /// The record of the member `who`.
    pub open spec fn member(self, who: Seq<char>) -> DAOMemberModel {
        self.members[position(member_ids(self.members), who)]
    }

    /// A new organisation: the owner is its one member.
    pub open spec fn initial(owner_id: Seq<char>, now: u64) -> DaoState {
        DaoState {
            owner_id,
            config: default_config(),
            treasury_balance: 0,
            total_proposals: 0,
            proposals: Seq::empty(),
            members: seq![
                DAOMemberModel {
                    account_id: owner_id,
                    voting_power: OWNER_VOTING_POWER,
                    joined_at: now,
                    is_active: true,
                },
            ],
            active_members: seq![owner_id],
            total_voting_power: OWNER_VOTING_POWER,
            proposal_deposits: Seq::empty(),
        }
    }

    /// Why `join_dao` fails, if it does.
    pub open spec fn join_error(self, who: Seq<char>, voting_power: u128) -> Option<DaoError> {
        if self.is_member(who) {
            Some(DaoError::AlreadyMember)
        } else if voting_power < self.config.min_voting_power {
            Some(DaoError::InsufficientVotingPower)
        } else if self.total_voting_power + voting_power > u128::MAX {
            Some(DaoError::ArithmeticOverflow)
        } else {
            None
        }
    }

    /// The organisation after `join_dao`.
    pub open spec fn join_next(self, who: Seq<char>, voting_power: u128, now: u64) -> DaoState {
        DaoState {
            members: self.members.push(
                DAOMemberModel { account_id: who, voting_power, joined_at: now, is_active: true },
            ),
            active_members: self.active_members.push(who),
            total_voting_power: (self.total_voting_power + voting_power) as u128,
            ..self
        }
    }

    /// Why `create_proposal` fails, if it does.
    pub open spec fn create_error(
        self,
        proposer: Seq<char>,
        deposit: u128,
        payload: ProposalTypeViewModel,
        now: u64,
    ) -> Option<DaoError> {
        if !self.is_member(proposer) {
            Some(DaoError::NotAMember)
        } else if !self.member(proposer).is_active {
            Some(DaoError::MemberNotActive)
        } else if deposit < self.config.proposal_deposit {
            Some(DaoError::InsufficientDeposit)
        } else if payload_from_view(payload) is Err {
            Some(payload_from_view(payload)->Err_0)
        } else if self.total_proposals == u128::MAX || now + self.config.voting_period
            + self.config.execution_period > u64::MAX {
            Some(DaoError::ArithmeticOverflow)
        } else {
            None
        }
    }

    /// The proposal that `create_proposal` makes.
    pub open spec fn created(
        self,
        proposer: Seq<char>,
        payload: ProposalTypeViewModel,
        description: Seq<char>,
        now: u64,
    ) -> ProposalModel {
        ProposalModel {
            id: (self.total_proposals + 1) as u128,
            proposer,
            proposal_type: payload_from_view(payload)->Ok_0,
            description,
            votes_for: 0,
            votes_against: 0,
            status: ProposalStatus::InProgress,
            created_at: now,
            voting_period_end: (now + self.config.voting_period) as u64,
            execution_period_end: (now + self.config.voting_period + self.config.execution_period) as u64,
            voters: Seq::empty(),
        }
    }

    /// The organisation after `create_proposal`.
    pub open spec fn create_next(self, p: ProposalModel, deposit: u128) -> DaoState {
        DaoState {
            proposals: self.proposals.push(p),
            proposal_deposits: self.proposal_deposits.push(deposit),
            total_proposals: (self.total_proposals + 1) as u128,
            ..self
        }
    }

    /// Why `vote` fails, if it does.
    pub open spec fn vote_error(self, voter: Seq<char>, id: u128, support: bool, now: u64) -> Option<DaoError> {
        if !self.is_member(voter) {
            Some(DaoError::NotAMember)
        } else if !self.member(voter).is_active {
            Some(DaoError::MemberNotActive)
        } else if !self.has_proposal(id) {
            Some(DaoError::ProposalNotFound)
        } else if now >= self.proposal(id).voting_period_end {
            Some(DaoError::VotingEnded)
        } else if self.proposal(id).status != ProposalStatus::InProgress {
            Some(DaoError::NotInProgress)
        } else if voter_names(self.proposal(id).voters).contains(voter) {
            Some(DaoError::AlreadyVoted)
        } else if (if support {
            self.proposal(id).votes_for
        } else {
            self.proposal(id).votes_against
        }) + self.member(voter).voting_power > u128::MAX {
            Some(DaoError::ArithmeticOverflow)
        } else {
            None
        }
    }

    /// The organisation after `vote`: the vote is recorded, and the voting power
    /// of the voter is added to the votes of its side.
    pub open spec fn vote_next(self, voter: Seq<char>, id: u128, support: bool) -> DaoState {
        let p = self.proposal(id);
        let power = self.member(voter).voting_power;
        let q = ProposalModel {
            voters: p.voters.push((voter, support)),
            votes_for: if support {
                (p.votes_for + power) as u128
            } else {
                p.votes_for
            },
            votes_against: if support {
                p.votes_against
            } else {
                (p.votes_against + power) as u128
            },
            ..p
        };
        DaoState { proposals: self.proposals.update(id - 1, q), ..self }
    }

    /// Why `finalize_proposal` fails, if it does.
    pub open spec fn finalize_error(self, id: u128, now: u64) -> Option<DaoError> {
        if !self.has_proposal(id) {
            Some(DaoError::ProposalNotFound)
        } else if now < self.proposal(id).voting_period_end {
            Some(DaoError::VotingNotEnded)
        } else if self.proposal(id).status != ProposalStatus::InProgress {
            Some(DaoError::AlreadyFinalized)
        } else if self.proposal(id).votes_for + self.proposal(id).votes_against > u128::MAX {
            Some(DaoError::ArithmeticOverflow)
        } else if self.total_voting_power * self.config.quorum_threshold > u128::MAX {
            Some(DaoError::ArithmeticOverflow)
        } else if self.proposal(id).votes_for + self.proposal(id).votes_against >= quorum_votes(
            self.total_voting_power as nat,
            self.config.quorum_threshold as nat,
        ) && (self.proposal(id).votes_for + self.proposal(id).votes_against)
            * self.config.approval_threshold > u128::MAX {
            Some(DaoError::ArithmeticOverflow)
        } else {
            None
        }
    }

    /// The organisation after `finalize_proposal`.
    pub open spec fn finalize_next(self, id: u128) -> DaoState {
        let p = self.proposal(id);
        DaoState {
            proposals: self.proposals.update(
                id - 1,
                ProposalModel { status: verdict(p, self.config, self.total_voting_power as nat), ..p },
            ),
            ..self
        }
    }

    /// The member that an approved change of membership removes, if it removes one.
    pub open spec fn removal(self, id: u128) -> Option<Seq<char>> {
        match self.proposal(id).proposal_type {
            ProposalTypeModel::MembershipChange { account_id, action } => if action == "remove"@
                && self.is_member(account_id) {
                Some(account_id)
            } else {
                None
            },
            _ => None,
        }
    }

    /// Why `execute_proposal` fails, if it does.
    pub open spec fn execute_error(self, id: u128, now: u64) -> Option<DaoError> {
        if !self.has_proposal(id) {
            Some(DaoError::ProposalNotFound)
        } else if self.proposal(id).status != ProposalStatus::Approved {
            Some(DaoError::NotApproved)
        } else if now > self.proposal(id).execution_period_end {
            Some(DaoError::ExecutionExpired)
        } else if self.proposal(id).proposal_type is TreasurySpend && self.treasury_balance < self.proposal(
            id,
        ).proposal_type->TreasurySpend_amount {
            Some(DaoError::InsufficientTreasury)
        } else if self.removal(id) is Some && self.total_voting_power < self.member(
            self.removal(id)->0,
        ).voting_power {
            Some(DaoError::ArithmeticOverflow)
        } else {
            None
        }
    }

    /// The organisation without the active member `who`.
    pub open spec fn deactivated(self, who: Seq<char>) -> DaoState {
        let at = position(member_ids(self.members), who);
        DaoState {
            members: self.members.update(at, DAOMemberModel { is_active: false, ..self.members[at] }),
            active_members: if self.active_members.contains(who) {
                swap_removed(self.active_members, position(self.active_members, who))
            } else {
                self.active_members
            },
            total_voting_power: (self.total_voting_power - self.members[at].voting_power) as u128,
            ..self
        }
    }

    /// The organisation after `execute_proposal`: a spend has left the treasury;
    /// a member that is removed is active no more, and its voting power has left
    /// the total; any other payload changes nothing.
    pub open spec fn execute_next(self, id: u128) -> DaoState {
        match self.proposal(id).proposal_type {
            ProposalTypeModel::TreasurySpend { amount, .. } => DaoState {
                treasury_balance: (self.treasury_balance - amount) as u128,
                ..self
            },
            _ => match self.removal(id) {
                Some(who) => self.deactivated(who),
                None => self,
            },
        }
    }

    /// The payment that `execute_proposal` asks for: that of a spend.
    pub open spec fn execute_payment(self, id: u128) -> Option<(Seq<char>, u128)> {
        match self.proposal(id).proposal_type {
            ProposalTypeModel::TreasurySpend { recipient, amount, .. } => Some((recipient, amount)),
            _ => None,
        }
    }
}

/// A new organisation is well formed.
pub proof fn lemma_initial_wf(owner_id: Seq<char>, now: u64)
    ensures
        DaoState::initial(owner_id, now).wf(),
{
    let s = DaoState::initial(owner_id, now);
    assert(member_ids(s.members) =~= seq![owner_id]);
    assert(member_ids(s.members)[0] == owner_id);
    lemma_position(member_ids(s.members), owner_id, 0);
    assert(s.active_members[0] == owner_id);
    assert forall|who: Seq<char>| #[trigger]
        s.active_members.contains(who) <==> s.is_member(who) && s.member(who).is_active by {
        if s.is_member(who) {
            lemma_position_in_range(member_ids(s.members), who);
        }
    }
}

/// One who joins keeps the organisation well formed.
pub proof fn lemma_join_wf(s: DaoState, who: Seq<char>, voting_power: u128, now: u64)
    requires
        s.wf(),
        !s.is_member(who),
    ensures
        s.join_next(who, voting_power, now).wf(),
{
    let t = s.join_next(who, voting_power, now);
    let ids = member_ids(s.members);
    assert(member_ids(t.members) =~= ids.push(who));
    lemma_push_fresh(ids, who);
    assert(!s.active_members.contains(who));
    lemma_push_fresh(s.active_members, who);
    assert(member_ids(t.members)[ids.len() as int] == who);
    assert(t.active_members[s.active_members.len() as int] == who);
    assert forall|x: Seq<char>| #[trigger]
        t.active_members.contains(x) <==> t.is_member(x) && t.member(x).is_active by {
        if x == who {
            lemma_position(member_ids(t.members), who, ids.len() as int);
        } else {
            if s.is_member(x) {
                lemma_position_in_range(ids, x);
                let i = position(ids, x);
                assert(member_ids(t.members)[i] == x);
                lemma_position(member_ids(t.members), x, i);
            }
            if t.is_member(x) {
                lemma_position_in_range(member_ids(t.members), x);
                let i = position(member_ids(t.members), x);
                assert(ids[i] == x);
                lemma_position(ids, x, i);
            }
            if s.active_members.contains(x) {
                let i = choose|i: int| 0 <= i < s.active_members.len() && s.active_members[i] == x;
                assert(t.active_members[i] == x);
            }
            if t.active_members.contains(x) {
                let i = choose|i: int| 0 <= i < t.active_members.len() && t.active_members[i] == x;
                assert(s.active_members[i] == x);
            }
        }
    }
}

/// A change that leaves the members alone, and the proposals well formed, keeps
/// the organisation well formed.
pub proof fn lemma_same_members_wf(s: DaoState, t: DaoState)
    requires
        s.wf(),
        t.members == s.members,
        t.active_members == s.active_members,
        t.proposals.len() == t.total_proposals,
        t.proposal_deposits.len() == t.proposals.len(),
        forall|i: int|
            0 <= i < t.proposals.len() ==> {
                &&& (#[trigger] t.proposals[i]).id == i + 1
                &&& voter_names(t.proposals[i].voters).no_duplicates()
                &&& payload_ok(t.proposals[i].proposal_type)
            },
    ensures
        t.wf(),
{
    assert forall|who: Seq<char>| #[trigger]
        t.active_members.contains(who) <==> t.is_member(who) && t.member(who).is_active by {
        assert(s.active_members.contains(who) <==> s.is_member(who) && s.member(who).is_active);
    }
}

/// A member that is made inactive keeps the organisation well formed.
pub proof fn lemma_deactivated_wf(s: DaoState, who: Seq<char>)
    requires
        s.wf(),
        s.is_member(who),
    ensures
        s.deactivated(who).wf(),
        !s.deactivated(who).active_members.contains(who),
{
    let t = s.deactivated(who);
    let ids = member_ids(s.members);
    lemma_position_in_range(ids, who);
    let at = position(ids, who);
    assert(member_ids(t.members) =~= ids);
    if s.active_members.contains(who) {
        lemma_position_in_range(s.active_members, who);
        lemma_swap_removed(s.active_members, position(s.active_members, who));
    }
    assert forall|x: Seq<char>| #[trigger]
        t.active_members.contains(x) <==> t.is_member(x) && t.member(x).is_active by {
        assert(s.active_members.contains(x) <==> s.is_member(x) && s.member(x).is_active);
        if x != who && s.is_member(x) {
            lemma_position_in_range(ids, x);
            assert(position(ids, x) != at);
        }
    }
}

} // verus!
