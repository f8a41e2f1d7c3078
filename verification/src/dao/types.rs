//! The records of the organisation contract, their textual forms for callers,
//! and their mathematical views.

use crate::account::AccountId;
use crate::keyed::Keyed;
use crate::text::{clone_strings, texts};
use vstd::prelude::*;
use vstd::string::*;

verus! {

/// Where a proposal stands, in the textual form. `Expired` is never entered.
#[derive(Clone, Copy, Debug, PartialEq, Eq, Structural)]
pub enum ProposalStatusView {
    InProgress,
    Approved,
    Rejected,
    Expired,
}

/// Where a proposal stands. `Expired` is never entered.
#[derive(Clone, Copy, Debug, PartialEq, Eq, Structural)]
pub enum ProposalStatus {
    InProgress,
    Approved,
    Rejected,
    Expired,
}

/// What a proposal asks for, in the textual form: accounts and amounts as text.
#[derive(Debug)]
pub enum ProposalTypeView {
    /// Change contract parameters.
    ParameterChange { parameter: String, value: String },
    /// Spend from the treasury.
    TreasurySpend { recipient: String, amount: String, description: String },
    /// Change the membership: the action is `"add"` or `"remove"`.
    MembershipChange { account_id: String, action: String },
    /// Anything else.
    General { description: String, actions: Vec<String> },
}

/// The view of a [`ProposalTypeView`].
pub enum ProposalTypeViewModel {
    ParameterChange { parameter: Seq<char>, value: Seq<char> },
    TreasurySpend { recipient: Seq<char>, amount: Seq<char>, description: Seq<char> },
    MembershipChange { account_id: Seq<char>, action: Seq<char> },
    General { description: Seq<char>, actions: Seq<Seq<char>> },
}

impl View for ProposalTypeView {
    type V = ProposalTypeViewModel;

    open spec fn view(&self) -> ProposalTypeViewModel {
        match *self {
            ProposalTypeView::ParameterChange { parameter, value } => ProposalTypeViewModel::ParameterChange {
                parameter: parameter@,
                value: value@,
            },
            ProposalTypeView::TreasurySpend { recipient, amount, description } => ProposalTypeViewModel::TreasurySpend {
                recipient: recipient@,
                amount: amount@,
                description: description@,
            },
            ProposalTypeView::MembershipChange { account_id, action } => ProposalTypeViewModel::MembershipChange {
                account_id: account_id@,
                action: action@,
            },
            ProposalTypeView::General { description, actions } => ProposalTypeViewModel::General {
                description: description@,
                actions: texts(actions@),
            },
        }
    }
}

/// What a proposal asks for.
#[derive(Debug)]
pub enum ProposalType {
    /// Change contract parameters.
    ParameterChange { parameter: String, value: String },
    /// Spend from the treasury.
    TreasurySpend { recipient: AccountId, amount: u128, description: String },
    /// Change the membership: the action is `"add"` or `"remove"`.
    MembershipChange { account_id: AccountId, action: String },
    /// Anything else.
    General { description: String, actions: Vec<String> },
}

/// The view of a [`ProposalType`].
pub enum ProposalTypeModel {
    ParameterChange { parameter: Seq<char>, value: Seq<char> },
    TreasurySpend { recipient: Seq<char>, amount: u128, description: Seq<char> },
    MembershipChange { account_id: Seq<char>, action: Seq<char> },
    General { description: Seq<char>, actions: Seq<Seq<char>> },
}

impl View for ProposalType {
    type V = ProposalTypeModel;

    open spec fn view(&self) -> ProposalTypeModel {
        match *self {
            ProposalType::ParameterChange { parameter, value } => ProposalTypeModel::ParameterChange {
                parameter: parameter@,
                value: value@,
            },
            ProposalType::TreasurySpend { recipient, amount, description } => ProposalTypeModel::TreasurySpend {
                recipient: recipient@,
                amount,
                description: description@,
            },
            ProposalType::MembershipChange { account_id, action } => ProposalTypeModel::MembershipChange {
                account_id: account_id@,
                action: action@,
            },
            ProposalType::General { description, actions } => ProposalTypeModel::General {
                description: description@,
                actions: texts(actions@),
            },
        }
    }
}

impl Clone for ProposalType {
    fn clone(&self) -> (r: Self)
        ensures
            r@ == self@,
    {
        match self {
            ProposalType::ParameterChange { parameter, value } => ProposalType::ParameterChange {
                parameter: parameter.clone(),
                value: value.clone(),
            },
            ProposalType::TreasurySpend { recipient, amount, description } => ProposalType::TreasurySpend {
                recipient: recipient.clone(),
                amount: *amount,
                description: description.clone(),
            },
            ProposalType::MembershipChange { account_id, action } => ProposalType::MembershipChange {
                account_id: account_id.clone(),
                action: action.clone(),
            },
            ProposalType::General { description, actions } => ProposalType::General {
                description: description.clone(),
                actions: clone_strings(actions),
            },
        }
    }
}

/// The vote of one member: for, where `support` holds, or against.
#[derive(Debug)]
pub struct VoterRecord {
    pub voter: AccountId,
    pub support: bool,
}

impl Keyed for VoterRecord {
    open spec fn key_text(&self) -> Seq<char> {
        self.voter@
    }

    fn key(&self) -> (k: &String) {
        &self.voter
    }
}

/// The view of a list of votes: voter and side, in the order of voting.
pub open spec fn voter_pairs(v: Seq<VoterRecord>) -> Seq<(Seq<char>, bool)> {
    v.map_values(|r: VoterRecord| (r.voter@, r.support))
}

/// A copy of a list of votes.
pub fn clone_voters(v: &Vec<VoterRecord>) -> (r: Vec<VoterRecord>)
    ensures
        voter_pairs(r@) == voter_pairs(v@),
{
    let mut r: Vec<VoterRecord> = Vec::new();
    let mut i: usize = 0;
    while i < v.len()
        invariant
            i <= v.len(),
            r.len() == i,
            forall|j: int| 0 <= j < i ==> r@[j].voter@ == v@[j].voter@ && r@[j].support == v@[j].support,
        decreases v.len() - i,
    {
        r.push(VoterRecord { voter: v[i].voter.clone(), support: v[i].support });
        i += 1;
    }
    assert(voter_pairs(r@) =~= voter_pairs(v@));
    r
}

/// A proposal.
#[derive(Debug)]
pub struct Proposal {
    pub id: u128,
    pub proposer: AccountId,
    pub proposal_type: ProposalType,
    pub description: String,
    pub votes_for: u128,
    pub votes_against: u128,
    pub status: ProposalStatus,
    pub created_at: u64,
    pub voting_period_end: u64,
    pub execution_period_end: u64,
    pub voters: Vec<VoterRecord>,
}

/// The view of a [`Proposal`].
pub struct ProposalModel {
    pub id: u128,
    pub proposer: Seq<char>,
    pub proposal_type: ProposalTypeModel,
    pub description: Seq<char>,
    pub votes_for: u128,
    pub votes_against: u128,
    pub status: ProposalStatus,
    pub created_at: u64,
    pub voting_period_end: u64,
    pub execution_period_end: u64,
    pub voters: Seq<(Seq<char>, bool)>,
}

impl View for Proposal {
    type V = ProposalModel;

    open spec fn view(&self) -> ProposalModel {
        ProposalModel {
            id: self.id,
            proposer: self.proposer@,
            proposal_type: self.proposal_type@,
            description: self.description@,
            votes_for: self.votes_for,
            votes_against: self.votes_against,
            status: self.status,
            created_at: self.created_at,
            voting_period_end: self.voting_period_end,
            execution_period_end: self.execution_period_end,
            voters: voter_pairs(self.voters@),
        }
    }
}

/// A proposal in the textual form: numbers in decimal.
#[derive(Debug)]
pub struct ProposalView {
    pub id: String,
    pub proposer: String,
    pub proposal_type: ProposalTypeView,
    pub description: String,
    pub votes_for: String,
    pub votes_against: String,
    pub status: ProposalStatusView,
    pub created_at: String,
    pub voting_period_end: String,
    pub execution_period_end: String,
    pub voters: Vec<VoterRecord>,
}

/// The view of a [`ProposalView`].
pub struct ProposalViewModel {
    pub id: Seq<char>,
    pub proposer: Seq<char>,
    pub proposal_type: ProposalTypeViewModel,
    pub description: Seq<char>,
    pub votes_for: Seq<char>,
    pub votes_against: Seq<char>,
    pub status: ProposalStatusView,
    pub created_at: Seq<char>,
    pub voting_period_end: Seq<char>,
    pub execution_period_end: Seq<char>,
    pub voters: Seq<(Seq<char>, bool)>,
}

impl View for ProposalView {
    type V = ProposalViewModel;

    open spec fn view(&self) -> ProposalViewModel {
        ProposalViewModel {
            id: self.id@,
            proposer: self.proposer@,
            proposal_type: self.proposal_type@,
            description: self.description@,
            votes_for: self.votes_for@,
            votes_against: self.votes_against@,
            status: self.status,
            created_at: self.created_at@,
            voting_period_end: self.voting_period_end@,
            execution_period_end: self.execution_period_end@,
            voters: voter_pairs(self.voters@),
        }
    }
}

/// The views of a list of proposals in the textual form.
pub open spec fn proposal_view_models(v: Seq<ProposalView>) -> Seq<ProposalViewModel> {
    v.map_values(|p: ProposalView| p@)
}

/// The views of a list of proposals.
pub open spec fn proposal_models(v: Seq<Proposal>) -> Seq<ProposalModel> {
    v.map_values(|p: Proposal| p@)
}

/// A member of the organisation.
#[derive(Debug)]
pub struct DAOMember {
    pub account_id: AccountId,
    pub voting_power: u128,
    pub joined_at: u64,
    pub is_active: bool,
}

/// The view of a [`DAOMember`].
pub struct DAOMemberModel {
    pub account_id: Seq<char>,
    pub voting_power: u128,
    pub joined_at: u64,
    pub is_active: bool,
}

impl View for DAOMember {
    type V = DAOMemberModel;

    open spec fn view(&self) -> DAOMemberModel {
        DAOMemberModel {
            account_id: self.account_id@,
            voting_power: self.voting_power,
            joined_at: self.joined_at,
            is_active: self.is_active,
        }
    }
}

impl Keyed for DAOMember {
    open spec fn key_text(&self) -> Seq<char> {
        self.account_id@
    }

    fn key(&self) -> (k: &String) {
        &self.account_id
    }
}

/// The views of a list of members.
pub open spec fn member_models(v: Seq<DAOMember>) -> Seq<DAOMemberModel> {
    v.map_values(|m: DAOMember| m@)
}

/// A member in the textual form.
#[derive(Debug)]
pub struct DAOMemberView {
    pub account_id: String,
    pub voting_power: String,
    pub joined_at: String,
    pub is_active: bool,
}

/// The view of a [`DAOMemberView`].
pub struct DAOMemberViewModel {
    pub account_id: Seq<char>,
    pub voting_power: Seq<char>,
    pub joined_at: Seq<char>,
    pub is_active: bool,
}

impl View for DAOMemberView {
    type V = DAOMemberViewModel;

    open spec fn view(&self) -> DAOMemberViewModel {
        DAOMemberViewModel {
            account_id: self.account_id@,
            voting_power: self.voting_power@,
            joined_at: self.joined_at@,
            is_active: self.is_active,
        }
    }
}

/// The parameters of the organisation. Periods are in nanoseconds, thresholds
/// in basis points.
#[derive(Clone, Copy, Debug, PartialEq, Eq, Structural)]
pub struct DAOConfig {
    pub voting_period: u64,
    pub execution_period: u64,
    pub quorum_threshold: u32,
    pub approval_threshold: u32,
    pub proposal_deposit: u128,
    pub min_voting_power: u128,
}

/// The parameters in the textual form.
#[derive(Debug)]
pub struct DAOConfigView {
    pub voting_period: String,
    pub execution_period: String,
    pub quorum_threshold: u32,
    pub approval_threshold: u32,
    pub proposal_deposit: String,
    pub min_voting_power: String,
}

/// The view of a [`DAOConfigView`].
pub struct DAOConfigViewModel {
    pub voting_period: Seq<char>,
    pub execution_period: Seq<char>,
    pub quorum_threshold: u32,
    pub approval_threshold: u32,
    pub proposal_deposit: Seq<char>,
    pub min_voting_power: Seq<char>,
}

impl View for DAOConfigView {
    type V = DAOConfigViewModel;

    open spec fn view(&self) -> DAOConfigViewModel {
        DAOConfigViewModel {
            voting_period: self.voting_period@,
            execution_period: self.execution_period@,
            quorum_threshold: self.quorum_threshold,
            approval_threshold: self.approval_threshold,
            proposal_deposit: self.proposal_deposit@,
            min_voting_power: self.min_voting_power@,
        }
    }
}

/// A payment out of the treasury that the caller is to carry out.
#[derive(Debug)]
pub struct Payment {
    pub recipient: AccountId,
    pub amount: u128,
}

/// The view of an optional payment.
pub open spec fn opt_payment(p: Option<Payment>) -> Option<(Seq<char>, u128)> {
    match p {
        Some(x) => Some((x.recipient@, x.amount)),
        None => None,
    }
}

/// Why a call on the organisation failed.
#[derive(Clone, Copy, Debug, PartialEq, Eq, Structural)]
pub enum DaoError {
    AlreadyMember,
    InsufficientVotingPower,
    NotAMember,
    MemberNotActive,
    InsufficientDeposit,
    InvalidAccountId,
    InvalidAmount,
    ProposalNotFound,
    VotingEnded,
    NotInProgress,
    AlreadyVoted,
    VotingNotEnded,
    AlreadyFinalized,
    NotApproved,
    ExecutionExpired,
    InsufficientTreasury,
    /// An amount, a time or a counter would leave the range of its type.
    ArithmeticOverflow,
}

impl DaoError {
    /// The short reason shown to the caller.
    pub open spec fn message_text(self) -> Seq<char> {
        match self {
            DaoError::AlreadyMember => "Already a member"@,
            DaoError::InsufficientVotingPower => "Insufficient voting power"@,
            DaoError::NotAMember => "Only members can do this"@,
            DaoError::MemberNotActive => "Member is not active"@,
            DaoError::InsufficientDeposit => "Insufficient deposit"@,
            DaoError::InvalidAccountId => "Invalid account ID"@,
            DaoError::InvalidAmount => "Invalid amount"@,
            DaoError::ProposalNotFound => "Proposal not found"@,
            DaoError::VotingEnded => "Voting period has ended"@,
            DaoError::NotInProgress => "Proposal is not in progress"@,
            DaoError::AlreadyVoted => "Already voted"@,
            DaoError::VotingNotEnded => "Voting period not ended"@,
            DaoError::AlreadyFinalized => "Proposal already finalized"@,
            DaoError::NotApproved => "Proposal not approved"@,
            DaoError::ExecutionExpired => "Execution period expired"@,
            DaoError::InsufficientTreasury => "Insufficient treasury balance"@,
            DaoError::ArithmeticOverflow => "Arithmetic overflow"@,
        }
    }

    /// The short reason shown to the caller.
    pub fn message(self) -> (s: String)
        ensures
            s@ == self.message_text(),
    {
        let text: &str = match self {
            DaoError::AlreadyMember => "Already a member",
            DaoError::InsufficientVotingPower => "Insufficient voting power",
            DaoError::NotAMember => "Only members can do this",
            DaoError::MemberNotActive => "Member is not active",
            DaoError::InsufficientDeposit => "Insufficient deposit",
            DaoError::InvalidAccountId => "Invalid account ID",
            DaoError::InvalidAmount => "Invalid amount",
            DaoError::ProposalNotFound => "Proposal not found",
            DaoError::VotingEnded => "Voting period has ended",
            DaoError::NotInProgress => "Proposal is not in progress",
            DaoError::AlreadyVoted => "Already voted",
            DaoError::VotingNotEnded => "Voting period not ended",
            DaoError::AlreadyFinalized => "Proposal already finalized",
            DaoError::NotApproved => "Proposal not approved",
            DaoError::ExecutionExpired => "Execution period expired",
            DaoError::InsufficientTreasury => "Insufficient treasury balance",
            DaoError::ArithmeticOverflow => "Arithmetic overflow",
        };
        String::from_str(text)
    }
}

} // verus!
