//! The records of the governance engine and their mathematical views.

use crate::account::AccountId;
use crate::keyed::Keyed;
use crate::ledger::{clone_named_amounts, named_amounts, NamedAmount};
use crate::text::{clone_opt_string, clone_strings, opt_text, texts};
use vstd::prelude::*;
use vstd::string::*;

verus! {

/// Where a proposal stands in its lifecycle. `Draft`, `Cancelled` and `Expired`
/// are never entered by the engine.
#[derive(Clone, Copy, Debug, PartialEq, Eq, Structural)]
pub enum ProposalStatus {
    Draft,
    Active,
    Succeeded,
    Defeated,
    Queued,
    Executed,
    Cancelled,
    Expired,
}

/// The side a vote takes.
#[derive(Clone, Copy, Debug, PartialEq, Eq, Structural)]
pub enum VoteType {
    For,
    Against,
    Abstain,
}

/// The kind of work a contribution is.
#[derive(Clone, Copy, Debug, PartialEq, Eq, Structural)]
pub enum ContributionType {
    VoiceContent,
    CodeCommit,
    Documentation,
    Design,
    Marketing,
    Community,
    BugReport,
    FeatureRequest,
}

/// How far the review of a contribution has come. `UnderReview` and `Rewarded`
/// are never entered by the engine.
#[derive(Clone, Copy, Debug, PartialEq, Eq, Structural)]
pub enum ContributionStatus {
    Submitted,
    UnderReview,
    Approved,
    Rejected,
    Rewarded,
}

/// The fund of the treasury that a transfer draws on.
#[derive(Clone, Copy, Debug, PartialEq, Eq, Structural)]
pub enum TreasuryFund {
    /// The native balance.
    Near,
    /// The balance of the platform token.
    Voice,
}

/// What a proposal asks for.
#[derive(Debug)]
pub enum ProposalType {
    Treasury { recipient: AccountId, amount: u128, token: String, purpose: String },
    Governance { parameter: String, new_value: String },
    Membership { action: String, member: AccountId, role: String },
    Content { action: String, content_id: String, details: String },
    Contract { action: String, target_contract: AccountId, method: String, args: String },
    Partnership { partner: AccountId, terms: String, duration: u64 },
    Grant { recipient: AccountId, amount: u128, milestones: Vec<String>, category: String },
}

/// The view of a [`ProposalType`].
pub enum ProposalTypeModel {
    Treasury { recipient: Seq<char>, amount: u128, token: Seq<char>, purpose: Seq<char> },
    Governance { parameter: Seq<char>, new_value: Seq<char> },
    Membership { action: Seq<char>, member: Seq<char>, role: Seq<char> },
    Content { action: Seq<char>, content_id: Seq<char>, details: Seq<char> },
    Contract { action: Seq<char>, target_contract: Seq<char>, method: Seq<char>, args: Seq<char> },
    Partnership { partner: Seq<char>, terms: Seq<char>, duration: u64 },
    Grant { recipient: Seq<char>, amount: u128, milestones: Seq<Seq<char>>, category: Seq<char> },
}

impl View for ProposalType {
    type V = ProposalTypeModel;

    open spec fn view(&self) -> ProposalTypeModel {
        match *self {
            ProposalType::Treasury { recipient, amount, token, purpose } => ProposalTypeModel::Treasury {
                recipient: recipient@,
                amount,
                token: token@,
                purpose: purpose@,
            },
            ProposalType::Governance { parameter, new_value } => ProposalTypeModel::Governance {
                parameter: parameter@,
                new_value: new_value@,
            },
            ProposalType::Membership { action, member, role } => ProposalTypeModel::Membership {
                action: action@,
                member: member@,
                role: role@,
            },
            ProposalType::Content { action, content_id, details } => ProposalTypeModel::Content {
                action: action@,
                content_id: content_id@,
                details: details@,
            },
            ProposalType::Contract { action, target_contract, method, args } => ProposalTypeModel::Contract {
                action: action@,
                target_contract: target_contract@,
                method: method@,
                args: args@,
            },
            ProposalType::Partnership { partner, terms, duration } => ProposalTypeModel::Partnership {
                partner: partner@,
                terms: terms@,
                duration,
            },
            ProposalType::Grant { recipient, amount, milestones, category } => ProposalTypeModel::Grant {
                recipient: recipient@,
                amount,
                milestones: texts(milestones@),
                category: category@,
            },
        }
    }
}

impl Clone for ProposalType {
    fn clone(&self) -> (r: Self)
        ensures
            r@ == self@,
    {
        match self {
            ProposalType::Treasury { recipient, amount, token, purpose } => ProposalType::Treasury {
                recipient: recipient.clone(),
                amount: *amount,
                token: token.clone(),
                purpose: purpose.clone(),
            },
            ProposalType::Governance { parameter, new_value } => ProposalType::Governance {
                parameter: parameter.clone(),
                new_value: new_value.clone(),
            },
            ProposalType::Membership { action, member, role } => ProposalType::Membership {
                action: action.clone(),
                member: member.clone(),
                role: role.clone(),
            },
            ProposalType::Content { action, content_id, details } => ProposalType::Content {
                action: action.clone(),
                content_id: content_id.clone(),
                details: details.clone(),
            },
            ProposalType::Contract { action, target_contract, method, args } => ProposalType::Contract {
                action: action.clone(),
                target_contract: target_contract.clone(),
                method: method.clone(),
                args: args.clone(),
            },
            ProposalType::Partnership { partner, terms, duration } => ProposalType::Partnership {
                partner: partner.clone(),
                terms: terms.clone(),
                duration: *duration,
            },
            ProposalType::Grant { recipient, amount, milestones, category } => ProposalType::Grant {
                recipient: recipient.clone(),
                amount: *amount,
                milestones: clone_strings(milestones),
                category: category.clone(),
            },
        }
    }
}

/// A governance action that awaits, or has had, its decision.
#[derive(Debug)]
pub struct Proposal {
    pub id: u64,
    pub title: String,
    pub description: String,
    pub proposer: AccountId,
    pub proposal_type: ProposalType,
    pub status: ProposalStatus,
    pub votes_for: u128,
    pub votes_against: u128,
    pub votes_abstain: u128,
    pub total_votes: u128,
    pub created_at: u64,
    pub voting_starts_at: u64,
    pub voting_ends_at: u64,
    pub execution_eta: u64,
    pub deposit: u128,
    pub tags: Vec<String>,
    pub attachments: Vec<String>,
}

/// The view of a [`Proposal`].
pub struct ProposalModel {
    pub id: u64,
    pub title: Seq<char>,
    pub description: Seq<char>,
    pub proposer: Seq<char>,
    pub proposal_type: ProposalTypeModel,
    pub status: ProposalStatus,
    pub votes_for: u128,
    pub votes_against: u128,
    pub votes_abstain: u128,
    pub total_votes: u128,
    pub created_at: u64,
    pub voting_starts_at: u64,
    pub voting_ends_at: u64,
    pub execution_eta: u64,
    pub deposit: u128,
    pub tags: Seq<Seq<char>>,
    pub attachments: Seq<Seq<char>>,
}

impl View for Proposal {
    type V = ProposalModel;

    open spec fn view(&self) -> ProposalModel {
        ProposalModel {
            id: self.id,
            title: self.title@,
            description: self.description@,
            proposer: self.proposer@,
            proposal_type: self.proposal_type@,
            status: self.status,
            votes_for: self.votes_for,
            votes_against: self.votes_against,
            votes_abstain: self.votes_abstain,
            total_votes: self.total_votes,
            created_at: self.created_at,
            voting_starts_at: self.voting_starts_at,
            voting_ends_at: self.voting_ends_at,
            execution_eta: self.execution_eta,
            deposit: self.deposit,
            tags: texts(self.tags@),
            attachments: texts(self.attachments@),
        }
    }
}

impl Clone for Proposal {
    fn clone(&self) -> (r: Self)
        ensures
            r@ == self@,
    {
        Proposal {
            id: self.id,
            title: self.title.clone(),
            description: self.description.clone(),
            proposer: self.proposer.clone(),
            proposal_type: self.proposal_type.clone(),
            status: self.status,
            votes_for: self.votes_for,
            votes_against: self.votes_against,
            votes_abstain: self.votes_abstain,
            total_votes: self.total_votes,
            created_at: self.created_at,
            voting_starts_at: self.voting_starts_at,
            voting_ends_at: self.voting_ends_at,
            execution_eta: self.execution_eta,
            deposit: self.deposit,
            tags: clone_strings(&self.tags),
            attachments: clone_strings(&self.attachments),
        }
    }
}

/// One member's current position on one proposal.
#[derive(Debug)]
pub struct Vote {
    pub proposal_id: u64,
    pub voter: AccountId,
    pub support: VoteType,
    pub voting_power: u128,
    pub reason: Option<String>,
    pub created_at: u64,
}

/// The view of a [`Vote`].
pub struct VoteModel {
    pub proposal_id: u64,
    pub voter: Seq<char>,
    pub support: VoteType,
    pub voting_power: u128,
    pub reason: Option<Seq<char>>,
    pub created_at: u64,
}

impl View for Vote {
    type V = VoteModel;

    open spec fn view(&self) -> VoteModel {
        VoteModel {
            proposal_id: self.proposal_id,
            voter: self.voter@,
            support: self.support,
            voting_power: self.voting_power,
            reason: opt_text(self.reason),
            created_at: self.created_at,
        }
    }
}

impl Clone for Vote {
    fn clone(&self) -> (r: Self)
        ensures
            r@ == self@,
    {
        Vote {
            proposal_id: self.proposal_id,
            voter: self.voter.clone(),
            support: self.support,
            voting_power: self.voting_power,
            reason: clone_opt_string(&self.reason),
            created_at: self.created_at,
        }
    }
}

/// A participant of the organisation.
#[derive(Debug)]
pub struct Member {
    pub account_id: AccountId,
    pub roles: Vec<String>,
    pub voting_power: u128,
    pub contributions: u64,
    pub reputation: u32,
    pub joined_at: u64,
    pub last_active: u64,
    pub delegated_to: Option<AccountId>,
    pub delegated_power: u128,
}

/// The view of a [`Member`].
pub struct MemberModel {
    pub account_id: Seq<char>,
    pub roles: Seq<Seq<char>>,
    pub voting_power: u128,
    pub contributions: u64,
    pub reputation: u32,
    pub joined_at: u64,
    pub last_active: u64,
    pub delegated_to: Option<Seq<char>>,
    pub delegated_power: u128,
}

impl View for Member {
    type V = MemberModel;

    open spec fn view(&self) -> MemberModel {
        MemberModel {
            account_id: self.account_id@,
            roles: texts(self.roles@),
            voting_power: self.voting_power,
            contributions: self.contributions,
            reputation: self.reputation,
            joined_at: self.joined_at,
            last_active: self.last_active,
            delegated_to: opt_text(self.delegated_to),
            delegated_power: self.delegated_power,
        }
    }
}

impl Clone for Member {
    fn clone(&self) -> (r: Self)
        ensures
            r@ == self@,
    {
        Member {
            account_id: self.account_id.clone(),
            roles: clone_strings(&self.roles),
            voting_power: self.voting_power,
            contributions: self.contributions,
            reputation: self.reputation,
            joined_at: self.joined_at,
            last_active: self.last_active,
            delegated_to: clone_opt_string(&self.delegated_to),
            delegated_power: self.delegated_power,
        }
    }
}

/// A unit of work handed in for review.
#[derive(Debug)]
pub struct Contribution {
    pub id: String,
    pub contributor: AccountId,
    pub contribution_type: ContributionType,
    pub title: String,
    pub description: String,
    pub ipfs_hash: String,
    pub reward_amount: u128,
    pub status: ContributionStatus,
    pub created_at: u64,
    pub reviewed_at: Option<u64>,
    pub reviewer: Option<AccountId>,
}

/// The view of a [`Contribution`].
pub struct ContributionModel {
    pub id: Seq<char>,
    pub contributor: Seq<char>,
    pub contribution_type: ContributionType,
    pub title: Seq<char>,
    pub description: Seq<char>,
    pub ipfs_hash: Seq<char>,
    pub reward_amount: u128,
    pub status: ContributionStatus,
    pub created_at: u64,
    pub reviewed_at: Option<u64>,
    pub reviewer: Option<Seq<char>>,
}

impl View for Contribution {
    type V = ContributionModel;

    open spec fn view(&self) -> ContributionModel {
        ContributionModel {
            id: self.id@,
            contributor: self.contributor@,
            contribution_type: self.contribution_type,
            title: self.title@,
            description: self.description@,
            ipfs_hash: self.ipfs_hash@,
            reward_amount: self.reward_amount,
            status: self.status,
            created_at: self.created_at,
            reviewed_at: self.reviewed_at,
            reviewer: opt_text(self.reviewer),
        }
    }
}

impl Clone for Contribution {
    fn clone(&self) -> (r: Self)
        ensures
            r@ == self@,
    {
        Contribution {
            id: self.id.clone(),
            contributor: self.contributor.clone(),
            contribution_type: self.contribution_type,
            title: self.title.clone(),
            description: self.description.clone(),
            ipfs_hash: self.ipfs_hash.clone(),
            reward_amount: self.reward_amount,
            status: self.status,
            created_at: self.created_at,
            reviewed_at: self.reviewed_at,
            reviewer: clone_opt_string(&self.reviewer),
        }
    }
}

/// The fund ledger of the organisation.
#[derive(Debug)]
pub struct Treasury {
    pub voice_balance: u128,
    pub near_balance: u128,
    pub other_tokens: Vec<NamedAmount>,
    pub allocated_funds: u128,
    pub available_funds: u128,
    pub total_spent: u128,
    pub spending_categories: Vec<NamedAmount>,
}

/// The view of a [`Treasury`].
pub struct TreasuryModel {
    pub voice_balance: u128,
    pub near_balance: u128,
    pub other_tokens: Seq<(Seq<char>, u128)>,
    pub allocated_funds: u128,
    pub available_funds: u128,
    pub total_spent: u128,
    pub spending_categories: Seq<(Seq<char>, u128)>,
}

impl View for Treasury {
    type V = TreasuryModel;

    open spec fn view(&self) -> TreasuryModel {
        TreasuryModel {
            voice_balance: self.voice_balance,
            near_balance: self.near_balance,
            other_tokens: named_amounts(self.other_tokens@),
            allocated_funds: self.allocated_funds,
            available_funds: self.available_funds,
            total_spent: self.total_spent,
            spending_categories: named_amounts(self.spending_categories@),
        }
    }
}

impl Clone for Treasury {
    fn clone(&self) -> (r: Self)
        ensures
            r@ == self@,
    {
        Treasury {
            voice_balance: self.voice_balance,
            near_balance: self.near_balance,
            other_tokens: clone_named_amounts(&self.other_tokens),
            allocated_funds: self.allocated_funds,
            available_funds: self.available_funds,
            total_spent: self.total_spent,
            spending_categories: clone_named_amounts(&self.spending_categories),
        }
    }
}

/// The parameters of the governance process. Thresholds are in basis points.
#[derive(Clone, Copy, Debug, PartialEq, Eq, Structural)]
pub struct GovernanceConfig {
    pub min_proposal_deposit: u128,
    pub voting_period: u64,
    pub execution_delay: u64,
    pub quorum_threshold: u32,
    pub approval_threshold: u32,
    pub max_proposals_per_member: u32,
    pub proposal_fee: u128,
}

/// What a role allows and asks for.
#[derive(Debug)]
pub struct RoleConfig {
    pub name: String,
    pub description: String,
    pub permissions: Vec<String>,
    pub min_voting_power: u128,
    pub max_members: Option<u32>,
}

/// The view of a [`RoleConfig`].
pub struct RoleConfigModel {
    pub name: Seq<char>,
    pub description: Seq<char>,
    pub permissions: Seq<Seq<char>>,
    pub min_voting_power: u128,
    pub max_members: Option<u32>,
}

impl View for RoleConfig {
    type V = RoleConfigModel;

    open spec fn view(&self) -> RoleConfigModel {
        RoleConfigModel {
            name: self.name@,
            description: self.description@,
            permissions: texts(self.permissions@),
            min_voting_power: self.min_voting_power,
            max_members: self.max_members,
        }
    }
}

impl Clone for RoleConfig {
    fn clone(&self) -> (r: Self)
        ensures
            r@ == self@,
    {
        RoleConfig {
            name: self.name.clone(),
            description: self.description.clone(),
            permissions: clone_strings(&self.permissions),
            min_voting_power: self.min_voting_power,
            max_members: self.max_members,
        }
    }
}

/// A snapshot of the engine's counters.
#[derive(Clone, Copy, Debug, PartialEq, Eq, Structural)]
pub struct DAOStats {
    pub total_proposals: u64,
    pub active_proposals: u64,
    pub total_members: u64,
    pub total_voting_power: u128,
    pub treasury_value: u128,
    pub total_contributions: u64,
    pub last_updated: u64,
}

/// The notification that a proposal was created.
#[derive(Debug)]
pub struct ProposalCreatedEvent {
    pub proposal_id: u64,
    pub proposer: AccountId,
    pub title: String,
    pub proposal_type: ProposalType,
}

/// The view of a [`ProposalCreatedEvent`].
pub struct ProposalCreatedEventModel {
    pub proposal_id: u64,
    pub proposer: Seq<char>,
    pub title: Seq<char>,
    pub proposal_type: ProposalTypeModel,
}

impl View for ProposalCreatedEvent {
    type V = ProposalCreatedEventModel;

    open spec fn view(&self) -> ProposalCreatedEventModel {
        ProposalCreatedEventModel {
            proposal_id: self.proposal_id,
            proposer: self.proposer@,
            title: self.title@,
            proposal_type: self.proposal_type@,
        }
    }
}

/// The notification that a vote was cast.
#[derive(Debug)]
pub struct VoteCastEvent {
    pub proposal_id: u64,
    pub voter: AccountId,
    pub support: VoteType,
    pub voting_power: u128,
    pub reason: Option<String>,
}

/// The view of a [`VoteCastEvent`].
pub struct VoteCastEventModel {
    pub proposal_id: u64,
    pub voter: Seq<char>,
    pub support: VoteType,
    pub voting_power: u128,
    pub reason: Option<Seq<char>>,
}

impl View for VoteCastEvent {
    type V = VoteCastEventModel;

    open spec fn view(&self) -> VoteCastEventModel {
        VoteCastEventModel {
            proposal_id: self.proposal_id,
            voter: self.voter@,
            support: self.support,
            voting_power: self.voting_power,
            reason: opt_text(self.reason),
        }
    }
}

/// The notification that the execution of a proposal was attempted.
#[derive(Debug)]
pub struct ProposalExecutedEvent {
    pub proposal_id: u64,
    pub executor: AccountId,
    pub success: bool,
    pub result: String,
}

/// The view of a [`ProposalExecutedEvent`].
pub struct ProposalExecutedEventModel {
    pub proposal_id: u64,
    pub executor: Seq<char>,
    pub success: bool,
    pub result: Seq<char>,
}

impl View for ProposalExecutedEvent {
    type V = ProposalExecutedEventModel;

    open spec fn view(&self) -> ProposalExecutedEventModel {
        ProposalExecutedEventModel {
            proposal_id: self.proposal_id,
            executor: self.executor@,
            success: self.success,
            result: self.result@,
        }
    }
}

/// A request to move funds out of the treasury to a recipient. The engine has
/// debited its ledger when it hands one out; carrying it out is the caller's part.
#[derive(Debug)]
pub struct Transfer {
    pub recipient: AccountId,
    pub amount: u128,
    pub fund: TreasuryFund,
}

/// The view of a [`Transfer`].
pub struct TransferModel {
    pub recipient: Seq<char>,
    pub amount: u128,
    pub fund: TreasuryFund,
}

impl View for Transfer {
    type V = TransferModel;

    open spec fn view(&self) -> TransferModel {
        TransferModel { recipient: self.recipient@, amount: self.amount, fund: self.fund }
    }
}

/// The view of an optional transfer.
pub open spec fn opt_transfer(t: Option<Transfer>) -> Option<TransferModel> {
    match t {
        Some(x) => Some(x@),
        None => None,
    }
}

/// An outgoing delegation: `delegator` has named `delegate` to vote with its power.
#[derive(Debug)]
pub struct Delegation {
    pub delegator: AccountId,
    pub delegate: AccountId,
}

/// The view of a list of delegations: delegator and delegate, in order.
pub open spec fn delegation_pairs(v: Seq<Delegation>) -> Seq<(Seq<char>, Seq<char>)> {
    v.map_values(|d: Delegation| (d.delegator@, d.delegate@))
}

/// A role under the key it is looked up by.
#[derive(Debug)]
pub struct RoleEntry {
    pub key: String,
    pub config: RoleConfig,
}

/// The view of a list of roles: key and role, in order.
pub open spec fn role_pairs(v: Seq<RoleEntry>) -> Seq<(Seq<char>, RoleConfigModel)> {
    v.map_values(|e: RoleEntry| (e.key@, e.config@))
}

/// What an attempt to execute a proposal came to.
#[derive(Debug)]
pub struct Execution {
    /// The notification to send out.
    pub event: ProposalExecutedEvent,
    /// The funds to move, where the execution released any.
    pub transfer: Option<Transfer>,
}

/// The view of an [`Execution`].
pub struct ExecutionModel {
    pub event: ProposalExecutedEventModel,
    pub transfer: Option<TransferModel>,
}

impl View for Execution {
    type V = ExecutionModel;

    open spec fn view(&self) -> ExecutionModel {
        ExecutionModel { event: self.event@, transfer: opt_transfer(self.transfer) }
    }
}

impl Keyed for Member {
    open spec fn key_text(&self) -> Seq<char> {
        self.account_id@
    }

    fn key(&self) -> (k: &String) {
        &self.account_id
    }
}

impl Keyed for Vote {
    open spec fn key_text(&self) -> Seq<char> {
        self.voter@
    }

    fn key(&self) -> (k: &String) {
        &self.voter
    }
}

impl Keyed for Contribution {
    open spec fn key_text(&self) -> Seq<char> {
        self.id@
    }

    fn key(&self) -> (k: &String) {
        &self.id
    }
}

impl Keyed for Delegation {
    open spec fn key_text(&self) -> Seq<char> {
        self.delegator@
    }

    fn key(&self) -> (k: &String) {
        &self.delegator
    }
}

impl Keyed for RoleEntry {
    open spec fn key_text(&self) -> Seq<char> {
        self.key@
    }

    fn key(&self) -> (k: &String) {
        &self.key
    }
}

/// The views of a list of proposals.
pub open spec fn proposal_models(v: Seq<Proposal>) -> Seq<ProposalModel> {
    v.map_values(|p: Proposal| p@)
}

/// The views of a list of votes.
pub open spec fn vote_models(v: Seq<Vote>) -> Seq<VoteModel> {
    v.map_values(|x: Vote| x@)
}

/// The views of a list of ballots.
pub open spec fn ballot_models(v: Seq<Vec<Vote>>) -> Seq<Seq<VoteModel>> {
    v.map_values(|b: Vec<Vote>| vote_models(b@))
}

/// The views of a list of members.
pub open spec fn member_models(v: Seq<Member>) -> Seq<MemberModel> {
    v.map_values(|m: Member| m@)
}

/// The views of a list of contributions.
pub open spec fn contribution_models(v: Seq<Contribution>) -> Seq<ContributionModel> {
    v.map_values(|c: Contribution| c@)
}

} // verus!
