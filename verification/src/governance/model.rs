//! The engine as a mathematical value, what holds of every such value, and what
//! each call makes of it.

use crate::governance::error::DaoError;
use crate::keyed::{position, swap_removed};
use crate::ledger::{amount_of, names};
use crate::governance::types::{
    ContributionModel, ContributionStatus, ContributionType, ExecutionModel, GovernanceConfig,
    MemberModel, ProposalExecutedEventModel, ProposalModel, ProposalStatus, ProposalTypeModel,
    RoleConfigModel, TransferModel, TreasuryFund, TreasuryModel, VoteModel, VoteType,
};
use crate::text::{decimal_text, parse_unsigned};
use vstd::prelude::*;

verus! {

/// The least deposit that a new engine asks of a proposal.
pub const MIN_PROPOSAL_DEPOSIT: u128 = 100_000_000_000_000_000_000_000_000;

/// The length of the voting window of a new engine, in nanoseconds: seven days.
pub const VOTING_PERIOD: u64 = 604_800_000_000_000;

/// The delay between success and execution in a new engine, in nanoseconds: a day.
pub const EXECUTION_DELAY: u64 = 86_400_000_000_000;

/// The quorum of a new engine, in basis points of the total voting power.
pub const QUORUM_THRESHOLD: u32 = 1000;

/// The approval threshold of a new engine, in basis points of the votes for and against.
pub const APPROVAL_THRESHOLD: u32 = 5000;

/// The number of active proposals that a new engine allows a member at a time.
pub const MAX_PROPOSALS_PER_MEMBER: u32 = 5;

/// The total voting power that the engine assumes where no token supply is given.
pub const TOTAL_VOTING_POWER: u128 = 1_000_000_000_000_000_000_000_000_000;

/// The reputation that an approved contribution earns.
pub const APPROVAL_REPUTATION: u32 = 10;

/// The parameters of a new engine.
pub open spec fn default_config() -> GovernanceConfig {
    GovernanceConfig {
        min_proposal_deposit: MIN_PROPOSAL_DEPOSIT,
        voting_period: VOTING_PERIOD,
        execution_delay: EXECUTION_DELAY,
        quorum_threshold: QUORUM_THRESHOLD,
        approval_threshold: APPROVAL_THRESHOLD,
        max_proposals_per_member: MAX_PROPOSALS_PER_MEMBER,
        proposal_fee: 0,
    }
}

/// The identifier of the `n`-th contribution.
pub open spec fn contribution_key(n: nat) -> Seq<char> {
    "contribution-"@ + decimal_text(n)
}

/// What a vote adds to the tally of `side`: its power where it takes that side.
pub open spec fn weight(v: VoteModel, side: VoteType) -> nat {
    if v.support == side {
        v.voting_power as nat
    } else {
        0
    }
}

/// The power of the votes that take `side`.
pub open spec fn tally(votes: Seq<VoteModel>, side: VoteType) -> nat
    decreases votes.len(),
{
    if votes.len() == 0 {
        0
    } else {
        tally(votes.drop_last(), side) + weight(votes.last(), side)
    }
}

/// The power of all votes, abstentions with them.
pub open spec fn turnout(votes: Seq<VoteModel>) -> nat {
    tally(votes, VoteType::For) + tally(votes, VoteType::Against) + tally(votes, VoteType::Abstain)
}

/// The voters of a ballot, in the order of their first vote.
pub open spec fn voters(votes: Seq<VoteModel>) -> Seq<Seq<char>> {
    votes.map_values(|v: VoteModel| v.voter)
}

/// The ballot once `vote` is in it: in the place of the voter's earlier vote, or
/// at the end.
pub open spec fn with_vote(votes: Seq<VoteModel>, vote: VoteModel) -> Seq<VoteModel> {
    if voters(votes).contains(vote.voter) {
        votes.update(position(voters(votes), vote.voter), vote)
    } else {
        votes.push(vote)
    }
}

/// The test for an active proposal of `who`.
pub open spec fn is_active_by(who: Seq<char>) -> spec_fn(ProposalModel) -> bool {
    |p: ProposalModel| p.proposer == who && p.status == ProposalStatus::Active
}

/// The test for an active proposal.
pub open spec fn is_active() -> spec_fn(ProposalModel) -> bool {
    |p: ProposalModel| p.status == ProposalStatus::Active
}

/// The test for a contribution of `who`.
pub open spec fn is_contribution_of(who: Seq<char>) -> spec_fn(ContributionModel) -> bool {
    |c: ContributionModel| c.contributor == who
}

/// The vote that a call of `vote_on_proposal` casts.
pub open spec fn cast_vote(
    voter: Seq<char>,
    proposal_id: u64,
    support: VoteType,
    voting_power: u128,
    reason: Option<Seq<char>>,
    now: u64,
) -> VoteModel {
    VoteModel { proposal_id, voter, support, voting_power, reason, created_at: now }
}

/// Enough of the total voting power took part.
pub open spec fn quorum_met(total_votes: nat, total_power: nat, quorum_bps: nat) -> bool {
    (total_votes * 10000) / total_power >= quorum_bps
}

/// Votes were cast for or against, and enough of them are for. Abstentions do
/// not count here: a ballot of abstentions alone has no approval.
pub open spec fn approval_met(votes_for: nat, votes_against: nat, total_votes: nat, approval_bps: nat) -> bool {
    total_votes > 0 && votes_for + votes_against > 0 && (votes_for * 10000) / (votes_for + votes_against)
        >= approval_bps
}

/// The proposal has its quorum and its approval.
pub open spec fn passes(p: ProposalModel, config: GovernanceConfig, total_power: nat) -> bool {
    quorum_met(p.total_votes as nat, total_power, config.quorum_threshold as nat) && approval_met(
        p.votes_for as nat,
        p.votes_against as nat,
        p.total_votes as nat,
        config.approval_threshold as nat,
    )
}

/// The list once `amount` is added under `name`.
pub open spec fn credited(s: Seq<(Seq<char>, u128)>, name: Seq<char>, amount: u128) -> Seq<(Seq<char>, u128)> {
    if names(s).contains(name) {
        s.update(position(names(s), name), (name, (amount_of(s, name) + amount) as u128))
    } else {
        s.push((name, amount))
    }
}

/// The fund that a token name stands for.
pub open spec fn fund_of_token(token: Seq<char>) -> Option<TreasuryFund> {
    if token == "VOICE"@ {
        Some(TreasuryFund::Voice)
    } else if token == "NEAR"@ {
        Some(TreasuryFund::Near)
    } else {
        None
    }
}

impl TreasuryModel {
    /// The balance of `fund`.
    pub open spec fn balance(self, fund: TreasuryFund) -> u128 {
        match fund {
            TreasuryFund::Near => self.near_balance,
            TreasuryFund::Voice => self.voice_balance,
        }
    }

    /// The treasury once `amount` has left `fund`; `amount` is no more than its balance.
    pub open spec fn debited(self, fund: TreasuryFund, amount: u128) -> TreasuryModel {
        match fund {
            TreasuryFund::Near => TreasuryModel {
                near_balance: (self.near_balance - amount) as u128,
                total_spent: (self.total_spent + amount) as u128,
                ..self
            },
            TreasuryFund::Voice => TreasuryModel {
                voice_balance: (self.voice_balance - amount) as u128,
                total_spent: (self.total_spent + amount) as u128,
                ..self
            },
        }
    }

    /// The treasury once `amount` has left `fund` and is booked under `category`.
    pub open spec fn spent(self, fund: TreasuryFund, amount: u128, category: Seq<char>) -> TreasuryModel {
        TreasuryModel {
            spending_categories: credited(self.spending_categories, category, amount),
            ..self.debited(fund, amount)
        }
    }

    /// Booking `amount` under `category` would take a total out of range.
    pub open spec fn spend_overflows(self, amount: u128, category: Seq<char>) -> bool {
        self.total_spent + amount > u128::MAX || amount_of(self.spending_categories, category) + amount
            > u128::MAX
    }
}

/// The record of a member that has just come in.
pub open spec fn new_member(id: Seq<char>, roles: Seq<Seq<char>>, now: u64) -> MemberModel {
    MemberModel {
        account_id: id,
        roles,
        voting_power: 0,
        contributions: 0,
        reputation: 0,
        joined_at: now,
        last_active: now,
        delegated_to: None,
        delegated_power: 0,
    }
}

/// The roles that a new engine knows.
pub open spec fn default_roles() -> Seq<(Seq<char>, RoleConfigModel)> {
    seq![
        (
            "founder"@,
            RoleConfigModel {
                name: "Founder"@,
                description: "Founding member with full privileges"@,
                permissions: seq!["all"@],
                min_voting_power: 0,
                max_members: Some(10u32),
            },
        ),
        (
            "council"@,
            RoleConfigModel {
                name: "Council"@,
                description: "Council member with executive privileges"@,
                permissions: seq!["execute"@, "review"@, "moderate"@],
                min_voting_power: 1_000_000_000_000_000_000_000_000_000,
                max_members: Some(21u32),
            },
        ),
        (
            "core"@,
            RoleConfigModel {
                name: "Core Contributor"@,
                description: "Core contributor with elevated privileges"@,
                permissions: seq!["propose"@, "review"@],
                min_voting_power: 100_000_000_000_000_000_000_000_000,
                max_members: None,
            },
        ),
        (
            "member"@,
            RoleConfigModel {
                name: "Member"@,
                description: "Regular DAO member"@,
                permissions: seq!["vote"@, "propose"@],
                min_voting_power: 0,
                max_members: None,
            },
        ),
    ]
}

/// The keys of a list of roles.
pub open spec fn role_keys(s: Seq<(Seq<char>, RoleConfigModel)>) -> Seq<Seq<char>> {
    s.map_values(|e: (Seq<char>, RoleConfigModel)| e.0)
}

/// The delegators of a list of delegations.
pub open spec fn delegators(s: Seq<(Seq<char>, Seq<char>)>) -> Seq<Seq<char>> {
    s.map_values(|e: (Seq<char>, Seq<char>)| e.0)
}

/// The account identifiers of a list of members.
pub open spec fn member_ids(s: Seq<MemberModel>) -> Seq<Seq<char>> {
    s.map_values(|m: MemberModel| m.account_id)
}

/// The identifiers of a list of contributions.
pub open spec fn contribution_ids(s: Seq<ContributionModel>) -> Seq<Seq<char>> {
    s.map_values(|c: ContributionModel| c.id)
}

/// What the execution of a payload comes to, before the proposal is marked.
#[verifier::ext_equal]
pub struct PayloadEffect {
    /// A total would leave its range: the call fails.
    pub overflow: bool,
    /// The payload took effect.
    pub success: bool,
    /// The engine after the payload.
    pub state: DaoModel,
    /// The funds that the payload released.
    pub transfer: Option<TransferModel>,
}

/// The proposal `p` at place `i` and its ballot `b` agree: the identifier is
/// `i + 1`, the window ends after it starts, no voter is in the ballot
/// twice, each vote is on this proposal, and each tally is the power of the
/// votes of its side.
pub open spec fn agrees(p: ProposalModel, b: Seq<VoteModel>, i: int) -> bool {
    &&& p.id == i + 1
    &&& p.voting_starts_at < p.voting_ends_at
    &&& voters(b).no_duplicates()
    &&& forall|k: int| 0 <= k < b.len() ==> (#[trigger] b[k]).proposal_id == p.id
    &&& p.votes_for == tally(b, VoteType::For)
    &&& p.votes_against == tally(b, VoteType::Against)
    &&& p.votes_abstain == tally(b, VoteType::Abstain)
    &&& p.total_votes == turnout(b)
}

/// The engine as a mathematical value.
#[verifier::ext_equal]
pub struct DaoModel {
    /// The proposals by identifier: the proposal at place `i` has identifier `i + 1`.
    pub proposals: Seq<ProposalModel>,
    /// The ballot of each proposal, in the place of the proposal.
    pub ballots: Seq<Seq<VoteModel>>,
    pub members: Seq<MemberModel>,
    pub contributions: Seq<ContributionModel>,
    pub treasury: TreasuryModel,
    pub voice_token_contract: Seq<char>,
    pub owner: Seq<char>,
    pub council: Seq<Seq<char>>,
    pub proposal_counter: u64,
    pub contribution_counter: u64,
    pub governance_config: GovernanceConfig,
    pub roles: Seq<(Seq<char>, RoleConfigModel)>,
    pub delegations: Seq<(Seq<char>, Seq<char>)>,
    pub paused: bool,
}

impl DaoModel {
    // ----- what holds of every engine -----

    /// The proposal at place `i` and its ballot agree: see [`agrees`].
    pub open spec fn proposal_ok(self, i: int) -> bool {
        agrees(self.proposals[i], self.ballots[i], i)
    }

    /// The engine is well formed.
    pub open spec fn wf(self) -> bool {
        &&& self.governance_config.voting_period > 0
        &&& self.proposals.len() == self.proposal_counter
        &&& self.ballots.len() == self.proposals.len()
        &&& forall|i: int| 0 <= i < self.proposals.len() ==> #[trigger] self.proposal_ok(i)
        &&& member_ids(self.members).no_duplicates()
        &&& forall|i: int|
            0 <= i < self.members.len() ==> (#[trigger] self.members[i]).delegated_to != Some(
                self.members[i].account_id,
            )
        &&& self.council.no_duplicates()
        &&& delegators(self.delegations).no_duplicates()
        &&& forall|i: int| 0 <= i < self.delegations.len() ==> (#[trigger] self.delegations[i]).0 != self.delegations[i].1
        &&& self.contributions.len() == self.contribution_counter
        &&& forall|i: int|
            0 <= i < self.contributions.len() ==> (#[trigger] self.contributions[i]).id == contribution_key(
                (i + 1) as nat,
            )
        &&& role_keys(self.roles).no_duplicates()
        &&& names(self.treasury.spending_categories).no_duplicates()
        &&& names(self.treasury.other_tokens).no_duplicates()
    }

    // ----- lookups -----

    /// `id` is the identifier of a proposal.
    pub open spec fn has_proposal(self, id: u64) -> bool {
        1 <= id <= self.proposals.len()
    }

    /// The proposal with identifier `id`.
    pub open spec fn proposal(self, id: u64) -> ProposalModel {
        self.proposals[id - 1]
    }

    /// The ballot of the proposal with identifier `id`.
    pub open spec fn ballot(self, id: u64) -> Seq<VoteModel> {
        self.ballots[id - 1]
    }

    /// `who` is a member.
    pub open spec fn is_member(self, who: Seq<char>) -> bool {
        member_ids(self.members).contains(who)
    }

    /// The record of the member `who`.
    pub open spec fn member(self, who: Seq<char>) -> MemberModel {
        self.members[position(member_ids(self.members), who)]
    }

    /// `who` sits on the council.
    pub open spec fn is_council_member(self, who: Seq<char>) -> bool {
        self.council.contains(who)
    }

    /// `who` may execute proposals: a council member or the owner.
    pub open spec fn may_execute(self, who: Seq<char>) -> bool {
        self.council.contains(who) || who == self.owner
    }

    /// There is a contribution with identifier `id`.
    pub open spec fn has_contribution(self, id: Seq<char>) -> bool {
        contribution_ids(self.contributions).contains(id)
    }

    /// The contribution with identifier `id`.
    pub open spec fn contribution(self, id: Seq<char>) -> ContributionModel {
        self.contributions[position(contribution_ids(self.contributions), id)]
    }

    /// The voting power that the engine itself knows of `who`: what others have
    /// delegated to it, 0 for one who is no member.
    pub open spec fn voting_power(self, who: Seq<char>) -> u128 {
        if self.is_member(who) {
            self.member(who).delegated_power
        } else {
            0
        }
    }

    // ----- pieces of the next state -----

    /// The engine with the proposal `id` replaced by `p`.
    pub open spec fn with_proposal(self, id: u64, p: ProposalModel) -> DaoModel {
        DaoModel { proposals: self.proposals.update(id - 1, p), ..self }
    }

    /// The engine with the record of the member `who` replaced by `m`.
    pub open spec fn with_member(self, who: Seq<char>, m: MemberModel) -> DaoModel {
        DaoModel { members: self.members.update(position(member_ids(self.members), who), m), ..self }
    }

    /// The engine with a new member at the end of the members.
    pub open spec fn with_new_member(self, who: Seq<char>, roles: Seq<Seq<char>>, now: u64) -> DaoModel {
        DaoModel { members: self.members.push(new_member(who, roles, now)), ..self }
    }

    /// The engine without the member `who`: the last member takes its place.
    pub open spec fn without_member(self, who: Seq<char>) -> DaoModel {
        DaoModel {
            members: swap_removed(self.members, position(member_ids(self.members), who)),
            ..self
        }
    }

    /// The engine with the member `who`, if there is one, seen active at `now`.
    pub open spec fn touched(self, who: Seq<char>, now: u64) -> DaoModel {
        if self.is_member(who) {
            self.with_member(who, MemberModel { last_active: now, ..self.member(who) })
        } else {
            self
        }
    }

    // ----- create_proposal -----

    /// The proposal that `create_proposal` makes.
    pub open spec fn created_proposal(
        self,
        proposer: Seq<char>,
        title: Seq<char>,
        description: Seq<char>,
        proposal_type: ProposalTypeModel,
        tags: Seq<Seq<char>>,
        deposit: u128,
        now: u64,
    ) -> ProposalModel {
        ProposalModel {
            id: (self.proposal_counter + 1) as u64,
            title,
            description,
            proposer,
            proposal_type,
            status: ProposalStatus::Active,
            votes_for: 0,
            votes_against: 0,
            votes_abstain: 0,
            total_votes: 0,
            created_at: now,
            voting_starts_at: now,
            voting_ends_at: (now + self.governance_config.voting_period) as u64,
            execution_eta: 0,
            deposit,
            tags,
            attachments: Seq::empty(),
        }
    }

    /// Why `create_proposal` fails, if it does.
    pub open spec fn create_proposal_error(self, proposer: Seq<char>, deposit: u128, now: u64) -> Option<DaoError> {
        if self.paused {
            Some(DaoError::EnginePaused)
        } else if !self.is_member(proposer) {
            Some(DaoError::Unauthorized)
        } else if deposit < self.governance_config.min_proposal_deposit {
            Some(DaoError::InsufficientDeposit)
        } else if self.proposals.filter(is_active_by(proposer)).len()
            >= self.governance_config.max_proposals_per_member {
            Some(DaoError::TooManyActiveProposals)
        } else if self.proposal_counter == u64::MAX || now + self.governance_config.voting_period > u64::MAX {
            Some(DaoError::ArithmeticOverflow)
        } else {
            None
        }
    }

    /// The engine after `create_proposal`.
    pub open spec fn create_proposal_next(self, p: ProposalModel) -> DaoModel {
        DaoModel {
            proposals: self.proposals.push(p),
            ballots: self.ballots.push(Seq::empty()),
            proposal_counter: (self.proposal_counter + 1) as u64,
            ..self
        }
    }

    // ----- vote_on_proposal -----

    /// Why `vote_on_proposal` fails, if it does.
    pub open spec fn vote_error(self, id: u64, vote: VoteModel, now: u64) -> Option<DaoError> {
        if self.paused {
            Some(DaoError::EnginePaused)
        } else if !self.has_proposal(id) {
            Some(DaoError::ProposalNotFound)
        } else if self.proposal(id).status != ProposalStatus::Active {
            Some(DaoError::ProposalNotActive)
        } else if !(self.proposal(id).voting_starts_at <= now <= self.proposal(id).voting_ends_at) {
            Some(DaoError::VotingClosed)
        } else if !self.is_member(vote.voter) {
            Some(DaoError::NotAMember)
        } else if vote.voting_power == 0 {
            Some(DaoError::NoVotingPower)
        } else if turnout(with_vote(self.ballot(id), vote)) > u128::MAX {
            Some(DaoError::ArithmeticOverflow)
        } else {
            None
        }
    }

    /// The engine with `vote` in the ballot of the proposal `id`, in the place of
    /// the voter's earlier vote if there was one, and with the tallies of the
    /// new ballot on the proposal.
    pub open spec fn vote_recorded(self, id: u64, vote: VoteModel) -> DaoModel {
        let b = with_vote(self.ballot(id), vote);
        let p = ProposalModel {
            votes_for: tally(b, VoteType::For) as u128,
            votes_against: tally(b, VoteType::Against) as u128,
            votes_abstain: tally(b, VoteType::Abstain) as u128,
            total_votes: turnout(b) as u128,
            ..self.proposal(id)
        };
        DaoModel { ballots: self.ballots.update(id - 1, b), ..self.with_proposal(id, p) }
    }

    /// The engine after `vote_on_proposal`: the vote is recorded, and the voter
    /// was seen at `now`.
    pub open spec fn vote_next(self, id: u64, vote: VoteModel, now: u64) -> DaoModel {
        self.vote_recorded(id, vote).touched(vote.voter, now)
    }

    // ----- finalize_proposal -----

    /// Why `finalize_proposal` fails, if it does.
    pub open spec fn finalize_error(self, id: u64, now: u64, total_power: u128) -> Option<DaoError> {
        if !self.has_proposal(id) {
            Some(DaoError::ProposalNotFound)
        } else if self.proposal(id).status != ProposalStatus::Active {
            Some(DaoError::ProposalNotActive)
        } else if now <= self.proposal(id).voting_ends_at {
            Some(DaoError::VotingPeriodNotEnded)
        } else if total_power == 0 {
            Some(DaoError::InvalidTotalPower)
        } else if self.proposal(id).total_votes * 10000 > u128::MAX {
            Some(DaoError::ArithmeticOverflow)
        } else if passes(self.proposal(id), self.governance_config, total_power as nat) {
            if now + self.governance_config.execution_delay > u64::MAX {
                Some(DaoError::ArithmeticOverflow)
            } else {
                None
            }
        } else if self.treasury.near_balance + self.proposal(id).deposit > u128::MAX {
            Some(DaoError::ArithmeticOverflow)
        } else {
            None
        }
    }

    /// The engine after `finalize_proposal`: a proposal that passes has succeeded
    /// and may be executed after the delay; any other is defeated, and its
    /// deposit is in the native balance of the treasury.
    pub open spec fn finalize_next(self, id: u64, now: u64, total_power: u128) -> DaoModel {
        let p = self.proposal(id);
        if passes(p, self.governance_config, total_power as nat) {
            self.with_proposal(
                id,
                ProposalModel {
                    status: ProposalStatus::Succeeded,
                    execution_eta: (now + self.governance_config.execution_delay) as u64,
                    ..p
                },
            )
        } else {
            DaoModel {
                treasury: TreasuryModel {
                    near_balance: (self.treasury.near_balance + p.deposit) as u128,
                    ..self.treasury
                },
                ..self.with_proposal(id, ProposalModel { status: ProposalStatus::Defeated, ..p })
            }
        }
    }

    /// The refund that `finalize_proposal` asks for: the whole deposit to the
    /// proposer where the proposal passes, nothing where it is defeated.
    pub open spec fn finalize_refund(self, id: u64, total_power: u128) -> Option<TransferModel> {
        let p = self.proposal(id);
        if passes(p, self.governance_config, total_power as nat) {
            Some(TransferModel { recipient: p.proposer, amount: p.deposit, fund: TreasuryFund::Near })
        } else {
            None
        }
    }

    // ----- queue_proposal -----

    /// Why `queue_proposal` fails, if it does.
    pub open spec fn queue_error(self, id: u64, now: u64) -> Option<DaoError> {
        if !self.has_proposal(id) {
            Some(DaoError::ProposalNotFound)
        } else if self.proposal(id).status != ProposalStatus::Succeeded {
            Some(DaoError::ProposalNotSucceeded)
        } else if now < self.proposal(id).execution_eta {
            Some(DaoError::ExecutionDelayNotMet)
        } else {
            None
        }
    }

    /// The engine after `queue_proposal`.
    pub open spec fn queue_next(self, id: u64) -> DaoModel {
        self.with_proposal(id, ProposalModel { status: ProposalStatus::Queued, ..self.proposal(id) })
    }

    // ----- execute_proposal -----

    /// A payload that changes nothing, with the given outcome.
    pub open spec fn no_effect(self, success: bool) -> PayloadEffect {
        PayloadEffect { overflow: false, success, state: self, transfer: None }
    }

    /// A payload that fails on a total out of range.
    pub open spec fn overflow_effect(self) -> PayloadEffect {
        PayloadEffect { overflow: true, success: false, state: self, transfer: None }
    }

    /// A spend of `amount` from `fund` to `recipient`, booked under `category`:
    /// it takes effect where the fund covers it.
    pub open spec fn spend_effect(
        self,
        fund: TreasuryFund,
        recipient: Seq<char>,
        amount: u128,
        category: Seq<char>,
    ) -> PayloadEffect {
        if self.treasury.balance(fund) < amount {
            self.no_effect(false)
        } else if self.treasury.spend_overflows(amount, category) {
            self.overflow_effect()
        } else {
            PayloadEffect {
                overflow: false,
                success: true,
                state: DaoModel { treasury: self.treasury.spent(fund, amount, category), ..self },
                transfer: Some(TransferModel { recipient, amount, fund }),
            }
        }
    }

    /// A treasury spend: the token names the fund.
    pub open spec fn treasury_effect(
        self,
        recipient: Seq<char>,
        amount: u128,
        token: Seq<char>,
        purpose: Seq<char>,
    ) -> PayloadEffect {
        match fund_of_token(token) {
            Some(fund) => self.spend_effect(fund, recipient, amount, purpose),
            None => self.no_effect(false),
        }
    }

    /// A change of a governance parameter: the voting period and the quorum
    /// threshold can be set, to a value that parses; the voting period to a
    /// positive value only.
    pub open spec fn governance_effect(self, parameter: Seq<char>, new_value: Seq<char>) -> PayloadEffect {
        if parameter == "voting_period"@ {
            match parse_unsigned(new_value, u64::MAX as nat) {
                Some(v) => if v > 0 {
                    PayloadEffect {
                        overflow: false,
                        success: true,
                        state: DaoModel {
                            governance_config: GovernanceConfig {
                                voting_period: v as u64,
                                ..self.governance_config
                            },
                            ..self
                        },
                        transfer: None,
                    }
                } else {
                    self.no_effect(false)
                },
                None => self.no_effect(false),
            }
        } else if parameter == "quorum_threshold"@ {
            match parse_unsigned(new_value, u32::MAX as nat) {
                Some(v) => PayloadEffect {
                    overflow: false,
                    success: true,
                    state: DaoModel {
                        governance_config: GovernanceConfig {
                            quorum_threshold: v as u32,
                            ..self.governance_config
                        },
                        ..self
                    },
                    transfer: None,
                },
                None => self.no_effect(false),
            }
        } else {
            self.no_effect(false)
        }
    }

    /// A change of membership: one who is no member yet is added with the one
    /// role, one who is a member is removed.
    pub open spec fn membership_effect(
        self,
        action: Seq<char>,
        member: Seq<char>,
        role: Seq<char>,
        now: u64,
    ) -> PayloadEffect {
        if action == "add"@ {
            if !self.is_member(member) {
                PayloadEffect {
                    overflow: false,
                    success: true,
                    state: self.with_new_member(member, seq![role], now),
                    transfer: None,
                }
            } else {
                self.no_effect(false)
            }
        } else if action == "remove"@ {
            if self.is_member(member) {
                PayloadEffect {
                    overflow: false,
                    success: true,
                    state: self.without_member(member),
                    transfer: None,
                }
            } else {
                self.no_effect(false)
            }
        } else {
            self.no_effect(false)
        }
    }

    /// What the payload of a proposal does to the engine.
    pub open spec fn payload_effect(self, payload: ProposalTypeModel, now: u64) -> PayloadEffect {
        match payload {
            ProposalTypeModel::Treasury { recipient, amount, token, purpose } => self.treasury_effect(
                recipient,
                amount,
                token,
                purpose,
            ),
            ProposalTypeModel::Governance { parameter, new_value } => self.governance_effect(
                parameter,
                new_value,
            ),
            ProposalTypeModel::Membership { action, member, role } => self.membership_effect(
                action,
                member,
                role,
                now,
            ),
            ProposalTypeModel::Content { .. } => self.no_effect(true),
            ProposalTypeModel::Grant { recipient, amount, category, .. } => self.spend_effect(
                TreasuryFund::Voice,
                recipient,
                amount,
                category,
            ),
            ProposalTypeModel::Contract { .. } | ProposalTypeModel::Partnership { .. } => self.no_effect(
                false,
            ),
        }
    }

    /// Why `execute_proposal` fails, if it does.
    pub open spec fn execute_error(self, executor: Seq<char>, id: u64, now: u64) -> Option<DaoError> {
        if !self.has_proposal(id) {
            Some(DaoError::ProposalNotFound)
        } else if self.proposal(id).status != ProposalStatus::Queued {
            Some(DaoError::ProposalNotQueued)
        } else if !self.may_execute(executor) {
            Some(DaoError::Unauthorized)
        } else if self.payload_effect(self.proposal(id).proposal_type, now).overflow {
            Some(DaoError::ArithmeticOverflow)
        } else {
            None
        }
    }

    /// The engine after `execute_proposal`: the payload has had its effect, and
    /// the proposal is executed where the payload took effect and queued still
    /// where it did not.
    pub open spec fn execute_next(self, id: u64, now: u64) -> DaoModel {
        let effect = self.payload_effect(self.proposal(id).proposal_type, now);
        if effect.success {
            effect.state.with_proposal(
                id,
                ProposalModel { status: ProposalStatus::Executed, ..self.proposal(id) },
            )
        } else {
            self
        }
    }

    /// What `execute_proposal` hands back.
    pub open spec fn execute_output(self, executor: Seq<char>, id: u64, now: u64) -> ExecutionModel {
        let effect = self.payload_effect(self.proposal(id).proposal_type, now);
        ExecutionModel {
            event: ProposalExecutedEventModel {
                proposal_id: id,
                executor,
                success: effect.success,
                result: if effect.success {
                    "Success"@
                } else {
                    "Failed"@
                },
            },
            transfer: effect.transfer,
        }
    }

    // ----- contributions -----

    /// The contribution that `submit_contribution` makes.
    pub open spec fn submitted_contribution(
        self,
        contributor: Seq<char>,
        contribution_type: ContributionType,
        title: Seq<char>,
        description: Seq<char>,
        ipfs_hash: Seq<char>,
        now: u64,
    ) -> ContributionModel {
        ContributionModel {
            id: contribution_key((self.contribution_counter + 1) as nat),
            contributor,
            contribution_type,
            title,
            description,
            ipfs_hash,
            reward_amount: 0,
            status: ContributionStatus::Submitted,
            created_at: now,
            reviewed_at: None,
            reviewer: None,
        }
    }

    /// Why `submit_contribution` fails, if it does.
    pub open spec fn submit_error(self, contributor: Seq<char>) -> Option<DaoError> {
        if self.contribution_counter == u64::MAX || (self.is_member(contributor) && self.member(
            contributor,
        ).contributions == u64::MAX) {
            Some(DaoError::ArithmeticOverflow)
        } else {
            None
        }
    }

    /// The engine after `submit_contribution`.
    pub open spec fn submit_next(self, c: ContributionModel) -> DaoModel {
        let counted = if self.is_member(c.contributor) {
            self.with_member(
                c.contributor,
                MemberModel {
                    contributions: (self.member(c.contributor).contributions + 1) as u64,
                    ..self.member(c.contributor)
                },
            )
        } else {
            self
        };
        DaoModel {
            contributions: self.contributions.push(c),
            contribution_counter: (self.contribution_counter + 1) as u64,
            ..counted
        }
    }

    /// The review pays the reward out: the contribution is approved, the reward is
    /// not zero, and the platform token balance covers it.
    pub open spec fn review_pays(self, approved: bool, reward_amount: u128) -> bool {
        approved && reward_amount > 0 && self.treasury.voice_balance >= reward_amount
    }

    /// Why `review_contribution` fails, if it does.
    pub open spec fn review_error(
        self,
        reviewer: Seq<char>,
        id: Seq<char>,
        approved: bool,
        reward_amount: u128,
    ) -> Option<DaoError> {
        if !self.is_council_member(reviewer) {
            Some(DaoError::Unauthorized)
        } else if !self.has_contribution(id) {
            Some(DaoError::ContributionNotFound)
        } else if self.contribution(id).status != ContributionStatus::Submitted {
            Some(DaoError::ContributionAlreadyReviewed)
        } else if approved && self.is_member(self.contribution(id).contributor) && self.member(
            self.contribution(id).contributor,
        ).reputation + APPROVAL_REPUTATION > u32::MAX {
            Some(DaoError::ArithmeticOverflow)
        } else if self.review_pays(approved, reward_amount) && self.treasury.total_spent + reward_amount
            > u128::MAX {
            Some(DaoError::ArithmeticOverflow)
        } else {
            None
        }
    }

    /// The engine after `review_contribution`.
    pub open spec fn review_next(
        self,
        reviewer: Seq<char>,
        id: Seq<char>,
        approved: bool,
        reward_amount: u128,
        now: u64,
    ) -> DaoModel {
        let c = self.contribution(id);
        let reviewed = ContributionModel {
            status: if approved {
                ContributionStatus::Approved
            } else {
                ContributionStatus::Rejected
            },
            reward_amount,
            reviewed_at: Some(now),
            reviewer: Some(reviewer),
            ..c
        };
        let recorded = DaoModel {
            contributions: self.contributions.update(
                position(contribution_ids(self.contributions), id),
                reviewed,
            ),
            ..self
        };
        let reputed = if approved && self.is_member(c.contributor) {
            recorded.with_member(
                c.contributor,
                MemberModel {
                    reputation: (self.member(c.contributor).reputation + APPROVAL_REPUTATION) as u32,
                    ..self.member(c.contributor)
                },
            )
        } else {
            recorded
        };
        if self.review_pays(approved, reward_amount) {
            DaoModel { treasury: self.treasury.debited(TreasuryFund::Voice, reward_amount), ..reputed }
        } else {
            reputed
        }
    }

    /// The reward that `review_contribution` asks to be paid, if any.
    pub open spec fn review_reward(self, id: Seq<char>, approved: bool, reward_amount: u128) -> Option<
        TransferModel,
    > {
        if self.review_pays(approved, reward_amount) {
            Some(
                TransferModel {
                    recipient: self.contribution(id).contributor,
                    amount: reward_amount,
                    fund: TreasuryFund::Voice,
                },
            )
        } else {
            None
        }
    }

    // ----- members and delegation -----

    /// The engine after `delegate_voting_power`: the one outgoing edge of the
    /// delegator leads to the delegate.
    pub open spec fn delegate_next(self, delegator: Seq<char>, delegate: Seq<char>) -> DaoModel {
        let d = delegators(self.delegations);
        DaoModel {
            delegations: if d.contains(delegator) {
                self.delegations.update(position(d, delegator), (delegator, delegate))
            } else {
                self.delegations.push((delegator, delegate))
            },
            ..self
        }
    }

    /// Why `delegate_voting_power` fails, if it does.
    pub open spec fn delegate_error(self, delegator: Seq<char>, delegate: Seq<char>) -> Option<DaoError> {
        if !self.is_member(delegator) {
            Some(DaoError::NotAMember)
        } else if !self.is_member(delegate) {
            Some(DaoError::DelegateNotMember)
        } else if delegator == delegate {
            Some(DaoError::SelfDelegation)
        } else {
            None
        }
    }

    /// The engine after `undelegate_voting_power`: the delegator has no outgoing edge.
    pub open spec fn undelegate_next(self, delegator: Seq<char>) -> DaoModel {
        let d = delegators(self.delegations);
        if d.contains(delegator) {
            DaoModel { delegations: swap_removed(self.delegations, position(d, delegator)), ..self }
        } else {
            self
        }
    }

    /// The account that `who` has delegated to, if any.
    pub open spec fn delegate_of(self, who: Seq<char>) -> Option<Seq<char>> {
        let d = delegators(self.delegations);
        if d.contains(who) {
            Some(self.delegations[position(d, who)].1)
        } else {
            None
        }
    }

    // ----- treasury and administration -----

    /// The engine after `contribute_to_treasury`.
    pub open spec fn contribute_next(self, amount: u128) -> DaoModel {
        DaoModel {
            treasury: TreasuryModel {
                near_balance: (self.treasury.near_balance + amount) as u128,
                available_funds: (self.treasury.available_funds + amount) as u128,
                ..self.treasury
            },
            ..self
        }
    }

    /// The engine with `member` on the council.
    pub open spec fn with_council_member(self, member: Seq<char>) -> DaoModel {
        if self.council.contains(member) {
            self
        } else {
            DaoModel { council: self.council.push(member), ..self }
        }
    }

    /// The engine with `member` off the council: the last council member takes
    /// its place.
    pub open spec fn without_council_member(self, member: Seq<char>) -> DaoModel {
        if self.council.contains(member) {
            DaoModel { council: swap_removed(self.council, position(self.council, member)), ..self }
        } else {
            self
        }
    }

    /// A new engine: no proposal, no contribution, an empty treasury, the default
    /// parameters and roles; the owner is its one member, a founder, and sits on
    /// the council.
    pub open spec fn initial(owner: Seq<char>, voice_token_contract: Seq<char>, now: u64) -> DaoModel {
        DaoModel {
            proposals: Seq::empty(),
            ballots: Seq::empty(),
            members: seq![new_member(owner, seq!["founder"@], now)],
            contributions: Seq::empty(),
            treasury: TreasuryModel {
                voice_balance: 0,
                near_balance: 0,
                other_tokens: Seq::empty(),
                allocated_funds: 0,
                available_funds: 0,
                total_spent: 0,
                spending_categories: Seq::empty(),
            },
            voice_token_contract,
            owner,
            council: seq![owner],
            proposal_counter: 0,
            contribution_counter: 0,
            governance_config: default_config(),
            roles: default_roles(),
            delegations: Seq::empty(),
            paused: false,
        }
    }
}

} // verus!
