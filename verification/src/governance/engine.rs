//! The engine itself: the state it keeps and the calls that change it. Every
//! call either succeeds and leaves the engine as its contract says, or fails
//! with the reason and leaves the engine as it was.

use crate::governance::error::DaoError;
use crate::keyed::{
    contains_key, distinct_keys, find, keys_of, lemma_position, lemma_push_fresh,
    lemma_swap_removed, page, swap_removed,
};
use crate::governance::model::{
    agrees, cast_vote, contribution_ids, contribution_key, credited, default_roles, delegators,
    is_active, is_active_by, is_contribution_of, member_ids, new_member, passes, role_keys,
    tally, turnout, voters, weight, with_vote, DaoModel, APPROVAL_REPUTATION, APPROVAL_THRESHOLD,
    EXECUTION_DELAY, MAX_PROPOSALS_PER_MEMBER, MIN_PROPOSAL_DEPOSIT, QUORUM_THRESHOLD,
    TOTAL_VOTING_POWER, VOTING_PERIOD,
};
use crate::governance::preserve::{
    lemma_tally_prefix, lemma_contribution_ids_distinct, lemma_create_wf, lemma_delegate_wf,
    lemma_review_wf, lemma_same_tables_wf_contributions, lemma_submit_wf, lemma_undelegate_wf,
    lemma_execute_wf, lemma_new_member_wf, lemma_payload_effect_wf, lemma_spend_effect_wf,
    lemma_same_tables_wf, lemma_tally_with_vote, lemma_touched_wf, lemma_vote_wf,
    lemma_with_proposal_wf,
};
use crate::governance::types::{
    ballot_models, contribution_models, delegation_pairs, member_models, opt_transfer,
    proposal_models, role_pairs, vote_models, Contribution, ContributionModel, ContributionStatus,
    ContributionType, DAOStats, Delegation, Execution, GovernanceConfig, Member, MemberModel,
    Proposal, ProposalCreatedEvent, ProposalCreatedEventModel, ProposalExecutedEvent, ProposalModel,
    ProposalStatus, ProposalType, ProposalTypeModel, RoleConfig, RoleEntry, Transfer, TransferModel,
    Treasury, TreasuryFund, Vote, VoteCastEvent, VoteCastEventModel, VoteModel, VoteType,
};
use crate::account::AccountId;
use crate::ledger::NamedAmount;
use crate::text::{
    clone_opt_string, clone_strings, opt_text, parse_u32, parse_u64, texts, u64_to_string,
};
use crate::ledger::names;
use vstd::prelude::*;
use vstd::string::*;

verus! {

/// The governance engine.
pub struct VoiceDAO {
    proposals: Vec<Proposal>,
    votes: Vec<Vec<Vote>>,
    members: Vec<Member>,
    contributions: Vec<Contribution>,
    treasury: Treasury,
    voice_token_contract: AccountId,
    owner: AccountId,
    council: Vec<AccountId>,
    proposal_counter: u64,
    contribution_counter: u64,
    governance_config: GovernanceConfig,
    roles: Vec<RoleEntry>,
    delegations: Vec<Delegation>,
    paused: bool,
}

impl View for VoiceDAO {
    type V = DaoModel;

    closed spec fn view(&self) -> DaoModel {
        DaoModel {
            proposals: proposal_models(self.proposals@),
            ballots: ballot_models(self.votes@),
            members: member_models(self.members@),
            contributions: contribution_models(self.contributions@),
            treasury: self.treasury@,
            voice_token_contract: self.voice_token_contract@,
            owner: self.owner@,
            council: texts(self.council@),
            proposal_counter: self.proposal_counter,
            contribution_counter: self.contribution_counter,
            governance_config: self.governance_config,
            roles: role_pairs(self.roles@),
            delegations: delegation_pairs(self.delegations@),
            paused: self.paused,
        }
    }
}

/// The whole state of an engine as plain records, for keeping it between calls.
/// Not every such value is the state of an engine: see [`DaoModel::wf`].
#[derive(Debug)]
pub struct DaoSnapshot {
    pub proposals: Vec<Proposal>,
    pub votes: Vec<Vec<Vote>>,
    pub members: Vec<Member>,
    pub contributions: Vec<Contribution>,
    pub treasury: Treasury,
    pub voice_token_contract: AccountId,
    pub owner: AccountId,
    pub council: Vec<AccountId>,
    pub proposal_counter: u64,
    pub contribution_counter: u64,
    pub governance_config: GovernanceConfig,
    pub roles: Vec<RoleEntry>,
    pub delegations: Vec<Delegation>,
    pub paused: bool,
}

impl View for DaoSnapshot {
    type V = DaoModel;

    open spec fn view(&self) -> DaoModel {
        DaoModel {
            proposals: proposal_models(self.proposals@),
            ballots: ballot_models(self.votes@),
            members: member_models(self.members@),
            contributions: contribution_models(self.contributions@),
            treasury: self.treasury@,
            voice_token_contract: self.voice_token_contract@,
            owner: self.owner@,
            council: texts(self.council@),
            proposal_counter: self.proposal_counter,
            contribution_counter: self.contribution_counter,
            governance_config: self.governance_config,
            roles: role_pairs(self.roles@),
            delegations: delegation_pairs(self.delegations@),
            paused: self.paused,
        }
    }
}

/// The power of the votes of `ballot` that take `side`, where it is in range.
fn ballot_tally(ballot: &Vec<Vote>, side: VoteType) -> (r: Option<u128>)
    ensures
        match r {
            Some(x) => x == tally(vote_models(ballot@), side),
            None => tally(vote_models(ballot@), side) > u128::MAX,
        },
{
    let ghost all = vote_models(ballot@);
    let mut acc: u128 = 0;
    let mut k: usize = 0;
    assert(all.subrange(0, 0) =~= Seq::<VoteModel>::empty());
    while k < ballot.len()
        invariant
            k <= ballot.len(),
            all == vote_models(ballot@),
            acc == tally(all.subrange(0, k as int), side),
        decreases ballot.len() - k,
    {
        proof {
            assert(all.subrange(0, k + 1).drop_last() =~= all.subrange(0, k as int));
            lemma_tally_prefix(all, k + 1, side);
        }
        if ballot[k].support == side {
            match acc.checked_add(ballot[k].voting_power) {
                Some(x) => {
                    acc = x;
                },
                None => {
                    return None;
                },
            }
        }
        k += 1;
    }
    assert(all.subrange(0, k as int) =~= all);
    Some(acc)
}

/// Whether the proposal `p` at place `place` and its ballot agree.
fn ballot_agrees(p: &Proposal, ballot: &Vec<Vote>, place: usize) -> (ok: bool)
    ensures
        ok == agrees(p@, vote_models(ballot@), place as int),
{
    let ghost b = vote_models(ballot@);
    if place as u64 >= u64::MAX || p.id != place as u64 + 1 {
        return false;
    }
    if p.voting_starts_at >= p.voting_ends_at {
        return false;
    }
    proof {
        assert(keys_of(ballot@) =~= voters(b));
    }
    if !distinct_keys(ballot) {
        return false;
    }
    let mut k: usize = 0;
    while k < ballot.len()
        invariant
            k <= ballot.len(),
            b == vote_models(ballot@),
            forall|j: int| 0 <= j < k ==> (#[trigger] b[j]).proposal_id == p.id,
        decreases ballot.len() - k,
    {
        if ballot[k].proposal_id != p.id {
            assert(b[k as int].proposal_id != p.id);
            return false;
        }
        k += 1;
    }
    let votes_for = ballot_tally(ballot, VoteType::For);
    let votes_against = ballot_tally(ballot, VoteType::Against);
    let votes_abstain = ballot_tally(ballot, VoteType::Abstain);
    match (votes_for, votes_against, votes_abstain) {
        (Some(f), Some(a), Some(n)) => {
            if p.votes_for != f || p.votes_against != a || p.votes_abstain != n {
                return false;
            }
            match f.checked_add(a) {
                Some(fa) => match fa.checked_add(n) {
                    Some(total) => p.total_votes == total,
                    None => false,
                },
                None => false,
            }
        },
        _ => false,
    }
}

impl DaoSnapshot {
    /// Whether the state is that of an engine: see [`DaoModel::wf`].
    pub fn is_well_formed(&self) -> (ok: bool)
        ensures
            ok == self@.wf(),
    {
        let ghost s = self@;
        proof {
            assert(keys_of(self.members@) =~= member_ids(s.members));
            assert(keys_of(self.council@) =~= s.council);
            assert(keys_of(self.delegations@) =~= delegators(s.delegations));
            assert(keys_of(self.roles@) =~= role_keys(s.roles));
            assert(keys_of(self.treasury.spending_categories@) =~= names(s.treasury.spending_categories));
            assert(keys_of(self.treasury.other_tokens@) =~= names(s.treasury.other_tokens));
        }
        if self.governance_config.voting_period == 0 {
            return false;
        }
        let n: usize = self.proposals.len();
        if n as u64 != self.proposal_counter || self.votes.len() != n {
            return false;
        }
        let mut i: usize = 0;
        while i < n
            invariant
                i <= n,
                n == self.proposals.len(),
                n == self.votes.len(),
                s == self@,
                forall|j: int| 0 <= j < i ==> #[trigger] s.proposal_ok(j),
            decreases n - i,
        {
            if !ballot_agrees(&self.proposals[i], &self.votes[i], i) {
                assert(!s.proposal_ok(i as int));
                return false;
            }
            i += 1;
        }
        if !distinct_keys(&self.members) || !distinct_keys(&self.council) || !distinct_keys(
            &self.delegations,
        ) || !distinct_keys(&self.roles) || !distinct_keys(&self.treasury.spending_categories)
            || !distinct_keys(&self.treasury.other_tokens) {
            return false;
        }
        let mut m: usize = 0;
        while m < self.members.len()
            invariant
                m <= self.members.len(),
                s == self@,
                forall|j: int|
                    0 <= j < m ==> (#[trigger] s.members[j]).delegated_to != Some(s.members[j].account_id),
            decreases self.members.len() - m,
        {
            match &self.members[m].delegated_to {
                Some(to) => {
                    if *to == self.members[m].account_id {
                        assert(s.members[m as int].delegated_to == Some(s.members[m as int].account_id));
                        return false;
                    }
                },
                None => {},
            }
            m += 1;
        }
        let mut d: usize = 0;
        while d < self.delegations.len()
            invariant
                d <= self.delegations.len(),
                s == self@,
                forall|j: int| 0 <= j < d ==> (#[trigger] s.delegations[j]).0 != s.delegations[j].1,
            decreases self.delegations.len() - d,
        {
            if self.delegations[d].delegator == self.delegations[d].delegate {
                assert(s.delegations[d as int].0 == s.delegations[d as int].1);
                return false;
            }
            d += 1;
        }
        let count: usize = self.contributions.len();
        if count as u64 != self.contribution_counter {
            return false;
        }
        let mut c: usize = 0;
        while c < count
            invariant
                c <= count,
                count == self.contributions.len(),
                count == self.contribution_counter,
                s == self@,
                forall|j: int|
                    0 <= j < c ==> (#[trigger] s.contributions[j]).id == contribution_key((j + 1) as nat),
            decreases count - c,
        {
            let expected = VoiceDAO::contribution_id(c as u64 + 1);
            if !(self.contributions[c].id == expected) {
                assert(s.contributions[c as int].id != contribution_key((c + 1) as nat));
                return false;
            }
            c += 1;
        }
        true
    }
}

/// The role with the given texts.
fn make_role(
    key: &str,
    name: &str,
    description: &str,
    permissions: Vec<String>,
    min_voting_power: u128,
    max_members: Option<u32>,
) -> (e: RoleEntry)
    ensures
        e.key@ == key@,
        e.config@.name == name@,
        e.config@.description == description@,
        e.config@.permissions == texts(permissions@),
        e.config@.min_voting_power == min_voting_power,
        e.config@.max_members == max_members,
{
    RoleEntry {
        key: String::from_str(key),
        config: RoleConfig {
            name: String::from_str(name),
            description: String::from_str(description),
            permissions,
            min_voting_power,
            max_members,
        },
    }
}

/// The four role keys differ from one another.
proof fn lemma_default_roles_distinct()
    ensures
        role_keys(default_roles()).no_duplicates(),
{
    reveal_strlit("founder");
    reveal_strlit("council");
    reveal_strlit("core");
    reveal_strlit("member");
    let k = role_keys(default_roles());
    assert(k[0] == "founder"@ && k[1] == "council"@ && k[2] == "core"@ && k[3] == "member"@);
    assert(k[0][0] == 'f' && k[1][0] == 'c' && k[2][0] == 'c' && k[3][0] == 'm');
    assert(k[0].len() == 7 && k[1].len() == 7 && k[2].len() == 4 && k[3].len() == 6);
}

impl VoiceDAO {
    /// The engine is well formed: see [`DaoModel::wf`].
    pub open spec fn wf(&self) -> bool {
        self@.wf()
    }

    proof fn lemma_keys(&self)
        ensures
            keys_of(self.members@) == member_ids(self@.members),
            keys_of(self.council@) == self@.council,
            keys_of(self.delegations@) == delegators(self@.delegations),
            keys_of(self.roles@) == role_keys(self@.roles),
            keys_of(self.treasury.spending_categories@) == names(self@.treasury.spending_categories),
    {
        assert(keys_of(self.members@) =~= member_ids(self@.members));
        assert(keys_of(self.council@) =~= self@.council);
        assert(keys_of(self.delegations@) =~= delegators(self@.delegations));
        assert(keys_of(self.roles@) =~= role_keys(self@.roles));
        assert(keys_of(self.treasury.spending_categories@) =~= names(self@.treasury.spending_categories));
    }

    /// A new engine, owned by `owner`, at time `now`.
    pub fn new(owner: AccountId, voice_token_contract: AccountId, now: u64) -> (dao: Self)
        ensures
            dao@ == DaoModel::initial(owner@, voice_token_contract@, now),
            dao.wf(),
    {
        let mut dao = VoiceDAO {
            proposals: Vec::new(),
            votes: Vec::new(),
            members: Vec::new(),
            contributions: Vec::new(),
            treasury: Treasury {
                voice_balance: 0,
                near_balance: 0,
                other_tokens: Vec::new(),
                allocated_funds: 0,
                available_funds: 0,
                total_spent: 0,
                spending_categories: Vec::new(),
            },
            voice_token_contract,
            owner: owner.clone(),
            council: Vec::new(),
            proposal_counter: 0,
            contribution_counter: 0,
            governance_config: GovernanceConfig {
                min_proposal_deposit: MIN_PROPOSAL_DEPOSIT,
                voting_period: VOTING_PERIOD,
                execution_delay: EXECUTION_DELAY,
                quorum_threshold: QUORUM_THRESHOLD,
                approval_threshold: APPROVAL_THRESHOLD,
                max_proposals_per_member: MAX_PROPOSALS_PER_MEMBER,
                proposal_fee: 0,
            },
            roles: Vec::new(),
            delegations: Vec::new(),
            paused: false,
        };
        dao.initialize_roles();
        let mut roles: Vec<String> = Vec::new();
        roles.push(String::from_str("founder"));
        assert(texts(roles@) =~= seq!["founder"@]);
        dao.add_member(owner.clone(), roles, now);
        assert(dao.council@.len() == texts(dao.council@).len());
        assert(dao.members@.len() == member_models(dao.members@).len());
        dao.council.push(owner);
        proof {
            let m = DaoModel::initial(owner@, voice_token_contract@, now);
            assert(dao@.members =~= m.members);
            assert(dao@.council =~= m.council);
            assert(dao@.proposals =~= m.proposals);
            assert(dao@.ballots =~= m.ballots);
            assert(dao@.contributions =~= m.contributions);
            assert(dao@.delegations =~= m.delegations);
            assert(dao@.treasury.other_tokens =~= m.treasury.other_tokens);
            assert(dao@.treasury.spending_categories =~= m.treasury.spending_categories);
            assert(dao@ =~= m);
            lemma_default_roles_distinct();
            assert(member_ids(m.members) =~= seq![owner@]);
        }
        dao
    }

    /// Sets the roles that a new engine knows.
    fn initialize_roles(&mut self)
        requires
            old(self).roles@.len() == 0,
        ensures
            final(self)@ == (DaoModel { roles: default_roles(), ..old(self)@ }),
    {
        let mut all: Vec<String> = Vec::new();
        all.push(String::from_str("all"));
        assert(texts(all@) =~= seq!["all"@]);
        self.roles.push(
            make_role("founder", "Founder", "Founding member with full privileges", all, 0, Some(10)),
        );
        let mut executive: Vec<String> = Vec::new();
        executive.push(String::from_str("execute"));
        executive.push(String::from_str("review"));
        executive.push(String::from_str("moderate"));
        assert(texts(executive@) =~= seq!["execute"@, "review"@, "moderate"@]);
        self.roles.push(
            make_role(
                "council",
                "Council",
                "Council member with executive privileges",
                executive,
                1_000_000_000_000_000_000_000_000_000,
                Some(21),
            ),
        );
        let mut elevated: Vec<String> = Vec::new();
        elevated.push(String::from_str("propose"));
        elevated.push(String::from_str("review"));
        assert(texts(elevated@) =~= seq!["propose"@, "review"@]);
        self.roles.push(
            make_role(
                "core",
                "Core Contributor",
                "Core contributor with elevated privileges",
                elevated,
                100_000_000_000_000_000_000_000_000,
                None,
            ),
        );
        let mut regular: Vec<String> = Vec::new();
        regular.push(String::from_str("vote"));
        regular.push(String::from_str("propose"));
        assert(texts(regular@) =~= seq!["vote"@, "propose"@]);
        self.roles.push(make_role("member", "Member", "Regular DAO member", regular, 0, None));
        proof {
            assert(role_pairs(self.roles@) =~= default_roles());
            assert(self@ =~= (DaoModel { roles: default_roles(), ..old(self)@ }));
        }
    }

    /// Takes `account_id` in as a member with the given roles.
    fn add_member(&mut self, account_id: AccountId, roles: Vec<String>, now: u64)
        ensures
            final(self)@ == old(self)@.with_new_member(account_id@, texts(roles@), now),
    {
        let member = Member {
            account_id,
            roles,
            voting_power: 0,
            contributions: 0,
            reputation: 0,
            joined_at: now,
            last_active: now,
            delegated_to: None,
            delegated_power: 0,
        };
        assert(member@ == new_member(account_id@, texts(roles@), now));
        self.members.push(member);
        proof {
            assert(self@.members =~= old(self)@.members.push(member@));
            assert(self@ =~= old(self)@.with_new_member(account_id@, texts(roles@), now));
        }
    }

    /// Joins `member` to the organisation, with the role of a member.
    ///
    /// Fails with `AlreadyMember` for one who is a member.
    pub fn join_dao(&mut self, member: AccountId, now: u64) -> (r: Result<(), DaoError>)
        requires
            old(self).wf(),
        ensures
            final(self).wf(),
            match r {
                Ok(_) => !old(self)@.is_member(member@) && final(self)@ == old(self)@.with_new_member(
                    member@,
                    seq!["member"@],
                    now,
                ),
                Err(e) => e == DaoError::AlreadyMember && old(self)@.is_member(member@) && final(self)@
                    == old(self)@,
            },
    {
        proof {
            self.lemma_keys();
        }
        if contains_key(&self.members, &member) {
            return Err(DaoError::AlreadyMember);
        }
        let mut roles: Vec<String> = Vec::new();
        roles.push(String::from_str("member"));
        assert(texts(roles@) =~= seq!["member"@]);
        proof {
            lemma_new_member_wf(self@, member@, seq!["member"@], now);
        }
        self.add_member(member, roles, now);
        Ok(())
    }

    /// Whether `account_id` is a member.
    pub fn is_member(&self, account_id: AccountId) -> (r: bool)
        ensures
            r == self@.is_member(account_id@),
    {
        proof {
            self.lemma_keys();
        }
        contains_key(&self.members, &account_id)
    }

    /// Whether `account_id` sits on the council.
    pub fn is_council_member(&self, account_id: AccountId) -> (r: bool)
        ensures
            r == self@.is_council_member(account_id@),
    {
        proof {
            self.lemma_keys();
        }
        contains_key(&self.council, &account_id)
    }

    /// Whether the engine is paused.
    pub fn is_paused(&self) -> (r: bool)
        ensures
            r == self@.paused,
    {
        self.paused
    }

    /// The owner of the engine.
    pub fn owner(&self) -> (r: AccountId)
        ensures
            r@ == self@.owner,
    {
        self.owner.clone()
    }

    /// The account of the platform token.
    pub fn voice_token_contract(&self) -> (r: AccountId)
        ensures
            r@ == self@.voice_token_contract,
    {
        self.voice_token_contract.clone()
    }

    /// The record of the member `account_id`, if there is one.
    pub fn get_member(&self, account_id: AccountId) -> (r: Option<Member>)
        requires
            self.wf(),
        ensures
            match r {
                Some(m) => self@.is_member(account_id@) && m@ == self@.member(account_id@),
                None => !self@.is_member(account_id@),
            },
    {
        proof {
            self.lemma_keys();
        }
        match find(&self.members, &account_id) {
            Some(i) => {
                proof {
                    lemma_position(member_ids(self@.members), account_id@, i as int);
                }
                Some(self.members[i].clone())
            },
            None => None,
        }
    }

    /// The parameters of the governance process.
    pub fn get_governance_config(&self) -> (r: GovernanceConfig)
        ensures
            r == self@.governance_config,
    {
        self.governance_config
    }

    /// The treasury.
    pub fn get_treasury_balance(&self) -> (r: Treasury)
        ensures
            r@ == self@.treasury,
    {
        self.treasury.clone()
    }

    /// The members of the council, in the order in which the council is walked.
    pub fn get_council_members(&self) -> (r: Vec<AccountId>)
        ensures
            texts(r@) == self@.council,
    {
        clone_strings(&self.council)
    }

    /// The voting power that the engine itself knows of `account_id`: what others
    /// have delegated to it, 0 for one who is no member.
    pub fn get_voting_power(&self, account_id: &AccountId) -> (r: u128)
        requires
            self.wf(),
        ensures
            r == self@.voting_power(account_id@),
    {
        proof {
            self.lemma_keys();
        }
        match find(&self.members, account_id) {
            Some(i) => {
                proof {
                    lemma_position(member_ids(self@.members), account_id@, i as int);
                }
                self.members[i].delegated_power
            },
            None => 0,
        }
    }

    /// The total voting power that the engine assumes where no token supply is given.
    pub fn get_total_voting_power(&self) -> (r: u128)
        ensures
            r == TOTAL_VOTING_POWER,
    {
        TOTAL_VOTING_POWER
    }

    /// Adds `amount` to the native balance and to the available funds.
    ///
    /// Fails with `ArithmeticOverflow` where either total would leave its range.
    pub fn contribute_to_treasury(&mut self, amount: u128) -> (r: Result<(), DaoError>)
        requires
            old(self).wf(),
        ensures
            final(self).wf(),
            match r {
                Ok(_) => old(self)@.treasury.near_balance + amount <= u128::MAX && old(self)@.treasury.available_funds + amount <= u128::MAX && final(self)@ == old(self)@.contribute_next(amount),
                Err(e) => e == DaoError::ArithmeticOverflow && (old(self)@.treasury.near_balance + amount
                    > u128::MAX || old(self)@.treasury.available_funds + amount > u128::MAX) && final(self)@ == old(self)@,
            },
    {
        let near = self.treasury.near_balance.checked_add(amount);
        let available = self.treasury.available_funds.checked_add(amount);
        match (near, available) {
            (Some(n), Some(a)) => {
                self.treasury.near_balance = n;
                self.treasury.available_funds = a;
                proof {
                    assert(self@ =~= old(self)@.contribute_next(amount));
                    lemma_same_tables_wf(old(self)@, self@);
                }
                Ok(())
            },
            _ => Err(DaoError::ArithmeticOverflow),
        }
    }

    /// Puts `member` on the council. Only the owner may.
    pub fn add_council_member(&mut self, caller: &AccountId, member: AccountId) -> (r: Result<(), DaoError>)
        requires
            old(self).wf(),
        ensures
            final(self).wf(),
            match r {
                Ok(_) => caller@ == old(self)@.owner && final(self)@ == old(self)@.with_council_member(
                    member@,
                ),
                Err(e) => e == DaoError::Unauthorized && caller@ != old(self)@.owner && final(self)@ == old(self)@,
            },
    {
        if !(*caller == self.owner) {
            return Err(DaoError::Unauthorized);
        }
        proof {
            self.lemma_keys();
        }
        if !contains_key(&self.council, &member) {
            self.council.push(member);
            proof {
                assert(self@.council =~= old(self)@.council.push(member@));
                assert(self@ =~= old(self)@.with_council_member(member@));
                lemma_push_fresh(old(self)@.council, member@);
                assert forall|i: int| 0 <= i < self@.proposals.len() implies #[trigger] self@.proposal_ok(
                    i,
                ) by {
                    assert(old(self)@.proposal_ok(i));
                }
            }
        }
        Ok(())
    }

    /// Takes `member` off the council. Only the owner may.
    pub fn remove_council_member(&mut self, caller: &AccountId, member: AccountId) -> (r: Result<
        (),
        DaoError,
    >)
        requires
            old(self).wf(),
        ensures
            final(self).wf(),
            match r {
                Ok(_) => caller@ == old(self)@.owner && final(self)@ == old(self)@.without_council_member(
                    member@,
                ),
                Err(e) => e == DaoError::Unauthorized && caller@ != old(self)@.owner && final(self)@ == old(self)@,
            },
    {
        if !(*caller == self.owner) {
            return Err(DaoError::Unauthorized);
        }
        proof {
            self.lemma_keys();
        }
        match find(&self.council, &member) {
            Some(i) => {
                proof {
                    lemma_position(old(self)@.council, member@, i as int);
                    lemma_swap_removed(old(self)@.council, i as int);
                }
                let _ = self.council.swap_remove(i);
                proof {
                    assert(self@.council =~= swap_removed(old(self)@.council, i as int));
                    assert(self@ =~= old(self)@.without_council_member(member@));
                    assert forall|i: int| 0 <= i < self@.proposals.len() implies #[trigger] self@.proposal_ok(
                        i,
                    ) by {
                        assert(old(self)@.proposal_ok(i));
                    }
                }
            },
            None => {},
        }
        Ok(())
    }

    /// Replaces the parameters of the governance process. Only the owner may.
    ///
    /// Fails with `Unauthorized`, else with `InvalidVotingPeriod` where the new
    /// voting period is zero: a voting window ends after it starts.
    pub fn update_governance_config(&mut self, caller: &AccountId, config: GovernanceConfig) -> (r: Result<
        (),
        DaoError,
    >)
        requires
            old(self).wf(),
        ensures
            final(self).wf(),
            match r {
                Ok(_) => caller@ == old(self)@.owner && config.voting_period > 0 && final(self)@ == (DaoModel {
                    governance_config: config,
                    ..old(self)@
                }),
                Err(e) => final(self)@ == old(self)@ && if caller@ != old(self)@.owner {
                    e == DaoError::Unauthorized
                } else {
                    e == DaoError::InvalidVotingPeriod && config.voting_period == 0
                },
            },
    {
        if !(*caller == self.owner) {
            return Err(DaoError::Unauthorized);
        }
        if config.voting_period == 0 {
            return Err(DaoError::InvalidVotingPeriod);
        }
        self.governance_config = config;
        proof {
            assert(self@ =~= (DaoModel { governance_config: config, ..old(self)@ }));
            lemma_same_tables_wf(old(self)@, self@);
        }
        Ok(())
    }

    /// Pauses the engine. Only the owner may.
    pub fn pause_dao(&mut self, caller: &AccountId) -> (r: Result<(), DaoError>)
        requires
            old(self).wf(),
        ensures
            final(self).wf(),
            match r {
                Ok(_) => caller@ == old(self)@.owner && final(self)@ == (DaoModel {
                    paused: true,
                    ..old(self)@
                }),
                Err(e) => e == DaoError::Unauthorized && caller@ != old(self)@.owner && final(self)@ == old(self)@,
            },
    {
        if !(*caller == self.owner) {
            return Err(DaoError::Unauthorized);
        }
        self.paused = true;
        proof {
            assert(self@ =~= (DaoModel { paused: true, ..old(self)@ }));
            lemma_same_tables_wf(old(self)@, self@);
        }
        Ok(())
    }

    /// Lifts the pause. Only the owner may.
    pub fn unpause_dao(&mut self, caller: &AccountId) -> (r: Result<(), DaoError>)
        requires
            old(self).wf(),
        ensures
            final(self).wf(),
            match r {
                Ok(_) => caller@ == old(self)@.owner && final(self)@ == (DaoModel {
                    paused: false,
                    ..old(self)@
                }),
                Err(e) => e == DaoError::Unauthorized && caller@ != old(self)@.owner && final(self)@ == old(self)@,
            },
    {
        if !(*caller == self.owner) {
            return Err(DaoError::Unauthorized);
        }
        self.paused = false;
        proof {
            assert(self@ =~= (DaoModel { paused: false, ..old(self)@ }));
            lemma_same_tables_wf(old(self)@, self@);
        }
        Ok(())
    }

    /// The active proposals of `member`, in the order of their identifiers.
    pub fn get_active_proposals_by_member(&self, member: &AccountId) -> (r: Vec<Proposal>)
        ensures
            proposal_models(r@) == self@.proposals.filter(is_active_by(member@)),
    {
        let mut r: Vec<Proposal> = Vec::new();
        let mut i: usize = 0;
        let ghost all = proposal_models(self.proposals@);
        proof {
            assert(all.subrange(0, 0) =~= Seq::<ProposalModel>::empty());
            reveal(Seq::filter);
            assert(proposal_models(r@) =~= all.subrange(0, 0).filter(is_active_by(member@)));
        }
        while i < self.proposals.len()
            invariant
                i <= self.proposals.len(),
                all == proposal_models(self.proposals@),
                proposal_models(r@) == all.subrange(0, i as int).filter(is_active_by(member@)),
            decreases self.proposals.len() - i,
        {
            let p = &self.proposals[i];
            proof {
                all.subrange(0, i as int).lemma_filter_push(all[i as int], is_active_by(member@));
                assert(all.subrange(0, i as int).push(all[i as int]) =~= all.subrange(0, i + 1));
            }
            let ghost before = proposal_models(r@);
            if p.proposer == *member && p.status == ProposalStatus::Active {
                r.push(p.clone());
                assert(proposal_models(r@) =~= before.push(all[i as int]));
            }
            i += 1;
        }
        assert(all.subrange(0, i as int) =~= all);
        r
    }

    /// The active proposals, in the order of their identifiers.
    pub fn get_active_proposals(&self) -> (r: Vec<Proposal>)
        ensures
            proposal_models(r@) == self@.proposals.filter(is_active()),
    {
        let mut r: Vec<Proposal> = Vec::new();
        let mut i: usize = 0;
        let ghost all = proposal_models(self.proposals@);
        proof {
            assert(all.subrange(0, 0) =~= Seq::<ProposalModel>::empty());
            reveal(Seq::filter);
            assert(proposal_models(r@) =~= all.subrange(0, 0).filter(is_active()));
        }
        while i < self.proposals.len()
            invariant
                i <= self.proposals.len(),
                all == proposal_models(self.proposals@),
                proposal_models(r@) == all.subrange(0, i as int).filter(is_active()),
            decreases self.proposals.len() - i,
        {
            let p = &self.proposals[i];
            proof {
                all.subrange(0, i as int).lemma_filter_push(all[i as int], is_active());
                assert(all.subrange(0, i as int).push(all[i as int]) =~= all.subrange(0, i + 1));
            }
            let ghost before = proposal_models(r@);
            if p.status == ProposalStatus::Active {
                r.push(p.clone());
                assert(proposal_models(r@) =~= before.push(all[i as int]));
            }
            i += 1;
        }
        assert(all.subrange(0, i as int) =~= all);
        r
    }

    /// The place of the proposal `proposal_id`, if there is such a proposal.
    fn proposal_slot(&self, proposal_id: u64) -> (r: Option<usize>)
        ensures
            match r {
                Some(i) => self@.has_proposal(proposal_id) && i == proposal_id - 1 && i < self.proposals.len(),
                None => !self@.has_proposal(proposal_id),
            },
    {
        if proposal_id == 0 {
            return None;
        }
        let n: usize = self.proposals.len();
        if proposal_id - 1 < n as u64 {
            Some((proposal_id - 1) as usize)
        } else {
            None
        }
    }

    /// The proposal `proposal_id`, if there is one.
    pub fn get_proposal(&self, proposal_id: u64) -> (r: Option<Proposal>)
        ensures
            match r {
                Some(p) => self@.has_proposal(proposal_id) && p@ == self@.proposal(proposal_id),
                None => !self@.has_proposal(proposal_id),
            },
    {
        match self.proposal_slot(proposal_id) {
            Some(i) => Some(self.proposals[i].clone()),
            None => None,
        }
    }

    /// Creates a proposal of `proposer`, active from `now` for the voting period,
    /// with `attached_deposit` held on it, and hands back the notification, which
    /// carries the new identifier: one more than the number of proposals so far.
    ///
    /// Fails with `EnginePaused` while the engine is paused, else with
    /// `Unauthorized` for one who is no member, else with `InsufficientDeposit`
    /// for a deposit under the minimum, else with `TooManyActiveProposals` for a
    /// member who has as many active proposals as a member may, else with
    /// `ArithmeticOverflow` where the identifier or the end of the window would
    /// leave its range.
    pub fn create_proposal(
        &mut self,
        proposer: AccountId,
        title: String,
        description: String,
        proposal_type: ProposalType,
        tags: Vec<String>,
        attached_deposit: u128,
        now: u64,
    ) -> (r: Result<ProposalCreatedEvent, DaoError>)
        requires
            old(self).wf(),
        ensures
            final(self).wf(),
            match r {
                Ok(event) => {
                    let p = old(self)@.created_proposal(
                        proposer@,
                        title@,
                        description@,
                        proposal_type@,
                        texts(tags@),
                        attached_deposit,
                        now,
                    );
                    &&& old(self)@.create_proposal_error(proposer@, attached_deposit, now) is None
                    &&& final(self)@ == old(self)@.create_proposal_next(p)
                    &&& event@ == (ProposalCreatedEventModel {
                        proposal_id: p.id,
                        proposer: proposer@,
                        title: title@,
                        proposal_type: proposal_type@,
                    })
                },
                Err(e) => old(self)@.create_proposal_error(proposer@, attached_deposit, now) == Some(e)
                    && final(self)@ == old(self)@,
            },
    {
        if self.paused {
            return Err(DaoError::EnginePaused);
        }
        proof {
            self.lemma_keys();
        }
        if !contains_key(&self.members, &proposer) {
            return Err(DaoError::Unauthorized);
        }
        if attached_deposit < self.governance_config.min_proposal_deposit {
            return Err(DaoError::InsufficientDeposit);
        }
        let active = self.get_active_proposals_by_member(&proposer);
        assert(active@.len() == proposal_models(active@).len());
        if !(active.len() < self.governance_config.max_proposals_per_member as usize) {
            return Err(DaoError::TooManyActiveProposals);
        }
        if self.proposal_counter == u64::MAX {
            return Err(DaoError::ArithmeticOverflow);
        }
        let voting_ends_at: u64 = match now.checked_add(self.governance_config.voting_period) {
            Some(t) => t,
            None => {
                return Err(DaoError::ArithmeticOverflow);
            },
        };
        let proposal_id: u64 = self.proposal_counter + 1;
        let event = ProposalCreatedEvent {
            proposal_id,
            proposer: proposer.clone(),
            title: title.clone(),
            proposal_type: proposal_type.clone(),
        };
        let proposal = Proposal {
            id: proposal_id,
            title,
            description,
            proposer,
            proposal_type,
            status: ProposalStatus::Active,
            votes_for: 0,
            votes_against: 0,
            votes_abstain: 0,
            total_votes: 0,
            created_at: now,
            voting_starts_at: now,
            voting_ends_at,
            execution_eta: 0,
            deposit: attached_deposit,
            tags,
            attachments: Vec::new(),
        };
        let ghost p = old(self)@.created_proposal(
            proposer@,
            title@,
            description@,
            proposal_type@,
            texts(tags@),
            attached_deposit,
            now,
        );
        proof {
            assert(proposal@.attachments =~= Seq::<Seq<char>>::empty());
            assert(proposal@ == p);
            lemma_create_wf(old(self)@, p);
        }
        self.proposal_counter = proposal_id;
        self.proposals.push(proposal);
        self.votes.push(Vec::new());
        proof {
            assert(self@.proposals =~= old(self)@.proposals.push(p));
            assert(vote_models(Seq::<Vote>::empty()) =~= Seq::<VoteModel>::empty());
            assert(self@.ballots =~= old(self)@.ballots.push(Seq::empty()));
            assert(self@ =~= old(self)@.create_proposal_next(p));
        }
        Ok(event)
    }

    /// Sees the member `account_id`, if there is one, active at `now`.
    fn update_member_activity(&mut self, account_id: &AccountId, now: u64)
        requires
            old(self).wf(),
        ensures
            final(self).wf(),
            final(self)@ == old(self)@.touched(account_id@, now),
    {
        proof {
            self.lemma_keys();
            lemma_touched_wf(self@, account_id@, now);
        }
        match find(&self.members, account_id) {
            Some(i) => {
                proof {
                    lemma_position(member_ids(self@.members), account_id@, i as int);
                }
                self.members[i].last_active = now;
                proof {
                    assert(self@.members =~= old(self)@.members.update(
                        i as int,
                        MemberModel { last_active: now, ..old(self)@.members[i as int] },
                    ));
                    assert(self@ =~= old(self)@.touched(account_id@, now));
                }
            },
            None => {},
        }
    }

    /// Casts the vote of `voter` on the proposal `proposal_id` with the power
    /// `voting_power`, which the caller has from the source of voting power. An
    /// earlier vote of the same voter on the proposal is replaced: its power
    /// leaves the tallies before the power of the new vote comes in.
    ///
    /// Fails with `EnginePaused` while the engine is paused, else with
    /// `ProposalNotFound`, else with `ProposalNotActive`, else with
    /// `VotingClosed` outside the voting window (both ends belong to it), else
    /// with `NotAMember`, else with `NoVotingPower` for a power of zero, else with
    /// `ArithmeticOverflow` where the votes cast would leave their range.
    pub fn vote_on_proposal(
        &mut self,
        voter: AccountId,
        proposal_id: u64,
        support: VoteType,
        reason: Option<String>,
        now: u64,
        voting_power: u128,
    ) -> (r: Result<VoteCastEvent, DaoError>)
        requires
            old(self).wf(),
        ensures
            final(self).wf(),
            match r {
                Ok(event) => {
                    let vote = cast_vote(voter@, proposal_id, support, voting_power, opt_text(reason), now);
                    &&& old(self)@.vote_error(proposal_id, vote, now) is None
                    &&& final(self)@ == old(self)@.vote_next(proposal_id, vote, now)
                    &&& event@ == (VoteCastEventModel {
                        proposal_id,
                        voter: voter@,
                        support,
                        voting_power,
                        reason: opt_text(reason),
                    })
                },
                Err(e) => old(self)@.vote_error(
                    proposal_id,
                    cast_vote(voter@, proposal_id, support, voting_power, opt_text(reason), now),
                    now,
                ) == Some(e) && final(self)@ == old(self)@,
            },
    {
        let ghost cast = cast_vote(voter@, proposal_id, support, voting_power, opt_text(reason), now);
        if self.paused {
            return Err(DaoError::EnginePaused);
        }
        let idx: usize = match self.proposal_slot(proposal_id) {
            Some(i) => i,
            None => {
                return Err(DaoError::ProposalNotFound);
            },
        };
        if !(self.proposals[idx].status == ProposalStatus::Active) {
            return Err(DaoError::ProposalNotActive);
        }
        if !(now >= self.proposals[idx].voting_starts_at && now <= self.proposals[idx].voting_ends_at) {
            return Err(DaoError::VotingClosed);
        }
        proof {
            self.lemma_keys();
        }
        if !contains_key(&self.members, &voter) {
            return Err(DaoError::NotAMember);
        }
        if voting_power == 0 {
            return Err(DaoError::NoVotingPower);
        }
        let ghost b0 = old(self)@.ballot(proposal_id);
        let ghost b = with_vote(b0, cast);
        proof {
            assert(old(self)@.proposal_ok(idx as int));
            assert(keys_of(self.votes[idx as int]@) =~= voters(b0));
            lemma_tally_with_vote(b0, cast, VoteType::For);
            lemma_tally_with_vote(b0, cast, VoteType::Against);
            lemma_tally_with_vote(b0, cast, VoteType::Abstain);
        }
        let existing = find(&self.votes[idx], &voter);
        let mut votes_for: u128 = self.proposals[idx].votes_for;
        let mut votes_against: u128 = self.proposals[idx].votes_against;
        let mut votes_abstain: u128 = self.proposals[idx].votes_abstain;
        let mut total_votes: u128 = self.proposals[idx].total_votes;
        match existing {
            Some(k) => {
                proof {
                    lemma_position(voters(b0), voter@, k as int);
                }
                let earlier = &self.votes[idx][k];
                match earlier.support {
                    VoteType::For => {
                        votes_for = votes_for - earlier.voting_power;
                    },
                    VoteType::Against => {
                        votes_against = votes_against - earlier.voting_power;
                    },
                    VoteType::Abstain => {
                        votes_abstain = votes_abstain - earlier.voting_power;
                    },
                }
                total_votes = total_votes - earlier.voting_power;
            },
            None => {},
        }
        assert(votes_for + weight(cast, VoteType::For) == tally(b, VoteType::For));
        assert(votes_against + weight(cast, VoteType::Against) == tally(b, VoteType::Against));
        assert(votes_abstain + weight(cast, VoteType::Abstain) == tally(b, VoteType::Abstain));
        assert(total_votes + voting_power == turnout(b));
        total_votes = match total_votes.checked_add(voting_power) {
            Some(t) => t,
            None => {
                return Err(DaoError::ArithmeticOverflow);
            },
        };
        match support {
            VoteType::For => {
                votes_for = votes_for + voting_power;
            },
            VoteType::Against => {
                votes_against = votes_against + voting_power;
            },
            VoteType::Abstain => {
                votes_abstain = votes_abstain + voting_power;
            },
        }
        let event = VoteCastEvent {
            proposal_id,
            voter: voter.clone(),
            support,
            voting_power,
            reason: clone_opt_string(&reason),
        };
        let vote = Vote {
            proposal_id,
            voter: voter.clone(),
            support,
            voting_power,
            reason,
            created_at: now,
        };
        assert(vote@ == cast);
        match existing {
            Some(k) => {
                self.votes[idx][k] = vote;
            },
            None => {
                self.votes[idx].push(vote);
            },
        }
        self.proposals[idx].votes_for = votes_for;
        self.proposals[idx].votes_against = votes_against;
        self.proposals[idx].votes_abstain = votes_abstain;
        self.proposals[idx].total_votes = total_votes;
        proof {
            let mid = old(self)@.vote_recorded(proposal_id, cast);
            assert(vote_models(self.votes[idx as int]@) =~= b);
            assert(self@.ballots =~= mid.ballots);
            assert(self@.proposals =~= mid.proposals);
            assert(self@ =~= mid);
            lemma_vote_wf(old(self)@, proposal_id, cast, now);
        }
        self.update_member_activity(&voter, now);
        Ok(event)
    }

    /// Decides the proposal `proposal_id` once its voting window is over, against
    /// the total voting power `total_power`, which the caller has from the source
    /// of voting power. With quorum and approval the proposal has succeeded, may
    /// be executed after the execution delay, and the refund of the whole deposit
    /// to the proposer is handed back; else it is defeated, its deposit goes to
    /// the native balance of the treasury, and nothing is handed back.
    ///
    /// Fails with `ProposalNotFound`, else with `ProposalNotActive`, else with
    /// `VotingPeriodNotEnded` at or before the end of the window, else with
    /// `InvalidTotalPower` for a total of zero, else with `ArithmeticOverflow`
    /// where the votes cast times 10000 leave their range, or where the time of
    /// execution or the balance of the treasury would.
    pub fn finalize_proposal(&mut self, proposal_id: u64, now: u64, total_power: u128) -> (r: Result<
        Option<Transfer>,
        DaoError,
    >)
        requires
            old(self).wf(),
        ensures
            final(self).wf(),
            match r {
                Ok(refund) => old(self)@.finalize_error(proposal_id, now, total_power) is None && final(self)@ == old(self)@.finalize_next(proposal_id, now, total_power) && opt_transfer(refund) == old(self)@.finalize_refund(proposal_id, total_power),
                Err(e) => old(self)@.finalize_error(proposal_id, now, total_power) == Some(e) && final(self)@ == old(self)@,
            },
    {
        let idx: usize = match self.proposal_slot(proposal_id) {
            Some(i) => i,
            None => {
                return Err(DaoError::ProposalNotFound);
            },
        };
        if !(self.proposals[idx].status == ProposalStatus::Active) {
            return Err(DaoError::ProposalNotActive);
        }
        if !(now > self.proposals[idx].voting_ends_at) {
            return Err(DaoError::VotingPeriodNotEnded);
        }
        if total_power == 0 {
            return Err(DaoError::InvalidTotalPower);
        }
        let total_votes: u128 = self.proposals[idx].total_votes;
        let votes_for: u128 = self.proposals[idx].votes_for;
        let votes_against: u128 = self.proposals[idx].votes_against;
        let deposit: u128 = self.proposals[idx].deposit;
        let scaled_total: u128 = match total_votes.checked_mul(10000) {
            Some(x) => x,
            None => {
                return Err(DaoError::ArithmeticOverflow);
            },
        };
        proof {
            assert(old(self)@.proposal_ok(idx as int));
            assert(votes_for + votes_against <= total_votes);
            assert(votes_for * 10000 <= total_votes * 10000) by (nonlinear_arith)
                requires
                    votes_for <= total_votes,
            ;
        }
        let quorum_reached: bool = scaled_total / total_power >= self.governance_config.quorum_threshold as u128;
        let approved: bool = if votes_for + votes_against > 0 {
            (votes_for * 10000) / (votes_for + votes_against)
                >= self.governance_config.approval_threshold as u128
        } else {
            false
        };
        let ghost p = old(self)@.proposal(proposal_id);
        assert((quorum_reached && approved) == passes(p, self.governance_config, total_power as nat));
        if quorum_reached && approved {
            let execution_eta: u64 = match now.checked_add(self.governance_config.execution_delay) {
                Some(t) => t,
                None => {
                    return Err(DaoError::ArithmeticOverflow);
                },
            };
            let refund = Transfer {
                recipient: self.proposals[idx].proposer.clone(),
                amount: deposit,
                fund: TreasuryFund::Near,
            };
            self.proposals[idx].status = ProposalStatus::Succeeded;
            self.proposals[idx].execution_eta = execution_eta;
            proof {
                let q = ProposalModel { status: ProposalStatus::Succeeded, execution_eta, ..p };
                assert(self@.proposals =~= old(self)@.proposals.update(idx as int, q));
                assert(self@ =~= old(self)@.finalize_next(proposal_id, now, total_power));
                lemma_with_proposal_wf(old(self)@, proposal_id, q);
            }
            Ok(Some(refund))
        } else {
            let near_balance: u128 = match self.treasury.near_balance.checked_add(deposit) {
                Some(x) => x,
                None => {
                    return Err(DaoError::ArithmeticOverflow);
                },
            };
            self.proposals[idx].status = ProposalStatus::Defeated;
            self.treasury.near_balance = near_balance;
            proof {
                let q = ProposalModel { status: ProposalStatus::Defeated, ..p };
                assert(self@.proposals =~= old(self)@.proposals.update(idx as int, q));
                assert(self@ =~= old(self)@.finalize_next(proposal_id, now, total_power));
                lemma_with_proposal_wf(old(self)@, proposal_id, q);
                lemma_same_tables_wf(old(self)@.with_proposal(proposal_id, q), self@);
            }
            Ok(None)
        }
    }

    /// Queues the succeeded proposal `proposal_id` for execution, once the
    /// execution delay is over.
    ///
    /// Fails with `ProposalNotFound`, else with `ProposalNotSucceeded`, else with
    /// `ExecutionDelayNotMet` before the time of execution.
    pub fn queue_proposal(&mut self, proposal_id: u64, now: u64) -> (r: Result<(), DaoError>)
        requires
            old(self).wf(),
        ensures
            final(self).wf(),
            match r {
                Ok(_) => old(self)@.queue_error(proposal_id, now) is None && final(self)@ == old(self)@.queue_next(proposal_id),
                Err(e) => old(self)@.queue_error(proposal_id, now) == Some(e) && final(self)@ == old(self)@,
            },
    {
        let idx: usize = match self.proposal_slot(proposal_id) {
            Some(i) => i,
            None => {
                return Err(DaoError::ProposalNotFound);
            },
        };
        if !(self.proposals[idx].status == ProposalStatus::Succeeded) {
            return Err(DaoError::ProposalNotSucceeded);
        }
        if !(now >= self.proposals[idx].execution_eta) {
            return Err(DaoError::ExecutionDelayNotMet);
        }
        self.proposals[idx].status = ProposalStatus::Queued;
        proof {
            let q = ProposalModel { status: ProposalStatus::Queued, ..old(self)@.proposal(proposal_id) };
            assert(old(self)@.proposal_ok(idx as int));
            assert(self@.proposals =~= old(self)@.proposals.update(idx as int, q));
            assert(self@ =~= old(self)@.queue_next(proposal_id));
            lemma_with_proposal_wf(old(self)@, proposal_id, q);
        }
        Ok(())
    }

    /// Spends `amount` from `fund` on `recipient` under `category`, where the fund
    /// covers it: the fund is debited, the amount is counted as spent and booked
    /// under the category, and the transfer is handed back.
    fn spend(&mut self, fund: TreasuryFund, recipient: &AccountId, amount: u128, category: &String) -> (r:
        Result<(bool, Option<Transfer>), DaoError>)
        requires
            old(self).wf(),
        ensures
            final(self).wf(),
            match r {
                Ok(out) => {
                    let e = old(self)@.spend_effect(fund, recipient@, amount, category@);
                    &&& !e.overflow
                    &&& out.0 == e.success
                    &&& opt_transfer(out.1) == e.transfer
                    &&& final(self)@ == e.state
                },
                Err(err) => err == DaoError::ArithmeticOverflow && old(self)@.spend_effect(
                    fund,
                    recipient@,
                    amount,
                    category@,
                ).overflow && final(self)@ == old(self)@,
            },
    {
        let balance: u128 = match fund {
            TreasuryFund::Near => self.treasury.near_balance,
            TreasuryFund::Voice => self.treasury.voice_balance,
        };
        if balance < amount {
            return Ok((false, None));
        }
        proof {
            self.lemma_keys();
            lemma_spend_effect_wf(self@, fund, recipient@, amount, category@);
        }
        let ghost booked_before = old(self)@.treasury.spending_categories;
        let total_spent: u128 = match self.treasury.total_spent.checked_add(amount) {
            Some(x) => x,
            None => {
                return Err(DaoError::ArithmeticOverflow);
            },
        };
        let slot = find(&self.treasury.spending_categories, category);
        let booked: u128 = match slot {
            Some(i) => {
                proof {
                    lemma_position(names(booked_before), category@, i as int);
                }
                match self.treasury.spending_categories[i].amount.checked_add(amount) {
                    Some(x) => x,
                    None => {
                        return Err(DaoError::ArithmeticOverflow);
                    },
                }
            },
            None => amount,
        };
        match fund {
            TreasuryFund::Near => {
                self.treasury.near_balance = balance - amount;
            },
            TreasuryFund::Voice => {
                self.treasury.voice_balance = balance - amount;
            },
        }
        self.treasury.total_spent = total_spent;
        match slot {
            Some(i) => {
                self.treasury.spending_categories[i].amount = booked;
            },
            None => {
                self.treasury.spending_categories.push(NamedAmount { name: category.clone(), amount });
            },
        }
        proof {
            assert(self@.treasury.spending_categories =~= credited(booked_before, category@, amount));
            assert(self@.treasury =~= old(self)@.treasury.spent(fund, amount, category@));
            assert(self@ =~= old(self)@.spend_effect(fund, recipient@, amount, category@).state);
        }
        Ok((true, Some(Transfer { recipient: recipient.clone(), amount, fund })))
    }

    /// Carries out a treasury spend: the token names the fund, `"VOICE"` or `"NEAR"`.
    fn execute_treasury_proposal(&mut self, recipient: &AccountId, amount: u128, token: &String, purpose: &String) -> (r:
        Result<(bool, Option<Transfer>), DaoError>)
        requires
            old(self).wf(),
        ensures
            final(self).wf(),
            match r {
                Ok(out) => {
                    let e = old(self)@.treasury_effect(recipient@, amount, token@, purpose@);
                    &&& !e.overflow
                    &&& out.0 == e.success
                    &&& opt_transfer(out.1) == e.transfer
                    &&& final(self)@ == e.state
                },
                Err(err) => err == DaoError::ArithmeticOverflow && old(self)@.treasury_effect(
                    recipient@,
                    amount,
                    token@,
                    purpose@,
                ).overflow && final(self)@ == old(self)@,
            },
    {
        if *token == String::from_str("VOICE") {
            self.spend(TreasuryFund::Voice, recipient, amount, purpose)
        } else if *token == String::from_str("NEAR") {
            self.spend(TreasuryFund::Near, recipient, amount, purpose)
        } else {
            Ok((false, None))
        }
    }

    /// Carries out a change of a governance parameter.
    fn execute_governance_proposal(&mut self, parameter: &String, new_value: &String) -> (success: bool)
        requires
            old(self).wf(),
        ensures
            final(self).wf(),
            success == old(self)@.governance_effect(parameter@, new_value@).success,
            final(self)@ == old(self)@.governance_effect(parameter@, new_value@).state,
    {
        proof {
            lemma_payload_effect_wf(
                self@,
                ProposalTypeModel::Governance { parameter: parameter@, new_value: new_value@ },
                0,
            );
        }
        if *parameter == String::from_str("voting_period") {
            match parse_u64(new_value.as_str()) {
                Some(value) => {
                    if value == 0 {
                        return false;
                    }
                    self.governance_config.voting_period = value;
                    proof {
                        assert(self@ =~= old(self)@.governance_effect(parameter@, new_value@).state);
                    }
                    true
                },
                None => false,
            }
        } else if *parameter == String::from_str("quorum_threshold") {
            match parse_u32(new_value.as_str()) {
                Some(value) => {
                    self.governance_config.quorum_threshold = value;
                    proof {
                        assert(self@ =~= old(self)@.governance_effect(parameter@, new_value@).state);
                    }
                    true
                },
                None => false,
            }
        } else {
            false
        }
    }

    /// Carries out a change of membership.
    fn execute_membership_proposal(&mut self, action: &String, member: &AccountId, role: &String, now: u64) -> (success:
        bool)
        requires
            old(self).wf(),
        ensures
            final(self).wf(),
            success == old(self)@.membership_effect(action@, member@, role@, now).success,
            final(self)@ == old(self)@.membership_effect(action@, member@, role@, now).state,
    {
        proof {
            self.lemma_keys();
            lemma_payload_effect_wf(
                self@,
                ProposalTypeModel::Membership { action: action@, member: member@, role: role@ },
                now,
            );
        }
        if *action == String::from_str("add") {
            if !contains_key(&self.members, member) {
                let mut roles: Vec<String> = Vec::new();
                roles.push(role.clone());
                assert(texts(roles@) =~= seq![role@]);
                self.add_member(member.clone(), roles, now);
                true
            } else {
                false
            }
        } else if *action == String::from_str("remove") {
            match find(&self.members, member) {
                Some(i) => {
                    proof {
                        lemma_position(member_ids(self@.members), member@, i as int);
                    }
                    let _ = self.members.swap_remove(i);
                    proof {
                        assert(self@.members =~= swap_removed(old(self)@.members, i as int));
                        assert(self@ =~= old(self)@.without_member(member@));
                    }
                    true
                },
                None => false,
            }
        } else {
            false
        }
    }

    /// Carries out a content action: there is nothing to do, and it succeeds.
    fn execute_content_proposal(&mut self, action: &String, content_id: &String, details: &String) -> (success:
        bool)
        ensures
            success,
            final(self)@ == old(self)@,
    {
        true
    }

    /// Carries out a grant: the whole amount at once, from the balance of the
    /// platform token, booked under the category of the grant.
    fn execute_grant_proposal(
        &mut self,
        recipient: &AccountId,
        amount: u128,
        milestones: &Vec<String>,
        category: &String,
    ) -> (r: Result<(bool, Option<Transfer>), DaoError>)
        requires
            old(self).wf(),
        ensures
            final(self).wf(),
            match r {
                Ok(out) => {
                    let e = old(self)@.spend_effect(TreasuryFund::Voice, recipient@, amount, category@);
                    &&& !e.overflow
                    &&& out.0 == e.success
                    &&& opt_transfer(out.1) == e.transfer
                    &&& final(self)@ == e.state
                },
                Err(err) => err == DaoError::ArithmeticOverflow && old(self)@.spend_effect(
                    TreasuryFund::Voice,
                    recipient@,
                    amount,
                    category@,
                ).overflow && final(self)@ == old(self)@,
            },
    {
        self.spend(TreasuryFund::Voice, recipient, amount, category)
    }

    /// Executes the queued proposal `proposal_id` on behalf of `executor`, a
    /// council member or the owner, and hands back the notification and the funds
    /// to move, if any. A payload that takes effect leaves the proposal executed;
    /// one that does not leaves the engine as it was, the proposal queued, and
    /// the notification says that it failed.
    ///
    /// A treasury spend takes effect where the token is `"VOICE"` or `"NEAR"` and
    /// its fund covers the amount; a change of governance where the parameter is
    /// `"voting_period"` or `"quorum_threshold"` and the value parses; a change
    /// of membership where it adds one who is no member or removes one who is; a
    /// content action always; a grant where the balance of the platform token
    /// covers it; a contract call or a partnership never.
    ///
    /// Fails with `ProposalNotFound`, else with `ProposalNotQueued`, else with
    /// `Unauthorized`, else with `ArithmeticOverflow` where a spend would take a
    /// total of the treasury out of its range.
    pub fn execute_proposal(&mut self, executor: AccountId, proposal_id: u64, now: u64) -> (r: Result<
        Execution,
        DaoError,
    >)
        requires
            old(self).wf(),
        ensures
            final(self).wf(),
            match r {
                Ok(done) => old(self)@.execute_error(executor@, proposal_id, now) is None && final(self)@
                    == old(self)@.execute_next(proposal_id, now) && done@ == old(self)@.execute_output(
                    executor@,
                    proposal_id,
                    now,
                ),
                Err(e) => old(self)@.execute_error(executor@, proposal_id, now) == Some(e) && final(self)@
                    == old(self)@,
            },
    {
        let idx: usize = match self.proposal_slot(proposal_id) {
            Some(i) => i,
            None => {
                return Err(DaoError::ProposalNotFound);
            },
        };
        if !(self.proposals[idx].status == ProposalStatus::Queued) {
            return Err(DaoError::ProposalNotQueued);
        }
        proof {
            self.lemma_keys();
        }
        if !(contains_key(&self.council, &executor) || executor == self.owner) {
            return Err(DaoError::Unauthorized);
        }
        let payload = self.proposals[idx].proposal_type.clone();
        let ghost before = old(self)@.proposal(proposal_id);
        proof {
            lemma_payload_effect_wf(old(self)@, payload@, now);
            lemma_execute_wf(old(self)@, proposal_id, now);
        }
        let outcome: Result<(bool, Option<Transfer>), DaoError> = match &payload {
            ProposalType::Treasury { recipient, amount, token, purpose } => self.execute_treasury_proposal(
                recipient,
                *amount,
                token,
                purpose,
            ),
            ProposalType::Governance { parameter, new_value } => Ok(
                (self.execute_governance_proposal(parameter, new_value), None),
            ),
            ProposalType::Membership { action, member, role } => Ok(
                (self.execute_membership_proposal(action, member, role, now), None),
            ),
            ProposalType::Content { action, content_id, details } => Ok(
                (self.execute_content_proposal(action, content_id, details), None),
            ),
            ProposalType::Grant { recipient, amount, milestones, category } => self.execute_grant_proposal(
                recipient,
                *amount,
                milestones,
                category,
            ),
            _ => Ok((false, None)),
        };
        match outcome {
            Err(e) => Err(e),
            Ok((success, transfer)) => {
                let ghost effect = old(self)@.payload_effect(payload@, now);
                assert(self@ == effect.state);
                assert(self.proposals@.len() == proposal_models(self.proposals@).len());
                assert(old(self).proposals@.len() == proposal_models(old(self).proposals@).len());
                if success {
                    self.proposals[idx].status = ProposalStatus::Executed;
                    proof {
                        let q = ProposalModel { status: ProposalStatus::Executed, ..before };
                        assert(self@.proposals =~= effect.state.proposals.update(idx as int, q));
                        assert(self@ =~= old(self)@.execute_next(proposal_id, now));
                    }
                }
                let result = if success {
                    String::from_str("Success")
                } else {
                    String::from_str("Failed")
                };
                Ok(
                    Execution {
                        event: ProposalExecutedEvent { proposal_id, executor, success, result },
                        transfer,
                    },
                )
            },
        }
    }

    /// The identifier of the `n`-th contribution.
    fn contribution_id(n: u64) -> (id: String)
        ensures
            id@ == contribution_key(n as nat),
    {
        let digits = u64_to_string(n);
        String::from_str("contribution-").concat(digits.as_str())
    }

    /// Takes in a contribution of `contributor`, submitted at `now`, and hands
    /// back its identifier: `contribution-` and the number of contributions so
    /// far, this one counted. A contributor who is a member has one contribution
    /// more to its name.
    ///
    /// Fails with `ArithmeticOverflow` where a counter would leave its range.
    pub fn submit_contribution(
        &mut self,
        contributor: AccountId,
        contribution_type: ContributionType,
        title: String,
        description: String,
        ipfs_hash: String,
        now: u64,
    ) -> (r: Result<String, DaoError>)
        requires
            old(self).wf(),
        ensures
            final(self).wf(),
            match r {
                Ok(id) => {
                    let c = old(self)@.submitted_contribution(
                        contributor@,
                        contribution_type,
                        title@,
                        description@,
                        ipfs_hash@,
                        now,
                    );
                    &&& old(self)@.submit_error(contributor@) is None
                    &&& final(self)@ == old(self)@.submit_next(c)
                    &&& id@ == c.id
                },
                Err(e) => old(self)@.submit_error(contributor@) == Some(e) && final(self)@ == old(self)@,
            },
    {
        if self.contribution_counter == u64::MAX {
            return Err(DaoError::ArithmeticOverflow);
        }
        proof {
            self.lemma_keys();
        }
        let slot = find(&self.members, &contributor);
        match slot {
            Some(i) => {
                proof {
                    lemma_position(member_ids(self@.members), contributor@, i as int);
                }
                if self.members[i].contributions == u64::MAX {
                    return Err(DaoError::ArithmeticOverflow);
                }
            },
            None => {},
        }
        let number: u64 = self.contribution_counter + 1;
        let id = Self::contribution_id(number);
        let contribution = Contribution {
            id: id.clone(),
            contributor,
            contribution_type,
            title,
            description,
            ipfs_hash,
            reward_amount: 0,
            status: ContributionStatus::Submitted,
            created_at: now,
            reviewed_at: None,
            reviewer: None,
        };
        let ghost c = old(self)@.submitted_contribution(
            contributor@,
            contribution_type,
            title@,
            description@,
            ipfs_hash@,
            now,
        );
        proof {
            assert(contribution@ == c);
            lemma_submit_wf(old(self)@, c);
        }
        self.contributions.push(contribution);
        self.contribution_counter = number;
        match slot {
            Some(i) => {
                self.members[i].contributions = self.members[i].contributions + 1;
                proof {
                    assert(self@.members =~= old(self)@.members.update(
                        i as int,
                        MemberModel {
                            contributions: (old(self)@.members[i as int].contributions + 1) as u64,
                            ..old(self)@.members[i as int]
                        },
                    ));
                }
            },
            None => {},
        }
        proof {
            assert(self@.contributions =~= old(self)@.contributions.push(c));
            assert(self@ =~= old(self)@.submit_next(c));
        }
        Ok(id)
    }

    /// Adds `points` to the reputation of the member `account_id`, if there is one.
    fn update_member_reputation(&mut self, account_id: &AccountId, points: u32)
        requires
            old(self).wf(),
            old(self)@.is_member(account_id@) ==> old(self)@.member(account_id@).reputation + points
                <= u32::MAX,
        ensures
            final(self)@ == if old(self)@.is_member(account_id@) {
                old(self)@.with_member(
                    account_id@,
                    MemberModel {
                        reputation: (old(self)@.member(account_id@).reputation + points) as u32,
                        ..old(self)@.member(account_id@)
                    },
                )
            } else {
                old(self)@
            },
    {
        proof {
            self.lemma_keys();
        }
        match find(&self.members, account_id) {
            Some(i) => {
                proof {
                    lemma_position(member_ids(self@.members), account_id@, i as int);
                }
                self.members[i].reputation = self.members[i].reputation + points;
                proof {
                    assert(self@.members =~= old(self)@.members.update(
                        i as int,
                        MemberModel {
                            reputation: (old(self)@.members[i as int].reputation + points) as u32,
                            ..old(self)@.members[i as int]
                        },
                    ));
                    assert(self@ =~= old(self)@.with_member(
                        account_id@,
                        MemberModel {
                            reputation: (old(self)@.member(account_id@).reputation + points) as u32,
                            ..old(self)@.member(account_id@)
                        },
                    ));
                }
            },
            None => {},
        }
    }

    /// Pays `amount` of the platform token out to `recipient`, where the balance
    /// covers it, and hands the transfer back; does nothing where it does not.
    fn distribute_reward(&mut self, recipient: &AccountId, amount: u128) -> (r: Option<Transfer>)
        requires
            old(self)@.treasury.voice_balance >= amount ==> old(self)@.treasury.total_spent + amount
                <= u128::MAX,
        ensures
            final(self)@ == if old(self)@.treasury.voice_balance >= amount {
                DaoModel { treasury: old(self)@.treasury.debited(TreasuryFund::Voice, amount), ..old(self)@ }
            } else {
                old(self)@
            },
            opt_transfer(r) == if old(self)@.treasury.voice_balance >= amount {
                Some(TransferModel { recipient: recipient@, amount, fund: TreasuryFund::Voice })
            } else {
                None
            },
    {
        if self.treasury.voice_balance >= amount {
            self.treasury.voice_balance = self.treasury.voice_balance - amount;
            self.treasury.total_spent = self.treasury.total_spent + amount;
            proof {
                assert(self@ =~= (DaoModel {
                    treasury: old(self)@.treasury.debited(TreasuryFund::Voice, amount),
                    ..old(self)@
                }));
            }
            Some(Transfer { recipient: recipient.clone(), amount, fund: TreasuryFund::Voice })
        } else {
            None
        }
    }

    /// Judges the contribution `contribution_id` in the name of a council member:
    /// the contribution is approved or rejected, with the reward, the council
    /// member and the time on it. An approval adds to the reputation of a
    /// contributor who is a member, and pays a reward that is not zero out of the
    /// balance of the platform token where the balance covers it; the payment
    /// is handed back. A reward that the balance does not cover stays on the
    /// contribution unpaid.
    ///
    /// Fails with `Unauthorized`, else with `ContributionNotFound`, else with
    /// `ContributionAlreadyReviewed` for a contribution that has had its review,
    /// else with `ArithmeticOverflow` where the reputation or the amount spent
    /// would leave its range.
    pub fn review_contribution(
        &mut self,
        reviewer: AccountId,
        contribution_id: String,
        approved: bool,
        reward_amount: u128,
        now: u64,
    ) -> (r: Result<Option<Transfer>, DaoError>)
        requires
            old(self).wf(),
        ensures
            final(self).wf(),
            match r {
                Ok(reward) => old(self)@.review_error(reviewer@, contribution_id@, approved, reward_amount)
                    is None && final(self)@ == old(self)@.review_next(
                    reviewer@,
                    contribution_id@,
                    approved,
                    reward_amount,
                    now,
                ) && opt_transfer(reward) == old(self)@.review_reward(
                    contribution_id@,
                    approved,
                    reward_amount,
                ),
                Err(e) => old(self)@.review_error(reviewer@, contribution_id@, approved, reward_amount)
                    == Some(e) && final(self)@ == old(self)@,
            },
    {
        proof {
            self.lemma_keys();
            lemma_contribution_ids_distinct(self@);
            assert(keys_of(self.contributions@) =~= contribution_ids(self@.contributions));
        }
        if !contains_key(&self.council, &reviewer) {
            return Err(DaoError::Unauthorized);
        }
        let at: usize = match find(&self.contributions, &contribution_id) {
            Some(i) => i,
            None => {
                return Err(DaoError::ContributionNotFound);
            },
        };
        proof {
            lemma_position(contribution_ids(self@.contributions), contribution_id@, at as int);
            lemma_review_wf(self@, reviewer@, contribution_id@, approved, reward_amount, now);
        }
        if !(self.contributions[at].status == ContributionStatus::Submitted) {
            return Err(DaoError::ContributionAlreadyReviewed);
        }
        let contributor = self.contributions[at].contributor.clone();
        if approved {
            match find(&self.members, &contributor) {
                Some(i) => {
                    proof {
                        lemma_position(member_ids(self@.members), contributor@, i as int);
                    }
                    if self.members[i].reputation > u32::MAX - APPROVAL_REPUTATION {
                        return Err(DaoError::ArithmeticOverflow);
                    }
                },
                None => {},
            }
            if reward_amount > 0 && self.treasury.voice_balance >= reward_amount
                && self.treasury.total_spent > u128::MAX - reward_amount {
                return Err(DaoError::ArithmeticOverflow);
            }
        }
        self.contributions[at].status = if approved {
            ContributionStatus::Approved
        } else {
            ContributionStatus::Rejected
        };
        self.contributions[at].reward_amount = reward_amount;
        self.contributions[at].reviewed_at = Some(now);
        self.contributions[at].reviewer = Some(reviewer);
        let ghost c = old(self)@.contribution(contribution_id@);
        let ghost reviewed = ContributionModel {
            status: if approved {
                ContributionStatus::Approved
            } else {
                ContributionStatus::Rejected
            },
            reward_amount,
            reviewed_at: Some(now),
            reviewer: Some(reviewer@),
            ..c
        };
        let ghost recorded = DaoModel {
            contributions: old(self)@.contributions.update(at as int, reviewed),
            ..old(self)@
        };
        proof {
            assert(self@.contributions =~= recorded.contributions);
            assert(self@ =~= recorded);
            assert(member_ids(recorded.members) == member_ids(old(self)@.members));
            assert forall|i: int| 0 <= i < recorded.contributions.len() implies (
            #[trigger] recorded.contributions[i]).id == contribution_key((i + 1) as nat) by {
                assert(old(self)@.contributions[i].id == contribution_key((i + 1) as nat));
            }
            lemma_same_tables_wf_contributions(old(self)@, recorded);
        }
        let mut reward: Option<Transfer> = None;
        if approved {
            self.update_member_reputation(&contributor, APPROVAL_REPUTATION);
            if reward_amount > 0 {
                reward = self.distribute_reward(&contributor, reward_amount);
            }
        }
        proof {
            assert(self@ =~= old(self)@.review_next(
                reviewer@,
                contribution_id@,
                approved,
                reward_amount,
                now,
            ));
        }
        Ok(reward)
    }

    /// The contribution `contribution_id`, if there is one.
    pub fn get_contribution(&self, contribution_id: String) -> (r: Option<Contribution>)
        requires
            self.wf(),
        ensures
            match r {
                Some(c) => self@.has_contribution(contribution_id@) && c@ == self@.contribution(
                    contribution_id@,
                ),
                None => !self@.has_contribution(contribution_id@),
            },
    {
        proof {
            lemma_contribution_ids_distinct(self@);
            assert(keys_of(self.contributions@) =~= contribution_ids(self@.contributions));
        }
        match find(&self.contributions, &contribution_id) {
            Some(i) => {
                proof {
                    lemma_position(contribution_ids(self@.contributions), contribution_id@, i as int);
                }
                Some(self.contributions[i].clone())
            },
            None => None,
        }
    }

    /// The contributions of `member`, in the order in which they came in.
    pub fn get_contributions_by_member(&self, member: AccountId) -> (r: Vec<Contribution>)
        ensures
            contribution_models(r@) == self@.contributions.filter(is_contribution_of(member@)),
    {
        let mut r: Vec<Contribution> = Vec::new();
        let mut i: usize = 0;
        let ghost all = contribution_models(self.contributions@);
        proof {
            assert(all.subrange(0, 0) =~= Seq::<ContributionModel>::empty());
            reveal(Seq::filter);
            assert(contribution_models(r@) =~= all.subrange(0, 0).filter(is_contribution_of(member@)));
        }
        while i < self.contributions.len()
            invariant
                i <= self.contributions.len(),
                all == contribution_models(self.contributions@),
                contribution_models(r@) == all.subrange(0, i as int).filter(is_contribution_of(member@)),
            decreases self.contributions.len() - i,
        {
            let c = &self.contributions[i];
            proof {
                all.subrange(0, i as int).lemma_filter_push(all[i as int], is_contribution_of(member@));
                assert(all.subrange(0, i as int).push(all[i as int]) =~= all.subrange(0, i + 1));
            }
            let ghost before = contribution_models(r@);
            if c.contributor == member {
                r.push(c.clone());
                assert(contribution_models(r@) =~= before.push(all[i as int]));
            }
            i += 1;
        }
        assert(all.subrange(0, i as int) =~= all);
        r
    }

    /// Records that `delegator` delegates its voting power to `delegate`, in the
    /// place of an earlier delegation of `delegator` if there is one. No voting
    /// power moves by this.
    ///
    /// Fails with `NotAMember` where the delegator is no member, else with
    /// `DelegateNotMember` where the delegate is none, else with `SelfDelegation`.
    pub fn delegate_voting_power(&mut self, delegator: AccountId, delegate: AccountId) -> (r: Result<
        (),
        DaoError,
    >)
        requires
            old(self).wf(),
        ensures
            final(self).wf(),
            match r {
                Ok(_) => old(self)@.delegate_error(delegator@, delegate@) is None && final(self)@ == old(self)@.delegate_next(delegator@, delegate@),
                Err(e) => old(self)@.delegate_error(delegator@, delegate@) == Some(e) && final(self)@
                    == old(self)@,
            },
    {
        proof {
            self.lemma_keys();
        }
        if !contains_key(&self.members, &delegator) {
            return Err(DaoError::NotAMember);
        }
        if !contains_key(&self.members, &delegate) {
            return Err(DaoError::DelegateNotMember);
        }
        if delegator == delegate {
            return Err(DaoError::SelfDelegation);
        }
        proof {
            lemma_delegate_wf(self@, delegator@, delegate@);
        }
        match find(&self.delegations, &delegator) {
            Some(i) => {
                proof {
                    lemma_position(delegators(self@.delegations), delegator@, i as int);
                }
                self.delegations[i].delegate = delegate;
                proof {
                    assert(self@.delegations =~= old(self)@.delegations.update(
                        i as int,
                        (delegator@, delegate@),
                    ));
                }
            },
            None => {
                self.delegations.push(Delegation { delegator, delegate });
                proof {
                    assert(self@.delegations =~= old(self)@.delegations.push((delegator@, delegate@)));
                }
            },
        }
        proof {
            assert(self@ =~= old(self)@.delegate_next(delegator@, delegate@));
        }
        Ok(())
    }

    /// Takes the delegation of `delegator` back, if there is one.
    pub fn undelegate_voting_power(&mut self, delegator: AccountId)
        requires
            old(self).wf(),
        ensures
            final(self).wf(),
            final(self)@ == old(self)@.undelegate_next(delegator@),
    {
        proof {
            self.lemma_keys();
            lemma_undelegate_wf(self@, delegator@);
        }
        match find(&self.delegations, &delegator) {
            Some(i) => {
                proof {
                    lemma_position(delegators(self@.delegations), delegator@, i as int);
                }
                let _ = self.delegations.swap_remove(i);
                proof {
                    assert(self@.delegations =~= swap_removed(old(self)@.delegations, i as int));
                    assert(self@ =~= old(self)@.undelegate_next(delegator@));
                }
            },
            None => {},
        }
    }

    /// The account that `account_id` has delegated its voting power to, if any.
    pub fn get_delegate(&self, account_id: AccountId) -> (r: Option<AccountId>)
        requires
            self.wf(),
        ensures
            opt_text(r) == self@.delegate_of(account_id@),
    {
        proof {
            self.lemma_keys();
        }
        match find(&self.delegations, &account_id) {
            Some(i) => {
                proof {
                    lemma_position(delegators(self@.delegations), account_id@, i as int);
                }
                Some(self.delegations[i].delegate.clone())
            },
            None => None,
        }
    }

    /// The proposals from place `from_index` on (from the first where none is
    /// given), `limit` of them at most (50 where none is given), in the order of
    /// their identifiers.
    pub fn get_proposals(&self, from_index: Option<u128>, limit: Option<u64>) -> (r: Vec<Proposal>)
        ensures
            proposal_models(r@) == page(
                self@.proposals,
                from_index.unwrap_or(0) as nat,
                limit.unwrap_or(50) as nat,
            ),
    {
        let n: usize = self.proposals.len();
        let from: u128 = match from_index {
            Some(v) => v,
            None => 0,
        };
        let most: u64 = match limit {
            Some(v) => v,
            None => 50,
        };
        let mut r: Vec<Proposal> = Vec::new();
        let ghost all = proposal_models(self.proposals@);
        if from >= n as u128 {
            assert(proposal_models(r@) =~= Seq::<ProposalModel>::empty());
            return r;
        }
        let start: usize = from as usize;
        let end: usize = if most as u128 >= (n - start) as u128 {
            n
        } else {
            start + most as usize
        };
        let mut i: usize = start;
        assert(proposal_models(r@) =~= all.subrange(start as int, i as int));
        while i < end
            invariant
                start <= i <= end <= n,
                n == self.proposals.len(),
                all == proposal_models(self.proposals@),
                proposal_models(r@) == all.subrange(start as int, i as int),
            decreases end - i,
        {
            let ghost before = proposal_models(r@);
            r.push(self.proposals[i].clone());
            assert(proposal_models(r@) =~= before.push(all[i as int]));
            assert(before.push(all[i as int]) =~= all.subrange(start as int, i + 1));
            i += 1;
        }
        r
    }

    /// The members from place `from_index` on (from the first where none is
    /// given), `limit` of them at most (50 where none is given), in the order in
    /// which the members are walked.
    pub fn get_members(&self, from_index: Option<u128>, limit: Option<u64>) -> (r: Vec<Member>)
        ensures
            member_models(r@) == page(
                self@.members,
                from_index.unwrap_or(0) as nat,
                limit.unwrap_or(50) as nat,
            ),
    {
        let n: usize = self.members.len();
        let from: u128 = match from_index {
            Some(v) => v,
            None => 0,
        };
        let most: u64 = match limit {
            Some(v) => v,
            None => 50,
        };
        let mut r: Vec<Member> = Vec::new();
        let ghost all = member_models(self.members@);
        if from >= n as u128 {
            assert(member_models(r@) =~= Seq::<MemberModel>::empty());
            return r;
        }
        let start: usize = from as usize;
        let end: usize = if most as u128 >= (n - start) as u128 {
            n
        } else {
            start + most as usize
        };
        let mut i: usize = start;
        assert(member_models(r@) =~= all.subrange(start as int, i as int));
        while i < end
            invariant
                start <= i <= end <= n,
                n == self.members.len(),
                all == member_models(self.members@),
                member_models(r@) == all.subrange(start as int, i as int),
            decreases end - i,
        {
            let ghost before = member_models(r@);
            r.push(self.members[i].clone());
            assert(member_models(r@) =~= before.push(all[i as int]));
            assert(before.push(all[i as int]) =~= all.subrange(start as int, i + 1));
            i += 1;
        }
        r
    }

    /// A snapshot of the counters at `now`.
    ///
    /// Fails with `ArithmeticOverflow` where the two balances of the treasury
    /// together leave their range.
    pub fn get_dao_stats(&self, now: u64) -> (r: Result<DAOStats, DaoError>)
        requires
            self.wf(),
        ensures
            match r {
                Ok(stats) => stats == (DAOStats {
                    total_proposals: self@.proposal_counter,
                    active_proposals: self@.proposals.filter(is_active()).len() as u64,
                    total_members: self@.members.len() as u64,
                    total_voting_power: TOTAL_VOTING_POWER,
                    treasury_value: (self@.treasury.voice_balance + self@.treasury.near_balance) as u128,
                    total_contributions: self@.contribution_counter,
                    last_updated: now,
                }) && self@.treasury.voice_balance + self@.treasury.near_balance <= u128::MAX,
                Err(e) => e == DaoError::ArithmeticOverflow && self@.treasury.voice_balance
                    + self@.treasury.near_balance > u128::MAX,
            },
    {
        let treasury_value: u128 = match self.treasury.voice_balance.checked_add(self.treasury.near_balance) {
            Some(v) => v,
            None => {
                return Err(DaoError::ArithmeticOverflow);
            },
        };
        let active = self.get_active_proposals();
        assert(active@.len() == proposal_models(active@).len());
        assert(self.members@.len() == member_models(self.members@).len());
        Ok(
            DAOStats {
                total_proposals: self.proposal_counter,
                active_proposals: active.len() as u64,
                total_members: self.members.len() as u64,
                total_voting_power: self.get_total_voting_power(),
                treasury_value,
                total_contributions: self.contribution_counter,
                last_updated: now,
            },
        )
    }

    /// The state of the engine as plain records.
    pub fn into_snapshot(self) -> (s: DaoSnapshot)
        ensures
            s@ == self@,
    {
        DaoSnapshot {
            proposals: self.proposals,
            votes: self.votes,
            members: self.members,
            contributions: self.contributions,
            treasury: self.treasury,
            voice_token_contract: self.voice_token_contract,
            owner: self.owner,
            council: self.council,
            proposal_counter: self.proposal_counter,
            contribution_counter: self.contribution_counter,
            governance_config: self.governance_config,
            roles: self.roles,
            delegations: self.delegations,
            paused: self.paused,
        }
    }

    /// The engine with the state `s`, where that state is well formed; nothing
    /// where it is not.
    pub fn from_snapshot(s: DaoSnapshot) -> (r: Option<Self>)
        ensures
            match r {
                Some(dao) => s@.wf() && dao@ == s@ && dao.wf(),
                None => !s@.wf(),
            },
    {
        if !s.is_well_formed() {
            return None;
        }
        Some(
            VoiceDAO {
                proposals: s.proposals,
                votes: s.votes,
                members: s.members,
                contributions: s.contributions,
                treasury: s.treasury,
                voice_token_contract: s.voice_token_contract,
                owner: s.owner,
                council: s.council,
                proposal_counter: s.proposal_counter,
                contribution_counter: s.contribution_counter,
                governance_config: s.governance_config,
                roles: s.roles,
                delegations: s.delegations,
                paused: s.paused,
            },
        )
    }
}

} // verus!
