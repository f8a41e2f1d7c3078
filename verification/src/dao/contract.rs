//! The organisation itself: the state it keeps and the calls that change it.
//! Every call either succeeds and leaves the organisation as its contract says,
//! or fails with the reason and leaves the organisation as it was.

use crate::account::{account_id_is_valid, AccountId};
use crate::dao::model::{
    config_to_view, lemma_deactivated_wf, lemma_initial_wf, lemma_join_wf, lemma_same_members_wf,
    member_ids, member_to_view, payload_from_view, payload_ok, payload_to_view, proposal_to_view,
    voter_names, DaoState, OWNER_VOTING_POWER,
};
use crate::dao::types::{
    clone_voters, member_models, opt_payment, proposal_models, proposal_view_models, DAOConfig,
    DAOConfigView, DAOMember, DAOMemberView, DaoError, Payment, Proposal, ProposalModel,
    ProposalStatus, ProposalStatusView, ProposalType, ProposalTypeView, ProposalView, VoterRecord,
};
use crate::keyed::{contains_key, distinct_keys, find, keys_of, lemma_position, page, swap_removed};
use crate::text::{clone_strings, decimal_text, parse_u128, texts, u128_to_string, u64_to_string};
use vstd::prelude::*;
use vstd::string::*;

verus! {

/// The organisation.
pub struct DAO {
    owner_id: AccountId,
    config: DAOConfig,
    treasury_balance: u128,
    total_proposals: u128,
    proposals: Vec<Proposal>,
    members: Vec<DAOMember>,
    active_members: Vec<AccountId>,
    total_voting_power: u128,
    proposal_deposits: Vec<u128>,
}

impl View for DAO {
    type V = DaoState;

    closed spec fn view(&self) -> DaoState {
        DaoState {
            owner_id: self.owner_id@,
            config: self.config,
            treasury_balance: self.treasury_balance,
            total_proposals: self.total_proposals,
            proposals: proposal_models(self.proposals@),
            members: member_models(self.members@),
            active_members: texts(self.active_members@),
            total_voting_power: self.total_voting_power,
            proposal_deposits: self.proposal_deposits@,
        }
    }
}

/// The payload that a textual payload stands for, or why it stands for none.
pub fn proposal_type_from_view(payload: ProposalTypeView) -> (r: Result<ProposalType, DaoError>)
    ensures
        match r {
            Ok(p) => payload_from_view(payload@) == Ok::<_, DaoError>(p@) && payload_ok(p@),
            Err(e) => payload_from_view(payload@) == Err::<crate::dao::types::ProposalTypeModel, _>(e),
        },
{
    match payload {
        ProposalTypeView::ParameterChange { parameter, value } => Ok(
            ProposalType::ParameterChange { parameter, value },
        ),
        ProposalTypeView::TreasurySpend { recipient, amount, description } => {
            if !account_id_is_valid(recipient.as_str()) {
                return Err(DaoError::InvalidAccountId);
            }
            match parse_u128(amount.as_str()) {
                Some(n) => Ok(ProposalType::TreasurySpend { recipient, amount: n, description }),
                None => Err(DaoError::InvalidAmount),
            }
        },
        ProposalTypeView::MembershipChange { account_id, action } => {
            if !account_id_is_valid(account_id.as_str()) {
                return Err(DaoError::InvalidAccountId);
            }
            Ok(ProposalType::MembershipChange { account_id, action })
        },
        ProposalTypeView::General { description, actions } => Ok(
            ProposalType::General { description, actions },
        ),
    }
}

/// The whole state of an organisation as plain records, for keeping it between
/// calls. Not every such value is the state of an organisation: see
/// [`DaoState::wf`].
#[derive(Debug)]
pub struct DaoSnapshot {
    pub owner_id: AccountId,
    pub config: DAOConfig,
    pub treasury_balance: u128,
    pub total_proposals: u128,
    pub proposals: Vec<Proposal>,
    pub members: Vec<DAOMember>,
    pub active_members: Vec<AccountId>,
    pub total_voting_power: u128,
    pub proposal_deposits: Vec<u128>,
}

impl View for DaoSnapshot {
    type V = DaoState;

    open spec fn view(&self) -> DaoState {
        DaoState {
            owner_id: self.owner_id@,
            config: self.config,
            treasury_balance: self.treasury_balance,
            total_proposals: self.total_proposals,
            proposals: proposal_models(self.proposals@),
            members: member_models(self.members@),
            active_members: texts(self.active_members@),
            total_voting_power: self.total_voting_power,
            proposal_deposits: self.proposal_deposits@,
        }
    }
}

/// Whether the accounts that the payload names are account names.
fn payload_is_ok(p: &ProposalType) -> (ok: bool)
    ensures
        ok == payload_ok(p@),
{
    match p {
        ProposalType::TreasurySpend { recipient, .. } => account_id_is_valid(recipient.as_str()),
        ProposalType::MembershipChange { account_id, .. } => account_id_is_valid(account_id.as_str()),
        _ => true,
    }
}

impl DaoSnapshot {
    /// Whether the state is that of an organisation: see [`DaoState::wf`].
    pub fn is_well_formed(&self) -> (ok: bool)
        ensures
            ok == self@.wf(),
    {
        let ghost s = self@;
        let ghost ids = member_ids(s.members);
        proof {
            assert(keys_of(self.members@) =~= ids);
            assert(keys_of(self.active_members@) =~= s.active_members);
        }
        let n: usize = self.proposals.len();
        if self.total_proposals != n as u128 || self.proposal_deposits.len() != n {
            return false;
        }
        let mut i: usize = 0;
        while i < n
            invariant
                i <= n,
                n == self.proposals.len(),
                s == self@,
                forall|j: int|
                    0 <= j < i ==> {
                        &&& (#[trigger] s.proposals[j]).id == j + 1
                        &&& voter_names(s.proposals[j].voters).no_duplicates()
                        &&& payload_ok(s.proposals[j].proposal_type)
                    },
            decreases n - i,
        {
            proof {
                assert(keys_of(self.proposals[i as int].voters@) =~= voter_names(s.proposals[i as int].voters));
            }
            if self.proposals[i].id != i as u128 + 1 || !distinct_keys(&self.proposals[i].voters)
                || !payload_is_ok(&self.proposals[i].proposal_type) {
                assert(!(s.proposals[i as int].id == i + 1 && voter_names(
                    s.proposals[i as int].voters,
                ).no_duplicates() && payload_ok(s.proposals[i as int].proposal_type)));
                return false;
            }
            i += 1;
        }
        if !distinct_keys(&self.members) || !distinct_keys(&self.active_members) {
            return false;
        }
        let mut a: usize = 0;
        while a < self.active_members.len()
            invariant
                a <= self.active_members.len(),
                s == self@,
                ids == member_ids(s.members),
                ids.no_duplicates(),
                keys_of(self.members@) == ids,
                forall|j: int|
                    0 <= j < a ==> s.is_member(#[trigger] s.active_members[j]) && s.member(
                        s.active_members[j],
                    ).is_active,
            decreases self.active_members.len() - a,
        {
            let ghost who = s.active_members[a as int];
            match find(&self.members, &self.active_members[a]) {
                Some(m) => {
                    proof {
                        lemma_position(ids, who, m as int);
                    }
                    if !self.members[m].is_active {
                        assert(s.active_members.contains(who));
                        assert(!s.member(who).is_active);
                        return false;
                    }
                },
                None => {
                    assert(s.active_members.contains(who));
                    assert(!s.is_member(who));
                    return false;
                },
            }
            a += 1;
        }
        let mut m: usize = 0;
        while m < self.members.len()
            invariant
                m <= self.members.len(),
                s == self@,
                ids == member_ids(s.members),
                ids.no_duplicates(),
                keys_of(self.active_members@) == s.active_members,
                forall|j: int|
                    0 <= j < m ==> (#[trigger] s.members[j]).is_active ==> s.active_members.contains(
                        s.members[j].account_id,
                    ),
            decreases self.members.len() - m,
        {
            if self.members[m].is_active && !contains_key(&self.active_members, &self.members[m].account_id) {
                proof {
                    let who = s.members[m as int].account_id;
                    assert(ids[m as int] == who);
                    lemma_position(ids, who, m as int);
                    assert(s.is_member(who) && s.member(who).is_active);
                    assert(!s.active_members.contains(who));
                }
                return false;
            }
            m += 1;
        }
        proof {
            assert forall|who: Seq<char>| #[trigger]
                s.active_members.contains(who) <==> s.is_member(who) && s.member(who).is_active by {
                if s.active_members.contains(who) {
                    let j = choose|j: int| 0 <= j < s.active_members.len() && s.active_members[j] == who;
                    assert(s.is_member(s.active_members[j]));
                }
                if s.is_member(who) && s.member(who).is_active {
                    crate::keyed::lemma_position_in_range(ids, who);
                    let at = crate::keyed::position(ids, who);
                    assert(s.members[at].account_id == who);
                    assert(s.members[at].is_active);
                }
            }
        }
        true
    }
}

impl DAO {
    /// The state of the organisation as plain records.
    pub fn into_snapshot(self) -> (s: DaoSnapshot)
        ensures
            s@ == self@,
    {
        DaoSnapshot {
            owner_id: self.owner_id,
            config: self.config,
            treasury_balance: self.treasury_balance,
            total_proposals: self.total_proposals,
            proposals: self.proposals,
            members: self.members,
            active_members: self.active_members,
            total_voting_power: self.total_voting_power,
            proposal_deposits: self.proposal_deposits,
        }
    }

    /// The organisation with the state `s`, where that state is well formed;
    /// nothing where it is not.
    pub fn from_snapshot(s: DaoSnapshot) -> (r: Option<Self>)
        ensures
            match r {
                Some(dao) => s@.wf() && dao@ == s@ && dao.wf(),
                None => !s@.wf(),
            },
    {
        if !s.is_well_formed() {
            return None;
        }
        Some(
            DAO {
                owner_id: s.owner_id,
                config: s.config,
                treasury_balance: s.treasury_balance,
                total_proposals: s.total_proposals,
                proposals: s.proposals,
                members: s.members,
                active_members: s.active_members,
                total_voting_power: s.total_voting_power,
                proposal_deposits: s.proposal_deposits,
            },
        )
    }

    /// The organisation is well formed: see [`DaoState::wf`].
    pub open spec fn wf(&self) -> bool {
        self@.wf()
    }

    proof fn lemma_keys(&self)
        ensures
            keys_of(self.members@) == member_ids(self@.members),
            keys_of(self.active_members@) == self@.active_members,
            self.proposals@.len() == self@.proposals.len(),
            self.members@.len() == self@.members.len(),
    {
        assert(keys_of(self.members@) =~= member_ids(self@.members));
        assert(keys_of(self.active_members@) =~= self@.active_members);
    }

    /// A new organisation, owned by `owner_id`, at time `now`.
    pub fn new(owner_id: AccountId, now: u64) -> (dao: Self)
        ensures
            dao@ == DaoState::initial(owner_id@, now),
            dao.wf(),
    {
        let config = DAOConfig {
            voting_period: 604_800_000_000_000,
            execution_period: 259_200_000_000_000,
            quorum_threshold: 1000,
            approval_threshold: 5000,
            proposal_deposit: 100_000_000_000_000_000_000_000,
            min_voting_power: 1_000_000_000_000_000_000_000,
        };
        let mut members: Vec<DAOMember> = Vec::new();
        members.push(
            DAOMember {
                account_id: owner_id.clone(),
                voting_power: OWNER_VOTING_POWER,
                joined_at: now,
                is_active: true,
            },
        );
        let mut active_members: Vec<AccountId> = Vec::new();
        active_members.push(owner_id.clone());
        let dao = DAO {
            owner_id,
            config,
            treasury_balance: 0,
            total_proposals: 0,
            proposals: Vec::new(),
            members,
            active_members,
            total_voting_power: OWNER_VOTING_POWER,
            proposal_deposits: Vec::new(),
        };
        proof {
            let m = DaoState::initial(owner_id@, now);
            assert(dao@.members =~= m.members);
            assert(dao@.active_members =~= m.active_members);
            assert(dao@.proposals =~= m.proposals);
            assert(dao@.proposal_deposits =~= m.proposal_deposits);
            assert(dao@ =~= m);
            lemma_initial_wf(owner_id@, now);
        }
        dao
    }

    /// The owner of the organisation.
    pub fn owner_id(&self) -> (r: AccountId)
        ensures
            r@ == self@.owner_id,
    {
        self.owner_id.clone()
    }

    /// Adds `amount` to the treasury.
    ///
    /// Fails with `ArithmeticOverflow` where the balance would leave its range.
    pub fn add_to_treasury(&mut self, amount: u128) -> (r: Result<(), DaoError>)
        requires
            old(self).wf(),
        ensures
            final(self).wf(),
            match r {
                Ok(_) => old(self)@.treasury_balance + amount <= u128::MAX && final(self)@ == (DaoState {
                    treasury_balance: (old(self)@.treasury_balance + amount) as u128,
                    ..old(self)@
                }),
                Err(e) => e == DaoError::ArithmeticOverflow && old(self)@.treasury_balance + amount
                    > u128::MAX && final(self)@ == old(self)@,
            },
    {
        match self.treasury_balance.checked_add(amount) {
            Some(balance) => {
                self.treasury_balance = balance;
                proof {
                    assert(self@ =~= (DaoState {
                        treasury_balance: (old(self)@.treasury_balance + amount) as u128,
                        ..old(self)@
                    }));
                    lemma_same_members_wf(old(self)@, self@);
                }
                Ok(())
            },
            None => Err(DaoError::ArithmeticOverflow),
        }
    }

    /// Takes `account_id` in as an active member with the given voting power.
    ///
    /// Fails with `AlreadyMember`, else with `InsufficientVotingPower` for less
    /// than the least voting power, else with `ArithmeticOverflow` where the
    /// total voting power would leave its range.
    pub fn join_dao(&mut self, account_id: AccountId, voting_power: u128, now: u64) -> (r: Result<
        (),
        DaoError,
    >)
        requires
            old(self).wf(),
        ensures
            final(self).wf(),
            match r {
                Ok(_) => old(self)@.join_error(account_id@, voting_power) is None && final(self)@ == old(self)@.join_next(account_id@, voting_power, now),
                Err(e) => old(self)@.join_error(account_id@, voting_power) == Some(e) && final(self)@
                    == old(self)@,
            },
    {
        proof {
            self.lemma_keys();
        }
        if contains_key(&self.members, &account_id) {
            return Err(DaoError::AlreadyMember);
        }
        if voting_power < self.config.min_voting_power {
            return Err(DaoError::InsufficientVotingPower);
        }
        let total: u128 = match self.total_voting_power.checked_add(voting_power) {
            Some(t) => t,
            None => {
                return Err(DaoError::ArithmeticOverflow);
            },
        };
        proof {
            lemma_join_wf(self@, account_id@, voting_power, now);
        }
        self.members.push(
            DAOMember { account_id: account_id.clone(), voting_power, joined_at: now, is_active: true },
        );
        self.active_members.push(account_id);
        self.total_voting_power = total;
        proof {
            assert(self@.members =~= old(self)@.join_next(account_id@, voting_power, now).members);
            assert(self@.active_members =~= old(self)@.active_members.push(account_id@));
            assert(self@ =~= old(self)@.join_next(account_id@, voting_power, now));
        }
        Ok(())
    }

    /// Creates a proposal of `proposer` with the given payload, open for votes
    /// for the voting period from `now` and for execution for the execution
    /// period after that, and hands back its identifier in decimal: one more than
    /// the number of proposals so far. The deposit is kept with the proposal.
    ///
    /// Fails with `NotAMember`, else with `MemberNotActive`, else with
    /// `InsufficientDeposit`, else with `InvalidAccountId` or `InvalidAmount`
    /// for a payload that names no account or no amount, else with
    /// `ArithmeticOverflow` where the identifier or a time would leave its range.
    pub fn create_proposal(
        &mut self,
        proposer: AccountId,
        deposit: u128,
        proposal_type: ProposalTypeView,
        description: String,
        now: u64,
    ) -> (r: Result<String, DaoError>)
        requires
            old(self).wf(),
        ensures
            final(self).wf(),
            match r {
                Ok(id) => old(self)@.create_error(proposer@, deposit, proposal_type@, now) is None && final(self)@ == old(self)@.create_next(
                    old(self)@.created(proposer@, proposal_type@, description@, now),
                    deposit,
                ) && id@ == decimal_text((old(self)@.total_proposals + 1) as nat),
                Err(e) => old(self)@.create_error(proposer@, deposit, proposal_type@, now) == Some(e)
                    && final(self)@ == old(self)@,
            },
    {
        proof {
            self.lemma_keys();
        }
        let slot: usize = match find(&self.members, &proposer) {
            Some(i) => i,
            None => {
                return Err(DaoError::NotAMember);
            },
        };
        proof {
            lemma_position(member_ids(self@.members), proposer@, slot as int);
        }
        if !self.members[slot].is_active {
            return Err(DaoError::MemberNotActive);
        }
        if deposit < self.config.proposal_deposit {
            return Err(DaoError::InsufficientDeposit);
        }
        let ghost payload = proposal_type@;
        let internal = match proposal_type_from_view(proposal_type) {
            Ok(p) => p,
            Err(e) => {
                return Err(e);
            },
        };
        if self.total_proposals == u128::MAX {
            return Err(DaoError::ArithmeticOverflow);
        }
        let voting_period_end: u64 = match now.checked_add(self.config.voting_period) {
            Some(t) => t,
            None => {
                return Err(DaoError::ArithmeticOverflow);
            },
        };
        let execution_period_end: u64 = match voting_period_end.checked_add(self.config.execution_period) {
            Some(t) => t,
            None => {
                return Err(DaoError::ArithmeticOverflow);
            },
        };
        let proposal_id: u128 = self.total_proposals + 1;
        let proposal = Proposal {
            id: proposal_id,
            proposer,
            proposal_type: internal,
            description,
            votes_for: 0,
            votes_against: 0,
            status: ProposalStatus::InProgress,
            created_at: now,
            voting_period_end,
            execution_period_end,
            voters: Vec::new(),
        };
        let ghost p = old(self)@.created(proposer@, payload, description@, now);
        proof {
            assert(proposal@.voters =~= p.voters);
            assert(proposal@ == p);
        }
        self.proposals.push(proposal);
        self.proposal_deposits.push(deposit);
        self.total_proposals = proposal_id;
        proof {
            assert(self@.proposals =~= old(self)@.proposals.push(p));
            assert(self@ =~= old(self)@.create_next(p, deposit));
            assert(voter_names(p.voters) =~= Seq::<Seq<char>>::empty());
            assert forall|i: int| 0 <= i < self@.proposals.len() implies {
                &&& (#[trigger] self@.proposals[i]).id == i + 1
                &&& voter_names(self@.proposals[i].voters).no_duplicates()
                &&& payload_ok(self@.proposals[i].proposal_type)
            } by {
                if i < old(self)@.proposals.len() {
                    assert(self@.proposals[i] == old(self)@.proposals[i]);
                }
            }
            lemma_same_members_wf(old(self)@, self@);
        }
        Ok(u128_to_string(proposal_id))
    }

    /// The place of the proposal `proposal_id`, if there is such a proposal.
    fn proposal_slot(&self, proposal_id: u128) -> (r: Option<usize>)
        ensures
            match r {
                Some(i) => self@.has_proposal(proposal_id) && i == proposal_id - 1 && i < self.proposals.len(),
                None => !self@.has_proposal(proposal_id),
            },
    {
        if proposal_id == 0 {
            return None;
        }
        let n: usize = self.proposals.len();
        if proposal_id - 1 < n as u128 {
            Some((proposal_id - 1) as usize)
        } else {
            None
        }
    }

    /// Casts the one vote of `voter` on the proposal `proposal_id`, for where
    /// `support` holds and against where not, with the voting power of the voter.
    ///
    /// Fails with `NotAMember`, else with `MemberNotActive`, else with
    /// `ProposalNotFound`, else with `VotingEnded` at or after the end of the
    /// voting period, else with `NotInProgress`, else with `AlreadyVoted`, else
    /// with `ArithmeticOverflow` where the votes would leave their range.
    pub fn vote(&mut self, voter: AccountId, proposal_id: u128, support: bool, now: u64) -> (r: Result<
        (),
        DaoError,
    >)
        requires
            old(self).wf(),
        ensures
            final(self).wf(),
            match r {
                Ok(_) => old(self)@.vote_error(voter@, proposal_id, support, now) is None && final(self)@
                    == old(self)@.vote_next(voter@, proposal_id, support),
                Err(e) => old(self)@.vote_error(voter@, proposal_id, support, now) == Some(e) && final(self)@ == old(self)@,
            },
    {
        proof {
            self.lemma_keys();
        }
        let slot: usize = match find(&self.members, &voter) {
            Some(i) => i,
            None => {
                return Err(DaoError::NotAMember);
            },
        };
        proof {
            lemma_position(member_ids(self@.members), voter@, slot as int);
        }
        if !self.members[slot].is_active {
            return Err(DaoError::MemberNotActive);
        }
        let power: u128 = self.members[slot].voting_power;
        let idx: usize = match self.proposal_slot(proposal_id) {
            Some(i) => i,
            None => {
                return Err(DaoError::ProposalNotFound);
            },
        };
        if !(now < self.proposals[idx].voting_period_end) {
            return Err(DaoError::VotingEnded);
        }
        if !(self.proposals[idx].status == ProposalStatus::InProgress) {
            return Err(DaoError::NotInProgress);
        }
        proof {
            assert(keys_of(self.proposals[idx as int].voters@) =~= voter_names(
                old(self)@.proposal(proposal_id).voters,
            ));
        }
        if contains_key(&self.proposals[idx].voters, &voter) {
            return Err(DaoError::AlreadyVoted);
        }
        let counted: u128 = if support {
            self.proposals[idx].votes_for
        } else {
            self.proposals[idx].votes_against
        };
        let sum: u128 = match counted.checked_add(power) {
            Some(x) => x,
            None => {
                return Err(DaoError::ArithmeticOverflow);
            },
        };
        self.proposals[idx].voters.push(VoterRecord { voter, support });
        if support {
            self.proposals[idx].votes_for = sum;
        } else {
            self.proposals[idx].votes_against = sum;
        }
        proof {
            let t = old(self)@.vote_next(voter@, proposal_id, support);
            let p = old(self)@.proposal(proposal_id);
            assert(self@.proposals[idx as int].voters =~= p.voters.push((voter@, support)));
            assert(self@.proposals =~= t.proposals);
            assert(self@ =~= t);
            assert(voter_names(p.voters.push((voter@, support))) =~= voter_names(p.voters).push(voter@));
            crate::keyed::lemma_push_fresh(voter_names(p.voters), voter@);
            assert forall|i: int| 0 <= i < t.proposals.len() implies {
                &&& (#[trigger] t.proposals[i]).id == i + 1
                &&& voter_names(t.proposals[i].voters).no_duplicates()
                &&& payload_ok(t.proposals[i].proposal_type)
            } by {
                if i != idx {
                    assert(t.proposals[i] == old(self)@.proposals[i]);
                } else {
                    assert(old(self)@.proposals[i].id == i + 1);
                }
            }
            lemma_same_members_wf(old(self)@, t);
        }
        Ok(())
    }

    /// Decides the proposal `proposal_id` once its voting period is over: it is
    /// approved where the votes cast reach the quorum, the share
    /// `quorum_threshold` of the total voting power, and the votes for reach
    /// the share `approval_threshold` of the votes cast; it is rejected else.
    ///
    /// Fails with `ProposalNotFound`, else with `VotingNotEnded` before the end
    /// of the voting period, else with `AlreadyFinalized`, else with
    /// `ArithmeticOverflow` where the votes or a product would leave its range.
    pub fn finalize_proposal(&mut self, proposal_id: u128, now: u64) -> (r: Result<(), DaoError>)
        requires
            old(self).wf(),
        ensures
            final(self).wf(),
            match r {
                Ok(_) => old(self)@.finalize_error(proposal_id, now) is None && final(self)@ == old(self)@.finalize_next(proposal_id),
                Err(e) => old(self)@.finalize_error(proposal_id, now) == Some(e) && final(self)@ == old(self)@,
            },
    {
        let idx: usize = match self.proposal_slot(proposal_id) {
            Some(i) => i,
            None => {
                return Err(DaoError::ProposalNotFound);
            },
        };
        if !(now >= self.proposals[idx].voting_period_end) {
            return Err(DaoError::VotingNotEnded);
        }
        if !(self.proposals[idx].status == ProposalStatus::InProgress) {
            return Err(DaoError::AlreadyFinalized);
        }
        let votes_for: u128 = self.proposals[idx].votes_for;
        let total_votes: u128 = match votes_for.checked_add(self.proposals[idx].votes_against) {
            Some(x) => x,
            None => {
                return Err(DaoError::ArithmeticOverflow);
            },
        };
        let quorum: u128 = match self.total_voting_power.checked_mul(self.config.quorum_threshold as u128) {
            Some(x) => x / 10000,
            None => {
                return Err(DaoError::ArithmeticOverflow);
            },
        };
        let outcome: ProposalStatus = if total_votes < quorum {
            ProposalStatus::Rejected
        } else {
            let needed: u128 = match total_votes.checked_mul(self.config.approval_threshold as u128) {
                Some(x) => x / 10000,
                None => {
                    return Err(DaoError::ArithmeticOverflow);
                },
            };
            if votes_for >= needed {
                ProposalStatus::Approved
            } else {
                ProposalStatus::Rejected
            }
        };
        self.proposals[idx].status = outcome;
        proof {
            let t = old(self)@.finalize_next(proposal_id);
            assert(self@.proposals =~= t.proposals);
            assert(self@ =~= t);
            assert forall|i: int| 0 <= i < t.proposals.len() implies {
                &&& (#[trigger] t.proposals[i]).id == i + 1
                &&& voter_names(t.proposals[i].voters).no_duplicates()
                &&& payload_ok(t.proposals[i].proposal_type)
            } by {
                assert(old(self)@.proposals[i].id == i + 1);
            }
            lemma_same_members_wf(old(self)@, t);
        }
        Ok(())
    }

    /// Executes the approved proposal `proposal_id` within its execution period,
    /// and hands back the payment to make, if any. A spend leaves the treasury; a
    /// change of membership with the action `"remove"` makes a member inactive
    /// and takes its voting power out of the total; any other payload changes
    /// nothing. The proposal stays approved.
    ///
    /// Fails with `ProposalNotFound`, else with `NotApproved`, else with
    /// `ExecutionExpired` after the execution period, else with
    /// `InsufficientTreasury` for a spend that the treasury does not cover, else
    /// with `ArithmeticOverflow` where the voting power of the member removed
    /// is more than the total.
    pub fn execute_proposal(&mut self, proposal_id: u128, now: u64) -> (r: Result<Option<Payment>, DaoError>)
        requires
            old(self).wf(),
        ensures
            final(self).wf(),
            match r {
                Ok(payment) => old(self)@.execute_error(proposal_id, now) is None && final(self)@ == old(self)@.execute_next(proposal_id) && opt_payment(payment) == old(self)@.execute_payment(
                    proposal_id,
                ),
                Err(e) => old(self)@.execute_error(proposal_id, now) == Some(e) && final(self)@ == old(self)@,
            },
    {
        let idx: usize = match self.proposal_slot(proposal_id) {
            Some(i) => i,
            None => {
                return Err(DaoError::ProposalNotFound);
            },
        };
        if !(self.proposals[idx].status == ProposalStatus::Approved) {
            return Err(DaoError::NotApproved);
        }
        if !(now <= self.proposals[idx].execution_period_end) {
            return Err(DaoError::ExecutionExpired);
        }
        proof {
            self.lemma_keys();
        }
        let payload = self.proposals[idx].proposal_type.clone();
        match payload {
            ProposalType::TreasurySpend { recipient, amount, description } => {
                if !(self.treasury_balance >= amount) {
                    return Err(DaoError::InsufficientTreasury);
                }
                self.treasury_balance = self.treasury_balance - amount;
                proof {
                    assert(self@ =~= old(self)@.execute_next(proposal_id));
                    lemma_same_members_wf(old(self)@, self@);
                }
                Ok(Some(Payment { recipient, amount }))
            },
            ProposalType::MembershipChange { account_id, action } => {
                if action == String::from_str("remove") {
                    match find(&self.members, &account_id) {
                        Some(at) => {
                            proof {
                                lemma_position(member_ids(self@.members), account_id@, at as int);
                                lemma_deactivated_wf(self@, account_id@);
                            }
                            let power: u128 = self.members[at].voting_power;
                            if self.total_voting_power < power {
                                return Err(DaoError::ArithmeticOverflow);
                            }
                            self.members[at].is_active = false;
                            match find(&self.active_members, &account_id) {
                                Some(i) => {
                                    proof {
                                        lemma_position(old(self)@.active_members, account_id@, i as int);
                                    }
                                    let _ = self.active_members.swap_remove(i);
                                    proof {
                                        assert(self@.active_members =~= swap_removed(
                                            old(self)@.active_members,
                                            i as int,
                                        ));
                                    }
                                },
                                None => {},
                            }
                            self.total_voting_power = self.total_voting_power - power;
                            proof {
                                let t = old(self)@.deactivated(account_id@);
                                assert(self@.members =~= t.members);
                                assert(self@ =~= t);
                            }
                            Ok(None)
                        },
                        None => Ok(None),
                    }
                } else {
                    Ok(None)
                }
            },
            _ => Ok(None),
        }
    }

    /// The textual form of a payload.
    pub fn proposal_type_to_view(&self, proposal_type: &ProposalType) -> (r: ProposalTypeView)
        ensures
            r@ == payload_to_view(proposal_type@),
    {
        match proposal_type {
            ProposalType::ParameterChange { parameter, value } => ProposalTypeView::ParameterChange {
                parameter: parameter.clone(),
                value: value.clone(),
            },
            ProposalType::TreasurySpend { recipient, amount, description } => ProposalTypeView::TreasurySpend {
                recipient: recipient.clone(),
                amount: u128_to_string(*amount),
                description: description.clone(),
            },
            ProposalType::MembershipChange { account_id, action } => ProposalTypeView::MembershipChange {
                account_id: account_id.clone(),
                action: action.clone(),
            },
            ProposalType::General { description, actions } => ProposalTypeView::General {
                description: description.clone(),
                actions: clone_strings(actions),
            },
        }
    }

    /// The textual form of a proposal.
    pub fn proposal_to_view(&self, proposal: &Proposal) -> (r: ProposalView)
        ensures
            r@ == proposal_to_view(proposal@),
    {
        ProposalView {
            id: u128_to_string(proposal.id),
            proposer: proposal.proposer.clone(),
            proposal_type: self.proposal_type_to_view(&proposal.proposal_type),
            description: proposal.description.clone(),
            votes_for: u128_to_string(proposal.votes_for),
            votes_against: u128_to_string(proposal.votes_against),
            status: match proposal.status {
                ProposalStatus::InProgress => ProposalStatusView::InProgress,
                ProposalStatus::Approved => ProposalStatusView::Approved,
                ProposalStatus::Rejected => ProposalStatusView::Rejected,
                ProposalStatus::Expired => ProposalStatusView::Expired,
            },
            created_at: u64_to_string(proposal.created_at),
            voting_period_end: u64_to_string(proposal.voting_period_end),
            execution_period_end: u64_to_string(proposal.execution_period_end),
            voters: clone_voters(&proposal.voters),
        }
    }

    /// The textual form of a member.
    pub fn member_to_view(&self, member: &DAOMember) -> (r: DAOMemberView)
        ensures
            r@ == member_to_view(member@),
    {
        DAOMemberView {
            account_id: member.account_id.clone(),
            voting_power: u128_to_string(member.voting_power),
            joined_at: u64_to_string(member.joined_at),
            is_active: member.is_active,
        }
    }

    /// The textual form of the parameters.
    pub fn config_to_view(&self, config: DAOConfig) -> (r: DAOConfigView)
        ensures
            r@ == config_to_view(config),
    {
        DAOConfigView {
            voting_period: u64_to_string(config.voting_period),
            execution_period: u64_to_string(config.execution_period),
            quorum_threshold: config.quorum_threshold,
            approval_threshold: config.approval_threshold,
            proposal_deposit: u128_to_string(config.proposal_deposit),
            min_voting_power: u128_to_string(config.min_voting_power),
        }
    }

    /// The proposal `proposal_id` in the textual form, if there is one.
    pub fn get_proposal(&self, proposal_id: u128) -> (r: Option<ProposalView>)
        ensures
            match r {
                Some(p) => self@.has_proposal(proposal_id) && p@ == proposal_to_view(
                    self@.proposal(proposal_id),
                ),
                None => !self@.has_proposal(proposal_id),
            },
    {
        match self.proposal_slot(proposal_id) {
            Some(i) => Some(self.proposal_to_view(&self.proposals[i])),
            None => None,
        }
    }

    /// The deposit that came with the proposal `proposal_id`, if there is one.
    pub fn get_proposal_deposit(&self, proposal_id: u128) -> (r: Option<u128>)
        requires
            self.wf(),
        ensures
            match r {
                Some(d) => self@.has_proposal(proposal_id) && d == self@.proposal_deposits[proposal_id - 1],
                None => !self@.has_proposal(proposal_id),
            },
    {
        match self.proposal_slot(proposal_id) {
            Some(i) => {
                proof {
                    self.lemma_keys();
                }
                Some(self.proposal_deposits[i])
            },
            None => None,
        }
    }

    /// The member `account_id` in the textual form, if there is one.
    pub fn get_member(&self, account_id: AccountId) -> (r: Option<DAOMemberView>)
        requires
            self.wf(),
        ensures
            match r {
                Some(m) => self@.is_member(account_id@) && m@ == member_to_view(self@.member(account_id@)),
                None => !self@.is_member(account_id@),
            },
    {
        proof {
            self.lemma_keys();
        }
        match find(&self.members, &account_id) {
            Some(i) => {
                proof {
                    lemma_position(member_ids(self@.members), account_id@, i as int);
                }
                Some(self.member_to_view(&self.members[i]))
            },
            None => None,
        }
    }

    /// The parameters in the textual form.
    pub fn get_config(&self) -> (r: DAOConfigView)
        ensures
            r@ == config_to_view(self@.config),
    {
        self.config_to_view(self.config)
    }

    /// The balance of the treasury, in decimal.
    pub fn get_treasury_balance(&self) -> (r: String)
        ensures
            r@ == decimal_text(self@.treasury_balance as nat),
    {
        u128_to_string(self.treasury_balance)
    }

    /// The number of proposals, in decimal.
    pub fn get_total_proposals(&self) -> (r: String)
        ensures
            r@ == decimal_text(self@.total_proposals as nat),
    {
        u128_to_string(self.total_proposals)
    }

    /// The total voting power of the active members and the removed ones not yet
    /// taken out, in decimal.
    pub fn get_total_voting_power(&self) -> (r: String)
        ensures
            r@ == decimal_text(self@.total_voting_power as nat),
    {
        u128_to_string(self.total_voting_power)
    }

    /// The active members, in the order in which they are walked.
    pub fn get_active_members(&self) -> (r: Vec<String>)
        ensures
            texts(r@) == self@.active_members,
    {
        clone_strings(&self.active_members)
    }

    /// The proposals in the textual form from place `from_index` on (from the
    /// first where none is given), `limit` of them at most (10 where none is
    /// given), in the order of their identifiers.
    pub fn get_proposals(&self, from_index: Option<u128>, limit: Option<u64>) -> (r: Vec<ProposalView>)
        ensures
            proposal_view_models(r@) == page(
                self@.proposals,
                from_index.unwrap_or(0) as nat,
                limit.unwrap_or(10) as nat,
            ).map_values(|p: ProposalModel| proposal_to_view(p)),
    {
        let n: usize = self.proposals.len();
        let from: u128 = match from_index {
            Some(v) => v,
            None => 0,
        };
        let most: u64 = match limit {
            Some(v) => v,
            None => 10,
        };
        let mut r: Vec<ProposalView> = Vec::new();
        let ghost all = proposal_models(self.proposals@);
        let ghost shown = all.map_values(|p: ProposalModel| proposal_to_view(p));
        if from >= n as u128 {
            assert(proposal_view_models(r@) =~= Seq::<ProposalModel>::empty().map_values(
                |p: ProposalModel| proposal_to_view(p),
            ));
            return r;
        }
        let start: usize = from as usize;
        let end: usize = if most as u128 >= (n - start) as u128 {
            n
        } else {
            start + most as usize
        };
        let mut i: usize = start;
        assert(proposal_view_models(r@) =~= shown.subrange(start as int, i as int));
        while i < end
            invariant
                start <= i <= end <= n,
                n == self.proposals.len(),
                all == proposal_models(self.proposals@),
                shown == all.map_values(|p: ProposalModel| proposal_to_view(p)),
                proposal_view_models(r@) == shown.subrange(start as int, i as int),
            decreases end - i,
        {
            let ghost before = proposal_view_models(r@);
            r.push(self.proposal_to_view(&self.proposals[i]));
            assert(proposal_view_models(r@) =~= before.push(shown[i as int]));
            assert(before.push(shown[i as int]) =~= shown.subrange(start as int, i + 1));
            i += 1;
        }
        assert(shown.subrange(start as int, end as int) =~= all.subrange(start as int, end as int).map_values(
            |p: ProposalModel| proposal_to_view(p),
        ));
        r
    }
}

} // verus!
