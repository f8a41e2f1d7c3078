//! The orchestrator itself: the state it keeps and the calls that change it.
//! Every call either succeeds and leaves the orchestrator as its contract
//! says, or fails with the reason and leaves the orchestrator as it was.

use crate::account::{account_id_is_valid, valid_account_id, AccountId};
use crate::keyed::{contains_key, distinct_keys, find, keys_of, lemma_position, page};
use crate::ledger::{
    amount_of, distinct_names, get_amount, named_amounts, set_amount, total_amount, NamedAmount,
};
use crate::orchestrator::model::{
    activity_ids, activity_models, activity_to_view, after_activity, config_keys, config_of,
    config_pairs, lemma_log_wf, lemma_record_wf, lemma_stats_wf, lemma_with_config,
    operation_models, operation_to_view, operation_view_models, registry_error, stats_to_view,
    with_config, ConfigEntry, ContractCall, ContractRegistry, ContractRegistryView,
    OrchestratorError, OrchestratorState, PlatformOperation, PlatformOperationModel,
    PlatformOperationView, PlatformStats, PlatformStatsView, UserActivity, UserActivityView,
};
use crate::text::{clone_opt_string, decimal_text, opt_text, texts, u128_to_string, u64_to_string};
use vstd::prelude::*;
use vstd::string::*;

verus! {

/// Whether every name of the list is the name of an account.
pub open spec fn all_accounts(names: Seq<Seq<char>>) -> bool {
    forall|i: int| 0 <= i < names.len() ==> valid_account_id(#[trigger] names[i])
}

/// Whether every name of the list is the name of an account.
fn are_accounts(names: &Vec<AccountId>) -> (ok: bool)
    ensures
        ok == all_accounts(texts(names@)),
{
    let mut i: usize = 0;
    while i < names.len()
        invariant
            i <= names.len(),
            forall|j: int| 0 <= j < i ==> valid_account_id(#[trigger] texts(names@)[j]),
        decreases names.len() - i,
    {
        if !account_id_is_valid(names[i].as_str()) {
            assert(texts(names@)[i as int] == names[i as int]@);
            return false;
        }
        assert(texts(names@)[i as int] == names[i as int]@);
        i += 1;
    }
    true
}

/// The text that `format!` of the standard library makes of the recipients, as
/// accounts of the crate `near-account-id`, and of the token identifiers of a
/// batch: the two lists as `{:?}` writes them, after `recipients: ` and
/// `, token_ids: `.
pub uninterp spec fn batch_parameters_text(recipients: Seq<Seq<char>>, token_ids: Seq<Seq<char>>) -> Seq<
    char,
>;

/// The parameters of a batch mint, as the log keeps them: what `format!` of the
/// standard library writes for `recipients: {:?}, token_ids: {:?}`, the
/// recipients being accounts of the crate `near-account-id`, which `str::parse`
/// makes of valid names. The contract gives the text a name and says no more
/// of it: it is the same for the same lists. It is taken on trust.
#[verifier::external_body]
fn batch_parameters(recipients: &Vec<AccountId>, token_ids: &Vec<String>) -> (s: String)
    requires
        all_accounts(texts(recipients@)),
    ensures
        s@ == batch_parameters_text(texts(recipients@), texts(token_ids@)),
{
    let accounts: Vec<near_account_id::AccountId> = recipients.iter().map(|r| r.parse().unwrap()).collect();
    format!("recipients: {:?}, token_ids: {:?}", accounts, token_ids)
}

/// The orchestrator.
pub struct Orchestrator {
    owner_id: AccountId,
    contract_registry: ContractRegistry,
    platform_stats: PlatformStats,
    user_activities: Vec<UserActivity>,
    active_users: Vec<AccountId>,
    operations: Vec<PlatformOperation>,
    total_operations: u128,
    platform_config: Vec<ConfigEntry>,
    revenue_by_contract: Vec<NamedAmount>,
}

impl View for Orchestrator {
    type V = OrchestratorState;

    closed spec fn view(&self) -> OrchestratorState {
        OrchestratorState {
            owner_id: self.owner_id@,
            contract_registry: self.contract_registry@,
            platform_stats: self.platform_stats,
            user_activities: activity_models(self.user_activities@),
            active_users: texts(self.active_users@),
            operations: operation_models(self.operations@),
            total_operations: self.total_operations,
            platform_config: config_pairs(self.platform_config@),
            revenue_by_contract: named_amounts(self.revenue_by_contract@),
        }
    }
}

/// The whole state of an orchestrator as plain records, for keeping it between
/// calls. Not every such value is the state of an orchestrator: see
/// [`OrchestratorState::wf`].
#[derive(Debug)]
pub struct OrchestratorSnapshot {
    pub owner_id: AccountId,
    pub contract_registry: ContractRegistry,
    pub platform_stats: PlatformStats,
    pub user_activities: Vec<UserActivity>,
    pub active_users: Vec<AccountId>,
    pub operations: Vec<PlatformOperation>,
    pub total_operations: u128,
    pub platform_config: Vec<ConfigEntry>,
    pub revenue_by_contract: Vec<NamedAmount>,
}

impl View for OrchestratorSnapshot {
    type V = OrchestratorState;

    open spec fn view(&self) -> OrchestratorState {
        OrchestratorState {
            owner_id: self.owner_id@,
            contract_registry: self.contract_registry@,
            platform_stats: self.platform_stats,
            user_activities: activity_models(self.user_activities@),
            active_users: texts(self.active_users@),
            operations: operation_models(self.operations@),
            total_operations: self.total_operations,
            platform_config: config_pairs(self.platform_config@),
            revenue_by_contract: named_amounts(self.revenue_by_contract@),
        }
    }
}

impl OrchestratorSnapshot {
    /// Whether the state is that of an orchestrator: see [`OrchestratorState::wf`].
    pub fn is_well_formed(&self) -> (ok: bool)
        ensures
            ok == self@.wf(),
    {
        let ghost s = self@;
        let ghost ids = activity_ids(s.user_activities);
        proof {
            assert(keys_of(self.user_activities@) =~= ids);
            assert(keys_of(self.active_users@) =~= s.active_users);
            assert(keys_of(self.platform_config@) =~= config_keys(s.platform_config));
        }
        if !distinct_keys(&self.user_activities) || !distinct_keys(&self.active_users) {
            return false;
        }
        let mut a: usize = 0;
        while a < self.active_users.len()
            invariant
                a <= self.active_users.len(),
                s == self@,
                ids == activity_ids(s.user_activities),
                keys_of(self.user_activities@) == ids,
                forall|j: int| 0 <= j < a ==> ids.contains(#[trigger] s.active_users[j]),
            decreases self.active_users.len() - a,
        {
            if !contains_key(&self.user_activities, &self.active_users[a]) {
                proof {
                    let who = s.active_users[a as int];
                    assert(s.active_users.contains(who));
                    assert(!ids.contains(who));
                }
                return false;
            }
            a += 1;
        }
        let mut u: usize = 0;
        while u < self.user_activities.len()
            invariant
                u <= self.user_activities.len(),
                s == self@,
                ids == activity_ids(s.user_activities),
                keys_of(self.active_users@) == s.active_users,
                forall|j: int| 0 <= j < u ==> s.active_users.contains(#[trigger] ids[j]),
            decreases self.user_activities.len() - u,
        {
            if !contains_key(&self.active_users, &self.user_activities[u].account_id) {
                proof {
                    let who = ids[u as int];
                    assert(ids.contains(who));
                    assert(!s.active_users.contains(who));
                }
                return false;
            }
            u += 1;
        }
        proof {
            assert forall|who: Seq<char>| #[trigger] s.active_users.contains(who) <==> ids.contains(who) by {
                if s.active_users.contains(who) {
                    let j = choose|j: int| 0 <= j < s.active_users.len() && s.active_users[j] == who;
                    assert(ids.contains(s.active_users[j]));
                }
                if ids.contains(who) {
                    let j = choose|j: int| 0 <= j < ids.len() && ids[j] == who;
                    assert(s.active_users.contains(ids[j]));
                }
            }
        }
        if self.platform_stats.total_active_users != self.active_users.len() as u128 {
            return false;
        }
        let n: usize = self.operations.len();
        if self.total_operations != n as u128 {
            return false;
        }
        let mut i: usize = 0;
        while i < n
            invariant
                i <= n,
                n == self.operations.len(),
                s == self@,
                forall|j: int| 0 <= j < i ==> (#[trigger] s.operations[j]).operation_id == j + 1,
            decreases n - i,
        {
            if self.operations[i].operation_id != i as u128 + 1 {
                assert(s.operations[i as int].operation_id != i + 1);
                return false;
            }
            i += 1;
        }
        if !distinct_keys(&self.platform_config) || !distinct_names(&self.revenue_by_contract) {
            return false;
        }
        match total_amount(&self.revenue_by_contract) {
            Some(total) => total == self.platform_stats.platform_revenue,
            None => false,
        }
    }
}

impl Orchestrator {
    /// The state of the orchestrator as plain records.
    pub fn into_snapshot(self) -> (s: OrchestratorSnapshot)
        ensures
            s@ == self@,
    {
        OrchestratorSnapshot {
            owner_id: self.owner_id,
            contract_registry: self.contract_registry,
            platform_stats: self.platform_stats,
            user_activities: self.user_activities,
            active_users: self.active_users,
            operations: self.operations,
            total_operations: self.total_operations,
            platform_config: self.platform_config,
            revenue_by_contract: self.revenue_by_contract,
        }
    }

    /// The orchestrator with the state `s`, where that state is well formed;
    /// nothing where it is not.
    pub fn from_snapshot(s: OrchestratorSnapshot) -> (r: Option<Self>)
        ensures
            match r {
                Some(o) => s@.wf() && o@ == s@ && o.wf(),
                None => !s@.wf(),
            },
    {
        if !s.is_well_formed() {
            return None;
        }
        Some(
            Orchestrator {
                owner_id: s.owner_id,
                contract_registry: s.contract_registry,
                platform_stats: s.platform_stats,
                user_activities: s.user_activities,
                active_users: s.active_users,
                operations: s.operations,
                total_operations: s.total_operations,
                platform_config: s.platform_config,
                revenue_by_contract: s.revenue_by_contract,
            },
        )
    }

    /// The orchestrator is well formed: see [`OrchestratorState::wf`].
    pub open spec fn wf(&self) -> bool {
        self@.wf()
    }

    proof fn lemma_keys(&self)
        ensures
            keys_of(self.user_activities@) == activity_ids(self@.user_activities),
            keys_of(self.platform_config@) == config_keys(self@.platform_config),
            self.operations@.len() == self@.operations.len(),
            self.active_users@.len() == self@.active_users.len(),
    {
        assert(keys_of(self.user_activities@) =~= activity_ids(self@.user_activities));
        assert(keys_of(self.platform_config@) =~= config_keys(self@.platform_config));
    }

    /// A new orchestrator, owned by `owner_id`, with the four contracts of the platform.
    pub fn new(
        owner_id: AccountId,
        voice_token_contract: AccountId,
        voice_nft_contract: AccountId,
        marketplace_contract: AccountId,
        dao_contract: AccountId,
    ) -> (o: Self)
        ensures
            o@ == OrchestratorState::initial(
                owner_id@,
                crate::orchestrator::model::RegistryModel {
                    voice_token_contract: voice_token_contract@,
                    voice_nft_contract: voice_nft_contract@,
                    marketplace_contract: marketplace_contract@,
                    dao_contract: dao_contract@,
                },
            ),
            o.wf(),
    {
        let o = Orchestrator {
            owner_id,
            contract_registry: ContractRegistry {
                voice_token_contract,
                voice_nft_contract,
                marketplace_contract,
                dao_contract,
            },
            platform_stats: PlatformStats {
                total_voice_tokens_minted: 0,
                total_voice_nfts_minted: 0,
                total_marketplace_transactions: 0,
                total_dao_proposals: 0,
                total_active_users: 0,
                platform_revenue: 0,
            },
            user_activities: Vec::new(),
            active_users: Vec::new(),
            operations: Vec::new(),
            total_operations: 0,
            platform_config: Vec::new(),
            revenue_by_contract: Vec::new(),
        };
        proof {
            let m = OrchestratorState::initial(o@.owner_id, o@.contract_registry);
            assert(o@.user_activities =~= m.user_activities);
            assert(o@.active_users =~= m.active_users);
            assert(o@.operations =~= m.operations);
            assert(o@.platform_config =~= m.platform_config);
            assert(o@.revenue_by_contract =~= m.revenue_by_contract);
            assert(o@ =~= m);
            assert(activity_ids(m.user_activities) =~= Seq::<Seq<char>>::empty());
            assert(config_keys(m.platform_config) =~= Seq::<Seq<char>>::empty());
            assert(crate::ledger::names(m.revenue_by_contract) =~= Seq::<Seq<char>>::empty());
        }
        o
    }

    /// The owner of the orchestrator.
    pub fn owner_id(&self) -> (r: AccountId)
        ensures
            r@ == self@.owner_id,
    {
        self.owner_id.clone()
    }

    /// Replaces the registry by the one given in the textual form. Only the
    /// owner may.
    ///
    /// Fails with `Unauthorized`, else with the error of the first of the four
    /// accounts, in the order of the registry, that is no account name.
    pub fn update_contract_registry(&mut self, caller: &AccountId, contract_registry: ContractRegistryView) -> (r:
        Result<(), OrchestratorError>)
        requires
            old(self).wf(),
        ensures
            final(self).wf(),
            match r {
                Ok(_) => caller@ == old(self)@.owner_id && registry_error(contract_registry@) is None
                    && final(self)@ == (OrchestratorState {
                    contract_registry: contract_registry@,
                    ..old(self)@
                }),
                Err(e) => final(self)@ == old(self)@ && if caller@ != old(self)@.owner_id {
                    e == OrchestratorError::Unauthorized
                } else {
                    registry_error(contract_registry@) == Some(e)
                },
            },
    {
        if !(*caller == self.owner_id) {
            return Err(OrchestratorError::Unauthorized);
        }
        if !account_id_is_valid(contract_registry.voice_token_contract.as_str()) {
            return Err(OrchestratorError::InvalidVoiceTokenContract);
        }
        if !account_id_is_valid(contract_registry.voice_nft_contract.as_str()) {
            return Err(OrchestratorError::InvalidVoiceNftContract);
        }
        if !account_id_is_valid(contract_registry.marketplace_contract.as_str()) {
            return Err(OrchestratorError::InvalidMarketplaceContract);
        }
        if !account_id_is_valid(contract_registry.dao_contract.as_str()) {
            return Err(OrchestratorError::InvalidDaoContract);
        }
        self.contract_registry = ContractRegistry {
            voice_token_contract: contract_registry.voice_token_contract,
            voice_nft_contract: contract_registry.voice_nft_contract,
            marketplace_contract: contract_registry.marketplace_contract,
            dao_contract: contract_registry.dao_contract,
        };
        proof {
            assert(self@ =~= (OrchestratorState { contract_registry: contract_registry@, ..old(self)@ }));
        }
        Ok(())
    }

    /// Whether `caller` is one of the four contracts of the registry, or the owner.
    fn may_report(&self, caller: &AccountId) -> (r: bool)
        ensures
            r == self@.may_report(caller@),
    {
        *caller == self.contract_registry.voice_token_contract || *caller
            == self.contract_registry.voice_nft_contract || *caller
            == self.contract_registry.marketplace_contract || *caller == self.contract_registry.dao_contract
            || *caller == self.owner_id
    }

    /// Records an activity of `account_id` of the kind `activity_type` at `now`.
    /// The contracts of the registry may, and the owner. A token transaction
    /// (`"voice_token_transaction"`) sets the balance of the user to `value`;
    /// the mint of a voice token (`"voice_nft_mint"`), a marketplace transaction
    /// (`"marketplace_transaction"`) and a vote (`"dao_vote"`) each count one
    /// more of their kind and earn 10, 5 and 15 of reputation; any other kind
    /// only marks the time. A user who was not active is from now on.
    ///
    /// Fails with `Unauthorized`, else with `ArithmeticOverflow` where a figure
    /// of the user would leave its range.
    pub fn record_user_activity(
        &mut self,
        caller: &AccountId,
        account_id: AccountId,
        activity_type: String,
        value: u128,
        now: u64,
    ) -> (r: Result<(), OrchestratorError>)
        requires
            old(self).wf(),
        ensures
            final(self).wf(),
            match r {
                Ok(_) => old(self)@.record_error(caller@, account_id@, activity_type@, now) is None
                    && final(self)@ == old(self)@.record_next(account_id@, activity_type@, value, now),
                Err(e) => old(self)@.record_error(caller@, account_id@, activity_type@, now) == Some(e)
                    && final(self)@ == old(self)@,
            },
    {
        if !self.may_report(caller) {
            return Err(OrchestratorError::Unauthorized);
        }
        proof {
            self.lemma_keys();
        }
        let slot = find(&self.user_activities, &account_id);
        let mut activity = match slot {
            Some(i) => {
                proof {
                    lemma_position(activity_ids(self@.user_activities), account_id@, i as int);
                }
                UserActivity {
                    account_id: account_id.clone(),
                    voice_tokens_balance: self.user_activities[i].voice_tokens_balance,
                    voice_nfts_owned: self.user_activities[i].voice_nfts_owned,
                    marketplace_transactions: self.user_activities[i].marketplace_transactions,
                    dao_participation: self.user_activities[i].dao_participation,
                    last_activity: self.user_activities[i].last_activity,
                    reputation_score: self.user_activities[i].reputation_score,
                }
            },
            None => UserActivity {
                account_id: account_id.clone(),
                voice_tokens_balance: 0,
                voice_nfts_owned: 0,
                marketplace_transactions: 0,
                dao_participation: 0,
                last_activity: now,
                reputation_score: 0,
            },
        };
        let ghost before = old(self)@.activity_or_fresh(account_id@, now);
        assert(activity@ == before);
        proof {
            reveal_strlit("voice_token_transaction");
            reveal_strlit("voice_nft_mint");
            reveal_strlit("marketplace_transaction");
            reveal_strlit("dao_vote");
            assert("voice_token_transaction"@.len() == 23);
            assert("voice_nft_mint"@.len() == 14);
            assert("marketplace_transaction"@.len() == 23);
            assert("dao_vote"@.len() == 8);
            assert("voice_token_transaction"@[0] == 'v');
            assert("marketplace_transaction"@[0] == 'm');
        }
        if activity_type == String::from_str("voice_token_transaction") {
            activity.voice_tokens_balance = value;
        } else if activity_type == String::from_str("voice_nft_mint") {
            if activity.voice_nfts_owned == u128::MAX || activity.reputation_score > u128::MAX - 10 {
                return Err(OrchestratorError::ArithmeticOverflow);
            }
            activity.voice_nfts_owned = activity.voice_nfts_owned + 1;
            activity.reputation_score = activity.reputation_score + 10;
        } else if activity_type == String::from_str("marketplace_transaction") {
            if activity.marketplace_transactions == u128::MAX || activity.reputation_score > u128::MAX - 5 {
                return Err(OrchestratorError::ArithmeticOverflow);
            }
            activity.marketplace_transactions = activity.marketplace_transactions + 1;
            activity.reputation_score = activity.reputation_score + 5;
        } else if activity_type == String::from_str("dao_vote") {
            if activity.dao_participation == u128::MAX || activity.reputation_score > u128::MAX - 15 {
                return Err(OrchestratorError::ArithmeticOverflow);
            }
            activity.dao_participation = activity.dao_participation + 1;
            activity.reputation_score = activity.reputation_score + 15;
        }
        activity.last_activity = now;
        assert(activity@ == after_activity(before, activity_type@, value, now));
        let active: usize = self.active_users.len();
        proof {
            assert(self@.platform_stats.total_active_users == active);
            lemma_record_wf(self@, account_id@, activity_type@, value, now);
        }
        match slot {
            Some(i) => {
                self.user_activities[i] = activity;
                proof {
                    assert(self@.user_activities =~= old(self)@.record_next(
                        account_id@,
                        activity_type@,
                        value,
                        now,
                    ).user_activities);
                }
            },
            None => {
                self.user_activities.push(activity);
                self.active_users.push(account_id);
                self.platform_stats.total_active_users = self.platform_stats.total_active_users + 1;
                proof {
                    assert(self@.user_activities =~= old(self)@.record_next(
                        account_id@,
                        activity_type@,
                        value,
                        now,
                    ).user_activities);
                    assert(self@.active_users =~= old(self)@.active_users.push(account_id@));
                }
            },
        }
        proof {
            assert(self@ =~= old(self)@.record_next(account_id@, activity_type@, value, now));
        }
        Ok(())
    }

    /// Adds `value` to the figure of the kind `stat_type`: `"voice_tokens_minted"`,
    /// `"voice_nfts_minted"`, `"marketplace_transactions"`, `"dao_proposals"` or
    /// `"platform_revenue"`, which is booked as revenue of the caller too. A
    /// statistic of another kind changes nothing. The contracts of the registry
    /// may, and the owner.
    ///
    /// Fails with `Unauthorized`, else with `ArithmeticOverflow` where the figure
    /// would leave its range.
    pub fn update_platform_stats(&mut self, caller: &AccountId, stat_type: String, value: u128) -> (r: Result<
        (),
        OrchestratorError,
    >)
        requires
            old(self).wf(),
        ensures
            final(self).wf(),
            match r {
                Ok(_) => old(self)@.stats_error(caller@, stat_type@, value) is None && final(self)@ == old(self)@.stats_next(caller@, stat_type@, value),
                Err(e) => old(self)@.stats_error(caller@, stat_type@, value) == Some(e) && final(self)@
                    == old(self)@,
            },
    {
        if !self.may_report(caller) {
            return Err(OrchestratorError::Unauthorized);
        }
        proof {
            reveal_strlit("voice_tokens_minted");
            reveal_strlit("voice_nfts_minted");
            reveal_strlit("marketplace_transactions");
            reveal_strlit("dao_proposals");
            reveal_strlit("platform_revenue");
            assert("platform_revenue"@.len() == 16);
            assert("voice_tokens_minted"@.len() == 19);
            assert("voice_nfts_minted"@.len() == 17);
            assert("marketplace_transactions"@.len() == 24);
            assert("dao_proposals"@.len() == 13);
        }
        if stat_type == String::from_str("voice_tokens_minted") {
            match self.platform_stats.total_voice_tokens_minted.checked_add(value) {
                Some(x) => {
                    proof {
                        lemma_stats_wf(self@, caller@, stat_type@, value);
                    }
                    self.platform_stats.total_voice_tokens_minted = x;
                },
                None => {
                    return Err(OrchestratorError::ArithmeticOverflow);
                },
            }
        } else if stat_type == String::from_str("voice_nfts_minted") {
            match self.platform_stats.total_voice_nfts_minted.checked_add(value) {
                Some(x) => {
                    proof {
                        lemma_stats_wf(self@, caller@, stat_type@, value);
                    }
                    self.platform_stats.total_voice_nfts_minted = x;
                },
                None => {
                    return Err(OrchestratorError::ArithmeticOverflow);
                },
            }
        } else if stat_type == String::from_str("marketplace_transactions") {
            match self.platform_stats.total_marketplace_transactions.checked_add(value) {
                Some(x) => {
                    proof {
                        lemma_stats_wf(self@, caller@, stat_type@, value);
                    }
                    self.platform_stats.total_marketplace_transactions = x;
                },
                None => {
                    return Err(OrchestratorError::ArithmeticOverflow);
                },
            }
        } else if stat_type == String::from_str("dao_proposals") {
            match self.platform_stats.total_dao_proposals.checked_add(value) {
                Some(x) => {
                    proof {
                        lemma_stats_wf(self@, caller@, stat_type@, value);
                    }
                    self.platform_stats.total_dao_proposals = x;
                },
                None => {
                    return Err(OrchestratorError::ArithmeticOverflow);
                },
            }
        } else if stat_type == String::from_str("platform_revenue") {
            match self.platform_stats.platform_revenue.checked_add(value) {
                Some(x) => {
                    proof {
                        lemma_stats_wf(self@, caller@, stat_type@, value);
                    }
                    self.platform_stats.platform_revenue = x;
                    let current: u128 = get_amount(&self.revenue_by_contract, caller);
                    set_amount(&mut self.revenue_by_contract, caller, current + value);
                },
                None => {
                    return Err(OrchestratorError::ArithmeticOverflow);
                },
            }
        }
        proof {
            assert(self@ =~= old(self)@.stats_next(caller@, stat_type@, value));
        }
        Ok(())
    }

    /// Puts an operation of `initiated_by` on `target_contract` into the log, as
    /// pending from `now`, and hands back its number: one more than the number
    /// of operations so far.
    pub fn log_operation(
        &mut self,
        operation_type: String,
        initiated_by: AccountId,
        target_contract: AccountId,
        parameters: String,
        now: u64,
    ) -> (id: u128)
        requires
            old(self).wf(),
        ensures
            final(self).wf(),
            id == old(self)@.total_operations + 1,
            final(self)@ == old(self)@.log_next(
                old(self)@.logged(operation_type@, initiated_by@, target_contract@, parameters@, now),
            ),
    {
        let logged: usize = self.operations.len();
        proof {
            self.lemma_keys();
            assert(self@.total_operations == logged);
        }
        let operation_id: u128 = self.total_operations + 1;
        let operation = PlatformOperation {
            operation_id,
            operation_type,
            initiated_by,
            target_contract,
            parameters,
            status: String::from_str("pending"),
            created_at: now,
            completed_at: None,
            result: None,
        };
        let ghost o = old(self)@.logged(operation_type@, initiated_by@, target_contract@, parameters@, now);
        assert(operation@ == o);
        proof {
            lemma_log_wf(self@, o);
        }
        self.operations.push(operation);
        self.total_operations = operation_id;
        proof {
            assert(self@.operations =~= old(self)@.operations.push(o));
            assert(self@ =~= old(self)@.log_next(o));
        }
        operation_id
    }

    /// Logs a call of the method `method_name` on `target_contract`, of the kind
    /// `cross_contract_call:` and the method, and hands the call back. Only the
    /// owner may.
    ///
    /// Fails with `Unauthorized`.
    pub fn execute_cross_contract_call(
        &mut self,
        caller: &AccountId,
        target_contract: AccountId,
        method_name: String,
        args: String,
        deposit: u128,
        gas: u64,
        now: u64,
    ) -> (r: Result<ContractCall, OrchestratorError>)
        requires
            old(self).wf(),
        ensures
            final(self).wf(),
            match r {
                Ok(call) => caller@ == old(self)@.owner_id && final(self)@ == old(self)@.log_next(
                    old(self)@.logged(
                        "cross_contract_call:"@ + method_name@,
                        caller@,
                        target_contract@,
                        args@,
                        now,
                    ),
                ) && call.target_contract@ == target_contract@ && call.method_name@ == method_name@
                    && call.args@ == args@ && call.deposit == deposit && call.gas == gas,
                Err(e) => e == OrchestratorError::Unauthorized && caller@ != old(self)@.owner_id && final(self)@ == old(self)@,
            },
    {
        if !(*caller == self.owner_id) {
            return Err(OrchestratorError::Unauthorized);
        }
        let operation_type = String::from_str("cross_contract_call:").concat(method_name.as_str());
        let _ = self.log_operation(operation_type, caller.clone(), target_contract.clone(), args.clone(), now);
        Ok(ContractCall { target_contract, method_name, args, deposit, gas })
    }

    /// Logs a batch mint of voice NFTs for the recipients, of the kind
    /// `batch_mint_nfts`, on the voice NFT contract of the registry, and hands
    /// back the number of the operation. Only the owner may.
    ///
    /// Fails with `InvalidRecipient` where a recipient is not the name of an
    /// account, else with `Unauthorized`, else with `TokenIdsLengthMismatch` or
    /// `MetadatasLengthMismatch` where there are not as many token identifiers
    /// or metadatas as recipients.
    pub fn batch_mint_voice_nfts(
        &mut self,
        caller: &AccountId,
        recipients: Vec<AccountId>,
        token_ids: Vec<String>,
        metadatas: Vec<String>,
        now: u64,
    ) -> (r: Result<u128, OrchestratorError>)
        requires
            old(self).wf(),
        ensures
            final(self).wf(),
            match r {
                Ok(id) => all_accounts(texts(recipients@)) && caller@ == old(self)@.owner_id
                    && recipients@.len() == token_ids@.len()
                    && recipients@.len() == metadatas@.len() && id == old(self)@.total_operations + 1
                    && final(self)@ == old(self)@.log_next(
                    old(self)@.logged(
                        "batch_mint_nfts"@,
                        caller@,
                        old(self)@.contract_registry.voice_nft_contract,
                        batch_parameters_text(texts(recipients@), texts(token_ids@)),
                        now,
                    ),
                ),
                Err(e) => final(self)@ == old(self)@ && if !all_accounts(texts(recipients@)) {
                    e == OrchestratorError::InvalidRecipient
                } else if caller@ != old(self)@.owner_id {
                    e == OrchestratorError::Unauthorized
                } else if recipients@.len() != token_ids@.len() {
                    e == OrchestratorError::TokenIdsLengthMismatch
                } else {
                    e == OrchestratorError::MetadatasLengthMismatch && recipients@.len() != metadatas@.len()
                },
            },
    {
        if !are_accounts(&recipients) {
            return Err(OrchestratorError::InvalidRecipient);
        }
        if !(*caller == self.owner_id) {
            return Err(OrchestratorError::Unauthorized);
        }
        if recipients.len() != token_ids.len() {
            return Err(OrchestratorError::TokenIdsLengthMismatch);
        }
        if recipients.len() != metadatas.len() {
            return Err(OrchestratorError::MetadatasLengthMismatch);
        }
        let parameters = batch_parameters(&recipients, &token_ids);
        let target = self.contract_registry.voice_nft_contract.clone();
        let id = self.log_operation(String::from_str("batch_mint_nfts"), caller.clone(), target, parameters, now);
        Ok(id)
    }

    /// The textual form of the figures.
    pub fn platform_stats_to_view(&self, stats: PlatformStats) -> (r: PlatformStatsView)
        ensures
            r@ == stats_to_view(stats),
    {
        PlatformStatsView {
            total_voice_tokens_minted: u128_to_string(stats.total_voice_tokens_minted),
            total_voice_nfts_minted: u128_to_string(stats.total_voice_nfts_minted),
            total_marketplace_transactions: u128_to_string(stats.total_marketplace_transactions),
            total_dao_proposals: u128_to_string(stats.total_dao_proposals),
            total_active_users: u128_to_string(stats.total_active_users),
            platform_revenue: u128_to_string(stats.platform_revenue),
        }
    }

    /// The textual form of an activity.
    pub fn user_activity_to_view(&self, activity: &UserActivity) -> (r: UserActivityView)
        ensures
            r@ == activity_to_view(activity@),
    {
        UserActivityView {
            account_id: activity.account_id.clone(),
            voice_tokens_balance: u128_to_string(activity.voice_tokens_balance),
            voice_nfts_owned: u128_to_string(activity.voice_nfts_owned),
            marketplace_transactions: u128_to_string(activity.marketplace_transactions),
            dao_participation: u128_to_string(activity.dao_participation),
            last_activity: u64_to_string(activity.last_activity),
            reputation_score: u128_to_string(activity.reputation_score),
        }
    }

    /// The textual form of a registry.
    pub fn contract_registry_to_view(&self, registry: &ContractRegistry) -> (r: ContractRegistryView)
        ensures
            r@ == registry@,
    {
        ContractRegistryView {
            voice_token_contract: registry.voice_token_contract.clone(),
            voice_nft_contract: registry.voice_nft_contract.clone(),
            marketplace_contract: registry.marketplace_contract.clone(),
            dao_contract: registry.dao_contract.clone(),
        }
    }

    /// The textual form of an operation.
    pub fn platform_operation_to_view(&self, operation: &PlatformOperation) -> (r: PlatformOperationView)
        ensures
            r@ == operation_to_view(operation@),
    {
        let view = PlatformOperationView {
            id: u128_to_string(operation.operation_id),
            operation_type: operation.operation_type.clone(),
            initiator: operation.initiated_by.clone(),
            parameters: Vec::new(),
            status: operation.status.clone(),
            created_at: u64_to_string(operation.created_at),
            completed_at: match operation.completed_at {
                Some(t) => Some(u64_to_string(t)),
                None => None,
            },
            result: clone_opt_string(&operation.result),
        };
        assert(view@.parameters =~= Seq::<(Seq<char>, Seq<char>)>::empty());
        view
    }

    /// The figures of the platform in the textual form.
    pub fn get_platform_stats(&self) -> (r: PlatformStatsView)
        ensures
            r@ == stats_to_view(self@.platform_stats),
    {
        self.platform_stats_to_view(self.platform_stats)
    }

    /// The activity of `account_id` in the textual form, if there is any.
    pub fn get_user_activity(&self, account_id: AccountId) -> (r: Option<UserActivityView>)
        requires
            self.wf(),
        ensures
            match r {
                Some(a) => self@.has_activity(account_id@) && a@ == activity_to_view(
                    self@.activity(account_id@),
                ),
                None => !self@.has_activity(account_id@),
            },
    {
        proof {
            self.lemma_keys();
        }
        match find(&self.user_activities, &account_id) {
            Some(i) => {
                proof {
                    lemma_position(activity_ids(self@.user_activities), account_id@, i as int);
                }
                Some(self.user_activity_to_view(&self.user_activities[i]))
            },
            None => None,
        }
    }

    /// The registry in the textual form.
    pub fn get_contract_registry(&self) -> (r: ContractRegistryView)
        ensures
            r@ == self@.contract_registry,
    {
        self.contract_registry_to_view(&self.contract_registry)
    }

    /// The operations in the textual form from place `from_index` on (from the
    /// first where none is given), `limit` of them at most (10 where none is
    /// given), in the order of their numbers.
    pub fn get_operations(&self, from_index: Option<u128>, limit: Option<u64>) -> (r: Vec<PlatformOperationView>)
        ensures
            operation_view_models(r@) == page(
                self@.operations,
                from_index.unwrap_or(0) as nat,
                limit.unwrap_or(10) as nat,
            ).map_values(|o: PlatformOperationModel| operation_to_view(o)),
    {
        let n: usize = self.operations.len();
        let from: u128 = match from_index {
            Some(v) => v,
            None => 0,
        };
        let most: u64 = match limit {
            Some(v) => v,
            None => 10,
        };
        let mut r: Vec<PlatformOperationView> = Vec::new();
        let ghost all = operation_models(self.operations@);
        let ghost shown = all.map_values(|o: PlatformOperationModel| operation_to_view(o));
        if from >= n as u128 {
            assert(operation_view_models(r@) =~= Seq::<PlatformOperationModel>::empty().map_values(
                |o: PlatformOperationModel| operation_to_view(o),
            ));
            return r;
        }
        let start: usize = from as usize;
        let end: usize = if most as u128 >= (n - start) as u128 {
            n
        } else {
            start + most as usize
        };
        let mut i: usize = start;
        assert(operation_view_models(r@) =~= shown.subrange(start as int, i as int));
        while i < end
            invariant
                start <= i <= end <= n,
                n == self.operations.len(),
                all == operation_models(self.operations@),
                shown == all.map_values(|o: PlatformOperationModel| operation_to_view(o)),
                operation_view_models(r@) == shown.subrange(start as int, i as int),
            decreases end - i,
        {
            let ghost before = operation_view_models(r@);
            r.push(self.platform_operation_to_view(&self.operations[i]));
            assert(operation_view_models(r@) =~= before.push(shown[i as int]));
            assert(before.push(shown[i as int]) =~= shown.subrange(start as int, i + 1));
            i += 1;
        }
        assert(shown.subrange(start as int, end as int) =~= all.subrange(start as int, end as int).map_values(
            |o: PlatformOperationModel| operation_to_view(o),
        ));
        r
    }

    /// The active users from place `from_index` on (from the first where none is
    /// given), `limit` of them at most (50 where none is given), in the order in
    /// which they became active.
    pub fn get_active_users(&self, from_index: Option<u128>, limit: Option<u64>) -> (r: Vec<String>)
        ensures
            texts(r@) == page(self@.active_users, from_index.unwrap_or(0) as nat, limit.unwrap_or(50) as nat),
    {
        let n: usize = self.active_users.len();
        let from: u128 = match from_index {
            Some(v) => v,
            None => 0,
        };
        let most: u64 = match limit {
            Some(v) => v,
            None => 50,
        };
        let mut r: Vec<String> = Vec::new();
        let ghost all = texts(self.active_users@);
        if from >= n as u128 {
            assert(texts(r@) =~= Seq::<Seq<char>>::empty());
            return r;
        }
        let start: usize = from as usize;
        let end: usize = if most as u128 >= (n - start) as u128 {
            n
        } else {
            start + most as usize
        };
        let mut i: usize = start;
        assert(texts(r@) =~= all.subrange(start as int, i as int));
        while i < end
            invariant
                start <= i <= end <= n,
                n == self.active_users.len(),
                all == texts(self.active_users@),
                texts(r@) == all.subrange(start as int, i as int),
            decreases end - i,
        {
            let ghost before = texts(r@);
            r.push(self.active_users[i].clone());
            assert(texts(r@) =~= before.push(all[i as int]));
            assert(before.push(all[i as int]) =~= all.subrange(start as int, i + 1));
            i += 1;
        }
        r
    }

    /// The revenue booked for the contract `contract_id`, in decimal.
    pub fn get_revenue_by_contract(&self, contract_id: AccountId) -> (r: String)
        requires
            self.wf(),
        ensures
            r@ == decimal_text(amount_of(self@.revenue_by_contract, contract_id@)),
    {
        u128_to_string(get_amount(&self.revenue_by_contract, &contract_id))
    }

    /// Puts `value` under `key` in the settings.
    fn put_config(&mut self, key: String, value: String)
        requires
            old(self).wf(),
        ensures
            final(self).wf(),
            final(self)@ == (OrchestratorState {
                platform_config: with_config(old(self)@.platform_config, key@, value@),
                ..old(self)@
            }),
    {
        proof {
            self.lemma_keys();
            lemma_with_config(self@.platform_config, key@, value@);
        }
        match find(&self.platform_config, &key) {
            Some(i) => {
                proof {
                    lemma_position(config_keys(self@.platform_config), key@, i as int);
                }
                self.platform_config[i].value = value;
            },
            None => {
                self.platform_config.push(ConfigEntry { key, value });
            },
        }
        proof {
            assert(self@.platform_config =~= with_config(old(self)@.platform_config, key@, value@));
            assert(self@ =~= (OrchestratorState {
                platform_config: with_config(old(self)@.platform_config, key@, value@),
                ..old(self)@
            }));
        }
    }

    /// Puts `value` under `key` in the settings. Only the owner may.
    pub fn set_platform_config(&mut self, caller: &AccountId, key: String, value: String) -> (r: Result<
        (),
        OrchestratorError,
    >)
        requires
            old(self).wf(),
        ensures
            final(self).wf(),
            match r {
                Ok(_) => caller@ == old(self)@.owner_id && final(self)@ == (OrchestratorState {
                    platform_config: with_config(old(self)@.platform_config, key@, value@),
                    ..old(self)@
                }),
                Err(e) => e == OrchestratorError::Unauthorized && caller@ != old(self)@.owner_id && final(self)@ == old(self)@,
            },
    {
        if !(*caller == self.owner_id) {
            return Err(OrchestratorError::Unauthorized);
        }
        self.put_config(key, value);
        Ok(())
    }

    /// The setting under `key`, if there is one.
    pub fn get_platform_config(&self, key: String) -> (r: Option<String>)
        requires
            self.wf(),
        ensures
            opt_text(r) == config_of(self@.platform_config, key@),
    {
        proof {
            self.lemma_keys();
        }
        match find(&self.platform_config, &key) {
            Some(i) => {
                proof {
                    lemma_position(config_keys(self@.platform_config), key@, i as int);
                }
                Some(self.platform_config[i].value.clone())
            },
            None => None,
        }
    }

    /// The number of operations, in decimal.
    pub fn get_total_operations(&self) -> (r: String)
        ensures
            r@ == decimal_text(self@.total_operations as nat),
    {
        u128_to_string(self.total_operations)
    }

    /// Pauses the platform: the setting `emergency_paused` is `true`. Only the
    /// owner may.
    pub fn emergency_pause(&mut self, caller: &AccountId) -> (r: Result<(), OrchestratorError>)
        requires
            old(self).wf(),
        ensures
            final(self).wf(),
            match r {
                Ok(_) => caller@ == old(self)@.owner_id && final(self)@ == (OrchestratorState {
                    platform_config: with_config(
                        old(self)@.platform_config,
                        "emergency_paused"@,
                        "true"@,
                    ),
                    ..old(self)@
                }) && final(self)@.is_paused(),
                Err(e) => e == OrchestratorError::Unauthorized && caller@ != old(self)@.owner_id && final(self)@ == old(self)@,
            },
    {
        if !(*caller == self.owner_id) {
            return Err(OrchestratorError::Unauthorized);
        }
        proof {
            lemma_with_config(self@.platform_config, "emergency_paused"@, "true"@);
        }
        self.put_config(String::from_str("emergency_paused"), String::from_str("true"));
        Ok(())
    }

    /// Lifts the pause: the setting `emergency_paused` is `false`. Only the owner may.
    pub fn emergency_unpause(&mut self, caller: &AccountId) -> (r: Result<(), OrchestratorError>)
        requires
            old(self).wf(),
        ensures
            final(self).wf(),
            match r {
                Ok(_) => caller@ == old(self)@.owner_id && final(self)@ == (OrchestratorState {
                    platform_config: with_config(
                        old(self)@.platform_config,
                        "emergency_paused"@,
                        "false"@,
                    ),
                    ..old(self)@
                }) && !final(self)@.is_paused(),
                Err(e) => e == OrchestratorError::Unauthorized && caller@ != old(self)@.owner_id && final(self)@ == old(self)@,
            },
    {
        if !(*caller == self.owner_id) {
            return Err(OrchestratorError::Unauthorized);
        }
        proof {
            lemma_with_config(self@.platform_config, "emergency_paused"@, "false"@);
            reveal_strlit("true");
            reveal_strlit("false");
            assert("true"@.len() == 4 && "false"@.len() == 5);
        }
        self.put_config(String::from_str("emergency_paused"), String::from_str("false"));
        Ok(())
    }

    /// Whether the platform is paused.
    pub fn is_paused(&self) -> (r: bool)
        requires
            self.wf(),
        ensures
            r == self@.is_paused(),
    {
        match self.get_platform_config(String::from_str("emergency_paused")) {
            Some(v) => v == String::from_str("true"),
            None => false,
        }
    }
}

} // verus!
