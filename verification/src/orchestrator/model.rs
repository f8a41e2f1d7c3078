//! The records of the orchestrator, their textual forms for callers, the
//! orchestrator as a mathematical value, what holds of every such value, and
//! what each call makes of it.

use crate::account::{valid_account_id, AccountId};
use crate::keyed::{lemma_position, lemma_position_in_range, lemma_push_fresh, position, Keyed};
use crate::ledger::{amount_of, lemma_with_amount, names, sum, with_amount};
use crate::text::{decimal_text, opt_text};
use vstd::prelude::*;
use vstd::string::*;

verus! {

/// The accounts of the platform's contracts, in the textual form.
#[derive(Debug)]
pub struct ContractRegistryView {
    pub voice_token_contract: String,
    pub voice_nft_contract: String,
    pub marketplace_contract: String,
    pub dao_contract: String,
}

/// The accounts of the platform's contracts.
#[derive(Debug)]
pub struct ContractRegistry {
    pub voice_token_contract: AccountId,
    pub voice_nft_contract: AccountId,
    pub marketplace_contract: AccountId,
    pub dao_contract: AccountId,
}

/// The view of a registry, in either form.
pub struct RegistryModel {
    pub voice_token_contract: Seq<char>,
    pub voice_nft_contract: Seq<char>,
    pub marketplace_contract: Seq<char>,
    pub dao_contract: Seq<char>,
}

impl View for ContractRegistryView {
    type V = RegistryModel;

    open spec fn view(&self) -> RegistryModel {
        RegistryModel {
            voice_token_contract: self.voice_token_contract@,
            voice_nft_contract: self.voice_nft_contract@,
            marketplace_contract: self.marketplace_contract@,
            dao_contract: self.dao_contract@,
        }
    }
}

impl View for ContractRegistry {
    type V = RegistryModel;

    open spec fn view(&self) -> RegistryModel {
        RegistryModel {
            voice_token_contract: self.voice_token_contract@,
            voice_nft_contract: self.voice_nft_contract@,
            marketplace_contract: self.marketplace_contract@,
            dao_contract: self.dao_contract@,
        }
    }
}

/// The figures of the platform.
#[derive(Clone, Copy, Debug, PartialEq, Eq, Structural)]
pub struct PlatformStats {
    pub total_voice_tokens_minted: u128,
    pub total_voice_nfts_minted: u128,
    pub total_marketplace_transactions: u128,
    pub total_dao_proposals: u128,
    pub total_active_users: u128,
    pub platform_revenue: u128,
}

/// The figures of the platform in the textual form: numbers in decimal.
#[derive(Debug)]
pub struct PlatformStatsView {
    pub total_voice_tokens_minted: String,
    pub total_voice_nfts_minted: String,
    pub total_marketplace_transactions: String,
    pub total_dao_proposals: String,
    pub total_active_users: String,
    pub platform_revenue: String,
}

/// The view of a [`PlatformStatsView`].
pub struct PlatformStatsViewModel {
    pub total_voice_tokens_minted: Seq<char>,
    pub total_voice_nfts_minted: Seq<char>,
    pub total_marketplace_transactions: Seq<char>,
    pub total_dao_proposals: Seq<char>,
    pub total_active_users: Seq<char>,
    pub platform_revenue: Seq<char>,
}

impl View for PlatformStatsView {
    type V = PlatformStatsViewModel;

    open spec fn view(&self) -> PlatformStatsViewModel {
        PlatformStatsViewModel {
            total_voice_tokens_minted: self.total_voice_tokens_minted@,
            total_voice_nfts_minted: self.total_voice_nfts_minted@,
            total_marketplace_transactions: self.total_marketplace_transactions@,
            total_dao_proposals: self.total_dao_proposals@,
            total_active_users: self.total_active_users@,
            platform_revenue: self.platform_revenue@,
        }
    }
}

/// What a user has done on the platform.
#[derive(Debug)]
pub struct UserActivity {
    pub account_id: AccountId,
    pub voice_tokens_balance: u128,
    pub voice_nfts_owned: u128,
    pub marketplace_transactions: u128,
    pub dao_participation: u128,
    pub last_activity: u64,
    pub reputation_score: u128,
}

/// The view of a [`UserActivity`].
pub struct UserActivityModel {
    pub account_id: Seq<char>,
    pub voice_tokens_balance: u128,
    pub voice_nfts_owned: u128,
    pub marketplace_transactions: u128,
    pub dao_participation: u128,
    pub last_activity: u64,
    pub reputation_score: u128,
}

impl View for UserActivity {
    type V = UserActivityModel;

    open spec fn view(&self) -> UserActivityModel {
        UserActivityModel {
            account_id: self.account_id@,
            voice_tokens_balance: self.voice_tokens_balance,
            voice_nfts_owned: self.voice_nfts_owned,
            marketplace_transactions: self.marketplace_transactions,
            dao_participation: self.dao_participation,
            last_activity: self.last_activity,
            reputation_score: self.reputation_score,
        }
    }
}

impl Keyed for UserActivity {
    open spec fn key_text(&self) -> Seq<char> {
        self.account_id@
    }

    fn key(&self) -> (k: &String) {
        &self.account_id
    }
}

/// The views of a list of activities.
pub open spec fn activity_models(v: Seq<UserActivity>) -> Seq<UserActivityModel> {
    v.map_values(|a: UserActivity| a@)
}

/// What a user has done, in the textual form: numbers in decimal.
#[derive(Debug)]
pub struct UserActivityView {
    pub account_id: String,
    pub voice_tokens_balance: String,
    pub voice_nfts_owned: String,
    pub marketplace_transactions: String,
    pub dao_participation: String,
    pub last_activity: String,
    pub reputation_score: String,
}

/// The view of a [`UserActivityView`].
pub struct UserActivityViewModel {
    pub account_id: Seq<char>,
    pub voice_tokens_balance: Seq<char>,
    pub voice_nfts_owned: Seq<char>,
    pub marketplace_transactions: Seq<char>,
    pub dao_participation: Seq<char>,
    pub last_activity: Seq<char>,
    pub reputation_score: Seq<char>,
}

impl View for UserActivityView {
    type V = UserActivityViewModel;

    open spec fn view(&self) -> UserActivityViewModel {
        UserActivityViewModel {
            account_id: self.account_id@,
            voice_tokens_balance: self.voice_tokens_balance@,
            voice_nfts_owned: self.voice_nfts_owned@,
            marketplace_transactions: self.marketplace_transactions@,
            dao_participation: self.dao_participation@,
            last_activity: self.last_activity@,
            reputation_score: self.reputation_score@,
        }
    }
}

/// An operation of the platform, as the log keeps it. The status is
/// `"pending"`, `"completed"` or `"failed"`.
#[derive(Debug)]
pub struct PlatformOperation {
    pub operation_id: u128,
    pub operation_type: String,
    pub initiated_by: AccountId,
    pub target_contract: AccountId,
    pub parameters: String,
    pub status: String,
    pub created_at: u64,
    pub completed_at: Option<u64>,
    pub result: Option<String>,
}

/// The view of a [`PlatformOperation`].
pub struct PlatformOperationModel {
    pub operation_id: u128,
    pub operation_type: Seq<char>,
    pub initiated_by: Seq<char>,
    pub target_contract: Seq<char>,
    pub parameters: Seq<char>,
    pub status: Seq<char>,
    pub created_at: u64,
    pub completed_at: Option<u64>,
    pub result: Option<Seq<char>>,
}

impl View for PlatformOperation {
    type V = PlatformOperationModel;

    open spec fn view(&self) -> PlatformOperationModel {
        PlatformOperationModel {
            operation_id: self.operation_id,
            operation_type: self.operation_type@,
            initiated_by: self.initiated_by@,
            target_contract: self.target_contract@,
            parameters: self.parameters@,
            status: self.status@,
            created_at: self.created_at,
            completed_at: self.completed_at,
            result: opt_text(self.result),
        }
    }
}

/// The views of a list of operations.
pub open spec fn operation_models(v: Seq<PlatformOperation>) -> Seq<PlatformOperationModel> {
    v.map_values(|o: PlatformOperation| o@)
}

/// An operation in the textual form. The parameters are not told: the list is empty.
#[derive(Debug)]
pub struct PlatformOperationView {
    pub id: String,
    pub operation_type: String,
    pub initiator: String,
    pub parameters: Vec<(String, String)>,
    pub status: String,
    pub created_at: String,
    pub completed_at: Option<String>,
    pub result: Option<String>,
}

/// The view of a [`PlatformOperationView`].
pub struct PlatformOperationViewModel {
    pub id: Seq<char>,
    pub operation_type: Seq<char>,
    pub initiator: Seq<char>,
    pub parameters: Seq<(Seq<char>, Seq<char>)>,
    pub status: Seq<char>,
    pub created_at: Seq<char>,
    pub completed_at: Option<Seq<char>>,
    pub result: Option<Seq<char>>,
}

impl View for PlatformOperationView {
    type V = PlatformOperationViewModel;

    open spec fn view(&self) -> PlatformOperationViewModel {
        PlatformOperationViewModel {
            id: self.id@,
            operation_type: self.operation_type@,
            initiator: self.initiator@,
            parameters: self.parameters@.map_values(|e: (String, String)| (e.0@, e.1@)),
            status: self.status@,
            created_at: self.created_at@,
            completed_at: opt_text(self.completed_at),
            result: opt_text(self.result),
        }
    }
}

/// The views of a list of operations in the textual form.
pub open spec fn operation_view_models(v: Seq<PlatformOperationView>) -> Seq<PlatformOperationViewModel> {
    v.map_values(|o: PlatformOperationView| o@)
}

/// A setting of the platform under its key.
#[derive(Debug)]
pub struct ConfigEntry {
    pub key: String,
    pub value: String,
}

impl Keyed for ConfigEntry {
    open spec fn key_text(&self) -> Seq<char> {
        self.key@
    }

    fn key(&self) -> (k: &String) {
        &self.key
    }
}

/// The view of a list of settings: keys and values, in order.
pub open spec fn config_pairs(v: Seq<ConfigEntry>) -> Seq<(Seq<char>, Seq<char>)> {
    v.map_values(|e: ConfigEntry| (e.key@, e.value@))
}

/// A call to make on another contract. Making it is the caller's part.
#[derive(Debug)]
pub struct ContractCall {
    pub target_contract: AccountId,
    pub method_name: String,
    pub args: String,
    pub deposit: u128,
    pub gas: u64,
}

/// Why a call on the orchestrator failed.
#[derive(Clone, Copy, Debug, PartialEq, Eq, Structural)]
pub enum OrchestratorError {
    /// The caller is not the one who may.
    Unauthorized,
    InvalidVoiceTokenContract,
    InvalidVoiceNftContract,
    InvalidMarketplaceContract,
    InvalidDaoContract,
    /// There are not as many token identifiers as recipients.
    TokenIdsLengthMismatch,
    /// There are not as many metadatas as recipients.
    MetadatasLengthMismatch,
    /// A recipient is not the name of an account.
    InvalidRecipient,
    /// A figure would leave the range of its type.
    ArithmeticOverflow,
}

impl OrchestratorError {
    /// The short reason shown to the caller.
    pub open spec fn message_text(self) -> Seq<char> {
        match self {
            OrchestratorError::Unauthorized => "Not authorized"@,
            OrchestratorError::InvalidVoiceTokenContract => "Invalid voice token contract ID"@,
            OrchestratorError::InvalidVoiceNftContract => "Invalid voice NFT contract ID"@,
            OrchestratorError::InvalidMarketplaceContract => "Invalid marketplace contract ID"@,
            OrchestratorError::InvalidDaoContract => "Invalid DAO contract ID"@,
            OrchestratorError::InvalidRecipient => "Invalid recipient account ID"@,
            OrchestratorError::TokenIdsLengthMismatch => "Recipients and token IDs length mismatch"@,
            OrchestratorError::MetadatasLengthMismatch => "Recipients and metadatas length mismatch"@,
            OrchestratorError::ArithmeticOverflow => "Arithmetic overflow"@,
        }
    }

    /// The short reason shown to the caller.
    pub fn message(self) -> (s: String)
        ensures
            s@ == self.message_text(),
    {
        let text: &str = match self {
            OrchestratorError::Unauthorized => "Not authorized",
            OrchestratorError::InvalidVoiceTokenContract => "Invalid voice token contract ID",
            OrchestratorError::InvalidVoiceNftContract => "Invalid voice NFT contract ID",
            OrchestratorError::InvalidMarketplaceContract => "Invalid marketplace contract ID",
            OrchestratorError::InvalidDaoContract => "Invalid DAO contract ID",
            OrchestratorError::InvalidRecipient => "Invalid recipient account ID",
            OrchestratorError::TokenIdsLengthMismatch => "Recipients and token IDs length mismatch",
            OrchestratorError::MetadatasLengthMismatch => "Recipients and metadatas length mismatch",
            OrchestratorError::ArithmeticOverflow => "Arithmetic overflow",
        };
        String::from_str(text)
    }
}

/// The accounts of a list of activities.
pub open spec fn activity_ids(s: Seq<UserActivityModel>) -> Seq<Seq<char>> {
    s.map_values(|a: UserActivityModel| a.account_id)
}

/// The keys of a list of settings.
pub open spec fn config_keys(s: Seq<(Seq<char>, Seq<char>)>) -> Seq<Seq<char>> {
    s.map_values(|e: (Seq<char>, Seq<char>)| e.0)
}

/// The settings with `value` under `key`.
pub open spec fn with_config(s: Seq<(Seq<char>, Seq<char>)>, key: Seq<char>, value: Seq<char>) -> Seq<
    (Seq<char>, Seq<char>),
> {
    if config_keys(s).contains(key) {
        s.update(position(config_keys(s), key), (key, value))
    } else {
        s.push((key, value))
    }
}

/// The value under `key`, if the settings have one.
pub open spec fn config_of(s: Seq<(Seq<char>, Seq<char>)>, key: Seq<char>) -> Option<Seq<char>> {
    if config_keys(s).contains(key) {
        Some(s[position(config_keys(s), key)].1)
    } else {
        None
    }
}

/// The activity of a user of whom nothing is recorded yet.
pub open spec fn fresh_activity(account_id: Seq<char>, now: u64) -> UserActivityModel {
    UserActivityModel {
        account_id,
        voice_tokens_balance: 0,
        voice_nfts_owned: 0,
        marketplace_transactions: 0,
        dao_participation: 0,
        last_activity: now,
        reputation_score: 0,
    }
}

/// An activity of the kind `activity_type` would take a figure of the user out
/// of its range.
pub open spec fn activity_overflows(a: UserActivityModel, activity_type: Seq<char>) -> bool {
    if activity_type == "voice_token_transaction"@ {
        false
    } else if activity_type == "voice_nft_mint"@ {
        a.voice_nfts_owned == u128::MAX || a.reputation_score + 10 > u128::MAX
    } else if activity_type == "marketplace_transaction"@ {
        a.marketplace_transactions == u128::MAX || a.reputation_score + 5 > u128::MAX
    } else if activity_type == "dao_vote"@ {
        a.dao_participation == u128::MAX || a.reputation_score + 15 > u128::MAX
    } else {
        false
    }
}

/// The figures of a user after an activity of the kind `activity_type`: a token
/// transaction sets the balance to `value`; the mint of a voice token, a
/// marketplace transaction and a vote each count one more of their kind and
/// earn 10, 5 and 15 of reputation; any other kind changes nothing but the time.
pub open spec fn after_activity(a: UserActivityModel, activity_type: Seq<char>, value: u128, now: u64) -> UserActivityModel {
    let b = UserActivityModel { last_activity: now, ..a };
    if activity_type == "voice_token_transaction"@ {
        UserActivityModel { voice_tokens_balance: value, ..b }
    } else if activity_type == "voice_nft_mint"@ {
        UserActivityModel {
            voice_nfts_owned: (a.voice_nfts_owned + 1) as u128,
            reputation_score: (a.reputation_score + 10) as u128,
            ..b
        }
    } else if activity_type == "marketplace_transaction"@ {
        UserActivityModel {
            marketplace_transactions: (a.marketplace_transactions + 1) as u128,
            reputation_score: (a.reputation_score + 5) as u128,
            ..b
        }
    } else if activity_type == "dao_vote"@ {
        UserActivityModel {
            dao_participation: (a.dao_participation + 1) as u128,
            reputation_score: (a.reputation_score + 15) as u128,
            ..b
        }
    } else {
        b
    }
}

/// The figure that a statistic of the kind `stat_type` adds to, or `None` for
/// another kind.
pub open spec fn stat_of(stats: PlatformStats, stat_type: Seq<char>) -> Option<u128> {
    if stat_type == "voice_tokens_minted"@ {
        Some(stats.total_voice_tokens_minted)
    } else if stat_type == "voice_nfts_minted"@ {
        Some(stats.total_voice_nfts_minted)
    } else if stat_type == "marketplace_transactions"@ {
        Some(stats.total_marketplace_transactions)
    } else if stat_type == "dao_proposals"@ {
        Some(stats.total_dao_proposals)
    } else if stat_type == "platform_revenue"@ {
        Some(stats.platform_revenue)
    } else {
        None
    }
}

/// The figures with the one of the kind `stat_type` set to `figure`.
pub open spec fn with_stat(stats: PlatformStats, stat_type: Seq<char>, figure: u128) -> PlatformStats {
    if stat_type == "voice_tokens_minted"@ {
        PlatformStats { total_voice_tokens_minted: figure, ..stats }
    } else if stat_type == "voice_nfts_minted"@ {
        PlatformStats { total_voice_nfts_minted: figure, ..stats }
    } else if stat_type == "marketplace_transactions"@ {
        PlatformStats { total_marketplace_transactions: figure, ..stats }
    } else if stat_type == "dao_proposals"@ {
        PlatformStats { total_dao_proposals: figure, ..stats }
    } else if stat_type == "platform_revenue"@ {
        PlatformStats { platform_revenue: figure, ..stats }
    } else {
        stats
    }
}

/// The textual form of the figures.
pub open spec fn stats_to_view(s: PlatformStats) -> PlatformStatsViewModel {
    PlatformStatsViewModel {
        total_voice_tokens_minted: decimal_text(s.total_voice_tokens_minted as nat),
        total_voice_nfts_minted: decimal_text(s.total_voice_nfts_minted as nat),
        total_marketplace_transactions: decimal_text(s.total_marketplace_transactions as nat),
        total_dao_proposals: decimal_text(s.total_dao_proposals as nat),
        total_active_users: decimal_text(s.total_active_users as nat),
        platform_revenue: decimal_text(s.platform_revenue as nat),
    }
}

/// The textual form of an activity.
pub open spec fn activity_to_view(a: UserActivityModel) -> UserActivityViewModel {
    UserActivityViewModel {
        account_id: a.account_id,
        voice_tokens_balance: decimal_text(a.voice_tokens_balance as nat),
        voice_nfts_owned: decimal_text(a.voice_nfts_owned as nat),
        marketplace_transactions: decimal_text(a.marketplace_transactions as nat),
        dao_participation: decimal_text(a.dao_participation as nat),
        last_activity: decimal_text(a.last_activity as nat),
        reputation_score: decimal_text(a.reputation_score as nat),
    }
}

/// The textual form of an operation.
pub open spec fn operation_to_view(o: PlatformOperationModel) -> PlatformOperationViewModel {
    PlatformOperationViewModel {
        id: decimal_text(o.operation_id as nat),
        operation_type: o.operation_type,
        initiator: o.initiated_by,
        parameters: Seq::empty(),
        status: o.status,
        created_at: decimal_text(o.created_at as nat),
        completed_at: match o.completed_at {
            Some(t) => Some(decimal_text(t as nat)),
            None => None,
        },
        result: o.result,
    }
}

/// Why a registry in the textual form is refused, if it is: the first of its
/// four accounts that is no account name.
pub open spec fn registry_error(r: RegistryModel) -> Option<OrchestratorError> {
    if !valid_account_id(r.voice_token_contract) {
        Some(OrchestratorError::InvalidVoiceTokenContract)
    } else if !valid_account_id(r.voice_nft_contract) {
        Some(OrchestratorError::InvalidVoiceNftContract)
    } else if !valid_account_id(r.marketplace_contract) {
        Some(OrchestratorError::InvalidMarketplaceContract)
    } else if !valid_account_id(r.dao_contract) {
        Some(OrchestratorError::InvalidDaoContract)
    } else {
        None
    }
}

/// The orchestrator as a mathematical value.
#[verifier::ext_equal]
pub struct OrchestratorState {
    pub owner_id: Seq<char>,
    pub contract_registry: RegistryModel,
    pub platform_stats: PlatformStats,
    pub user_activities: Seq<UserActivityModel>,
    pub active_users: Seq<Seq<char>>,
    /// The operations by number: the operation at place `i` has number `i + 1`.
    pub operations: Seq<PlatformOperationModel>,
    pub total_operations: u128,
    pub platform_config: Seq<(Seq<char>, Seq<char>)>,
    pub revenue_by_contract: Seq<(Seq<char>, u128)>,
}

impl OrchestratorState {
    /// The orchestrator is well formed: no user has two activities or is active
    /// twice; the users with an activity are the active users, and the figures
    /// count them; the operations are numbered from 1 in order and counted; no
    /// key has two settings; and the revenues of the contracts add up to the
    /// revenue of the platform.
    pub open spec fn wf(self) -> bool {
        &&& activity_ids(self.user_activities).no_duplicates()
        &&& self.active_users.no_duplicates()
        &&& forall|who: Seq<char>| #[trigger]
            self.active_users.contains(who) <==> activity_ids(self.user_activities).contains(who)
        &&& self.platform_stats.total_active_users == self.active_users.len()
        &&& self.operations.len() == self.total_operations
        &&& forall|i: int| 0 <= i < self.operations.len() ==> (#[trigger] self.operations[i]).operation_id == i + 1
        &&& config_keys(self.platform_config).no_duplicates()
        &&& names(self.revenue_by_contract).no_duplicates()
        &&& sum(self.revenue_by_contract) == self.platform_stats.platform_revenue
    }

    /// `caller` may record activity and update figures: one of the four
    /// contracts of the registry, or the owner.
    pub open spec fn may_report(self, caller: Seq<char>) -> bool {
        caller == self.contract_registry.voice_token_contract || caller
            == self.contract_registry.voice_nft_contract || caller
            == self.contract_registry.marketplace_contract || caller == self.contract_registry.dao_contract
            || caller == self.owner_id
    }

    /// There is an activity of `who`.
    pub open spec fn has_activity(self, who: Seq<char>) -> bool {
        activity_ids(self.user_activities).contains(who)
    }

    /// The activity of `who`.
    pub open spec fn activity(self, who: Seq<char>) -> UserActivityModel {
        self.user_activities[position(activity_ids(self.user_activities), who)]
    }

    /// The activity of `who`, or that of a user of whom nothing is recorded yet.
    pub open spec fn activity_or_fresh(self, who: Seq<char>, now: u64) -> UserActivityModel {
        if self.has_activity(who) {
            self.activity(who)
        } else {
            fresh_activity(who, now)
        }
    }

    /// A new orchestrator.
    pub open spec fn initial(owner_id: Seq<char>, registry: RegistryModel) -> OrchestratorState {
        OrchestratorState {
            owner_id,
            contract_registry: registry,
            platform_stats: PlatformStats {
                total_voice_tokens_minted: 0,
                total_voice_nfts_minted: 0,
                total_marketplace_transactions: 0,
                total_dao_proposals: 0,
                total_active_users: 0,
                platform_revenue: 0,
            },
            user_activities: Seq::empty(),
            active_users: Seq::empty(),
            operations: Seq::empty(),
            total_operations: 0,
            platform_config: Seq::empty(),
            revenue_by_contract: Seq::empty(),
        }
    }

    /// Why `record_user_activity` fails, if it does.
    pub open spec fn record_error(self, caller: Seq<char>, who: Seq<char>, activity_type: Seq<char>, now: u64) -> Option<
        OrchestratorError,
    > {
        if !self.may_report(caller) {
            Some(OrchestratorError::Unauthorized)
        } else if activity_overflows(self.activity_or_fresh(who, now), activity_type) {
            Some(OrchestratorError::ArithmeticOverflow)
        } else {
            None
        }
    }

    /// The orchestrator after `record_user_activity`: the figures of the user are
    /// those after the activity, and a user who was not active is, and is counted.
    pub open spec fn record_next(self, who: Seq<char>, activity_type: Seq<char>, value: u128, now: u64) -> OrchestratorState {
        let a = after_activity(self.activity_or_fresh(who, now), activity_type, value, now);
        if self.has_activity(who) {
            OrchestratorState {
                user_activities: self.user_activities.update(
                    position(activity_ids(self.user_activities), who),
                    a,
                ),
                ..self
            }
        } else {
            OrchestratorState {
                user_activities: self.user_activities.push(a),
                active_users: self.active_users.push(who),
                platform_stats: PlatformStats {
                    total_active_users: (self.platform_stats.total_active_users + 1) as u128,
                    ..self.platform_stats
                },
                ..self
            }
        }
    }

    /// Why `update_platform_stats` fails, if it does.
    pub open spec fn stats_error(self, caller: Seq<char>, stat_type: Seq<char>, value: u128) -> Option<
        OrchestratorError,
    > {
        if !self.may_report(caller) {
            Some(OrchestratorError::Unauthorized)
        } else if stat_of(self.platform_stats, stat_type) is Some && stat_of(self.platform_stats, stat_type)->0
            + value > u128::MAX {
            Some(OrchestratorError::ArithmeticOverflow)
        } else {
            None
        }
    }

    /// The orchestrator after `update_platform_stats`: the figure of the kind
    /// has grown by the value, and revenue is booked for the caller too; a
    /// statistic of another kind changes nothing.
    pub open spec fn stats_next(self, caller: Seq<char>, stat_type: Seq<char>, value: u128) -> OrchestratorState {
        match stat_of(self.platform_stats, stat_type) {
            Some(figure) => OrchestratorState {
                platform_stats: with_stat(self.platform_stats, stat_type, (figure + value) as u128),
                revenue_by_contract: if stat_type == "platform_revenue"@ {
                    with_amount(
                        self.revenue_by_contract,
                        caller,
                        (amount_of(self.revenue_by_contract, caller) + value) as u128,
                    )
                } else {
                    self.revenue_by_contract
                },
                ..self
            },
            None => self,
        }
    }

    /// The operation that is logged next.
    pub open spec fn logged(
        self,
        operation_type: Seq<char>,
        initiated_by: Seq<char>,
        target_contract: Seq<char>,
        parameters: Seq<char>,
        now: u64,
    ) -> PlatformOperationModel {
        PlatformOperationModel {
            operation_id: (self.total_operations + 1) as u128,
            operation_type,
            initiated_by,
            target_contract,
            parameters,
            status: "pending"@,
            created_at: now,
            completed_at: None,
            result: None,
        }
    }

    /// The orchestrator with one more operation in the log.
    pub open spec fn log_next(self, o: PlatformOperationModel) -> OrchestratorState {
        OrchestratorState {
            operations: self.operations.push(o),
            total_operations: (self.total_operations + 1) as u128,
            ..self
        }
    }

    /// The platform is paused: the setting `emergency_paused` is `true`.
    pub open spec fn is_paused(self) -> bool {
        config_of(self.platform_config, "emergency_paused"@) == Some("true"@)
    }
}

/// A setting keeps the keys free of duplicates, is found under its key, and
/// leaves the other keys what they had.
pub proof fn lemma_with_config(s: Seq<(Seq<char>, Seq<char>)>, key: Seq<char>, value: Seq<char>)
    requires
        config_keys(s).no_duplicates(),
    ensures
        config_keys(with_config(s, key, value)).no_duplicates(),
        config_of(with_config(s, key, value), key) == Some(value),
        forall|other: Seq<char>| other != key ==> config_of(with_config(s, key, value), other) == config_of(s, other),
{
    let t = with_config(s, key, value);
    let keys = config_keys(s);
    if keys.contains(key) {
        lemma_position_in_range(keys, key);
        let i = position(keys, key);
        assert(config_keys(t) =~= keys);
        assert forall|other: Seq<char>| other != key implies config_of(t, other) == config_of(s, other) by {
            if keys.contains(other) {
                lemma_position_in_range(keys, other);
                assert(position(keys, other) != i);
            }
        }
    } else {
        lemma_push_fresh(keys, key);
        assert(config_keys(t) =~= keys.push(key));
        assert(config_keys(t)[s.len() as int] == key);
        lemma_position(config_keys(t), key, s.len() as int);
        assert forall|other: Seq<char>| other != key implies config_of(t, other) == config_of(s, other) by {
            if keys.contains(other) {
                lemma_position_in_range(keys, other);
                let j = position(keys, other);
                assert(config_keys(t)[j] == other);
                lemma_position(config_keys(t), other, j);
            } else if config_keys(t).contains(other) {
                lemma_position_in_range(config_keys(t), other);
                let j = position(config_keys(t), other);
                assert(keys[j] == other);
            }
        }
    }
}

/// An activity keeps the orchestrator well formed.
pub proof fn lemma_record_wf(s: OrchestratorState, who: Seq<char>, activity_type: Seq<char>, value: u128, now: u64)
    requires
        s.wf(),
        s.platform_stats.total_active_users < u128::MAX,
    ensures
        s.record_next(who, activity_type, value, now).wf(),
{
    let t = s.record_next(who, activity_type, value, now);
    let ids = activity_ids(s.user_activities);
    if s.has_activity(who) {
        lemma_position_in_range(ids, who);
        assert(activity_ids(t.user_activities) =~= ids);
    } else {
        assert(!s.active_users.contains(who));
        lemma_push_fresh(ids, who);
        lemma_push_fresh(s.active_users, who);
        assert(activity_ids(t.user_activities) =~= ids.push(who));
        assert(activity_ids(t.user_activities)[ids.len() as int] == who);
        assert(t.active_users[s.active_users.len() as int] == who);
        assert forall|x: Seq<char>| #[trigger]
            t.active_users.contains(x) <==> activity_ids(t.user_activities).contains(x) by {
            if x != who {
                assert(s.active_users.contains(x) <==> ids.contains(x));
                if s.active_users.contains(x) {
                    let i = choose|i: int| 0 <= i < s.active_users.len() && s.active_users[i] == x;
                    assert(t.active_users[i] == x);
                    let j = choose|j: int| 0 <= j < ids.len() && ids[j] == x;
                    assert(activity_ids(t.user_activities)[j] == x);
                }
                if t.active_users.contains(x) {
                    let i = choose|i: int| 0 <= i < t.active_users.len() && t.active_users[i] == x;
                    assert(s.active_users[i] == x);
                }
                if activity_ids(t.user_activities).contains(x) {
                    let j = choose|j: int|
                        0 <= j < activity_ids(t.user_activities).len() && activity_ids(t.user_activities)[j]
                            == x;
                    assert(ids[j] == x);
                }
            }
        }
    }
}

/// A statistic keeps the orchestrator well formed, and revenue that fits the
/// platform fits the contract.
pub proof fn lemma_stats_wf(s: OrchestratorState, caller: Seq<char>, stat_type: Seq<char>, value: u128)
    requires
        s.wf(),
        s.stats_error(caller, stat_type, value) is None,
    ensures
        s.stats_next(caller, stat_type, value).wf(),
        stat_type == "platform_revenue"@ ==> amount_of(s.revenue_by_contract, caller) + value <= u128::MAX,
{
    reveal_strlit("voice_tokens_minted");
    reveal_strlit("voice_nfts_minted");
    reveal_strlit("marketplace_transactions");
    reveal_strlit("dao_proposals");
    reveal_strlit("platform_revenue");
    if stat_type == "platform_revenue"@ {
        lemma_with_amount(
            s.revenue_by_contract,
            caller,
            (amount_of(s.revenue_by_contract, caller) + value) as u128,
        );
        assert("platform_revenue"@.len() == 16);
        assert("voice_tokens_minted"@.len() == 19);
        assert("voice_nfts_minted"@.len() == 17);
        assert("marketplace_transactions"@.len() == 24);
        assert("dao_proposals"@.len() == 13);
    }
}

/// An operation with the next number keeps the orchestrator well formed.
pub proof fn lemma_log_wf(s: OrchestratorState, o: PlatformOperationModel)
    requires
        s.wf(),
        s.total_operations < u128::MAX,
        o.operation_id == s.total_operations + 1,
    ensures
        s.log_next(o).wf(),
{
    let t = s.log_next(o);
    assert forall|i: int| 0 <= i < t.operations.len() implies (#[trigger] t.operations[i]).operation_id == i
        + 1 by {
        if i < s.operations.len() {
            assert(t.operations[i] == s.operations[i]);
        }
    }
}

} // verus!
