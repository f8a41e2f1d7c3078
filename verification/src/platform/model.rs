//! The platform contract as a mathematical value, what holds of every such
//! value, and what each call makes of it.

use crate::keyed::{lemma_position, lemma_position_in_range, lemma_push_fresh, position};
use crate::platform::types::{
    ContractAddressesModel, PlatformError, PlatformStats, UserProfileModel, VoiceAnalyticsModel,
};
use crate::text::decimal_text;
use vstd::prelude::*;

verus! {

/// The accounts of a list of profiles.
pub open spec fn profile_ids(s: Seq<UserProfileModel>) -> Seq<Seq<char>> {
    s.map_values(|p: UserProfileModel| p.account_id)
}

/// The tokens of a list of figures.
pub open spec fn token_ids(s: Seq<VoiceAnalyticsModel>) -> Seq<Seq<char>> {
    s.map_values(|a: VoiceAnalyticsModel| a.token_id)
}

/// The names of a list of named counts.
pub open spec fn count_names(s: Seq<(Seq<char>, u64)>) -> Seq<Seq<char>> {
    s.map_values(|e: (Seq<char>, u64)| e.0)
}

/// The count under `name`, 0 where the list has no such name.
pub open spec fn count_of(s: Seq<(Seq<char>, u64)>, name: Seq<char>) -> nat {
    if count_names(s).contains(name) {
        s[position(count_names(s), name)].1 as nat
    } else {
        0
    }
}

/// The list with one more under `name`.
pub open spec fn counted(s: Seq<(Seq<char>, u64)>, name: Seq<char>) -> Seq<(Seq<char>, u64)> {
    if count_names(s).contains(name) {
        s.update(position(count_names(s), name), (name, (count_of(s, name) + 1) as u64))
    } else {
        s.push((name, 1))
    }
}

/// The figures of a token that has none yet.
pub open spec fn fresh_analytics(token_id: Seq<char>) -> VoiceAnalyticsModel {
    VoiceAnalyticsModel {
        token_id,
        total_plays: 0,
        unique_listeners: 0,
        earnings: 0,
        geographic_data: Seq::empty(),
        sentiment_breakdown: Seq::empty(),
    }
}

/// The value under `key` in a list of texts looked up by an account or a token,
/// replaced or, where there is none, appended.
pub open spec fn upserted<A>(s: Seq<A>, keys: Seq<Seq<char>>, key: Seq<char>, value: A) -> Seq<A> {
    if keys.contains(key) {
        s.update(position(keys, key), value)
    } else {
        s.push(value)
    }
}

/// The text of a truth value.
pub open spec fn bool_text(b: bool) -> Seq<char> {
    if b {
        "true"@
    } else {
        "false"@
    }
}

/// The platform contract as a mathematical value.
#[verifier::ext_equal]
pub struct PlatformState {
    pub owner: Seq<char>,
    pub contract_addresses: ContractAddressesModel,
    pub user_profiles: Seq<UserProfileModel>,
    pub voice_analytics: Seq<VoiceAnalyticsModel>,
    pub platform_stats: PlatformStats,
    pub paused: bool,
    pub version: Seq<char>,
    pub deployed_at: u64,
}

impl PlatformState {
    /// The contract is well formed: no account has two profiles, no token two
    /// sets of figures, and no country is counted twice for a token.
    pub open spec fn wf(self) -> bool {
        &&& profile_ids(self.user_profiles).no_duplicates()
        &&& token_ids(self.voice_analytics).no_duplicates()
        &&& forall|i: int|
            0 <= i < self.voice_analytics.len() ==> count_names(
                (#[trigger] self.voice_analytics[i]).geographic_data,
            ).no_duplicates()
    }

    /// `who` has a profile.
    pub open spec fn has_profile(self, who: Seq<char>) -> bool {
        profile_ids(self.user_profiles).contains(who)
    }

    /// The profile of `who`.
    pub open spec fn profile(self, who: Seq<char>) -> UserProfileModel {
        self.user_profiles[position(profile_ids(self.user_profiles), who)]
    }

    /// The token `token_id` has figures.
    pub open spec fn has_analytics(self, token_id: Seq<char>) -> bool {
        token_ids(self.voice_analytics).contains(token_id)
    }

    /// The figures of the token `token_id`.
    pub open spec fn analytics(self, token_id: Seq<char>) -> VoiceAnalyticsModel {
        self.voice_analytics[position(token_ids(self.voice_analytics), token_id)]
    }

    /// The figures of the token `token_id`, or those of a token without any.
    pub open spec fn analytics_or_fresh(self, token_id: Seq<char>) -> VoiceAnalyticsModel {
        if self.has_analytics(token_id) {
            self.analytics(token_id)
        } else {
            fresh_analytics(token_id)
        }
    }

    /// A new contract.
    pub open spec fn initial(owner: Seq<char>, now: u64) -> PlatformState {
        PlatformState {
            owner,
            contract_addresses: ContractAddressesModel {
                voice_token: None,
                voice_nft: None,
                marketplace: None,
                dao: None,
            },
            user_profiles: Seq::empty(),
            voice_analytics: Seq::empty(),
            platform_stats: PlatformStats {
                total_voice_nfts: 0,
                total_users: 0,
                total_volume: 0,
                total_plays: 0,
                dao_members: 0,
                active_proposals: 0,
                last_updated: now,
            },
            paused: false,
            version: "1.0.0"@,
            deployed_at: now,
        }
    }

    /// The addresses with that of the contract `contract_type` set, or `None`
    /// where there is no contract of that name.
    pub open spec fn addresses_with(self, contract_type: Seq<char>, address: Seq<char>) -> Option<
        ContractAddressesModel,
    > {
        let a = self.contract_addresses;
        if contract_type == "voice_token"@ {
            Some(ContractAddressesModel { voice_token: Some(address), ..a })
        } else if contract_type == "voice_nft"@ {
            Some(ContractAddressesModel { voice_nft: Some(address), ..a })
        } else if contract_type == "marketplace"@ {
            Some(ContractAddressesModel { marketplace: Some(address), ..a })
        } else if contract_type == "dao"@ {
            Some(ContractAddressesModel { dao: Some(address), ..a })
        } else {
            None
        }
    }

    /// The address of the contract `contract_type` is set.
    pub open spec fn is_deployed(self, contract_type: Seq<char>) -> bool {
        let a = self.contract_addresses;
        if contract_type == "voice_token"@ {
            a.voice_token is Some
        } else if contract_type == "voice_nft"@ {
            a.voice_nft is Some
        } else if contract_type == "marketplace"@ {
            a.marketplace is Some
        } else if contract_type == "dao"@ {
            a.dao is Some
        } else {
            false
        }
    }

    /// The profile that `create_user_profile` makes.
    pub open spec fn created_profile(
        who: Seq<char>,
        display_name: Option<Seq<char>>,
        bio: Option<Seq<char>>,
        avatar_ipfs: Option<Seq<char>>,
        now: u64,
    ) -> UserProfileModel {
        UserProfileModel {
            account_id: who,
            display_name,
            bio,
            avatar_ipfs,
            total_voice_nfts: 0,
            total_earnings: 0,
            reputation_score: 0,
            verified: false,
            joined_at: now,
        }
    }

    /// The contract after `create_user_profile`: the profile stands in the place
    /// of an earlier one of the account, and the users are one more either way.
    pub open spec fn create_profile_next(self, p: UserProfileModel, now: u64) -> PlatformState {
        PlatformState {
            user_profiles: upserted(self.user_profiles, profile_ids(self.user_profiles), p.account_id, p),
            platform_stats: PlatformStats {
                total_users: (self.platform_stats.total_users + 1) as u64,
                last_updated: now,
                ..self.platform_stats
            },
            ..self
        }
    }

    /// The profile of `who` with the parts that are given replaced.
    pub open spec fn updated_profile(
        self,
        who: Seq<char>,
        display_name: Option<Seq<char>>,
        bio: Option<Seq<char>>,
        avatar_ipfs: Option<Seq<char>>,
    ) -> UserProfileModel {
        let p = self.profile(who);
        UserProfileModel {
            display_name: if display_name is Some {
                display_name
            } else {
                p.display_name
            },
            bio: if bio is Some {
                bio
            } else {
                p.bio
            },
            avatar_ipfs: if avatar_ipfs is Some {
                avatar_ipfs
            } else {
                p.avatar_ipfs
            },
            ..p
        }
    }

    /// The contract with the profile of `who` replaced by `p`.
    pub open spec fn with_profile(self, who: Seq<char>, p: UserProfileModel) -> PlatformState {
        PlatformState {
            user_profiles: self.user_profiles.update(position(profile_ids(self.user_profiles), who), p),
            ..self
        }
    }

    /// `caller` may record plays: the owner, or the voice token contract where set.
    pub open spec fn may_record_plays(self, caller: Seq<char>) -> bool {
        caller == self.owner || self.contract_addresses.voice_nft == Some(caller)
    }

    /// `caller` may update earnings: the owner, or the marketplace where set.
    pub open spec fn may_update_earnings(self, caller: Seq<char>) -> bool {
        caller == self.owner || self.contract_addresses.marketplace == Some(caller)
    }

    /// Why `record_voice_play` fails, if it does.
    pub open spec fn record_play_error(self, caller: Seq<char>, token_id: Seq<char>, country: Option<Seq<char>>) -> Option<
        PlatformError,
    > {
        if !self.may_record_plays(caller) {
            Some(PlatformError::Unauthorized)
        } else if self.analytics_or_fresh(token_id).total_plays == u64::MAX || (country is Some && count_of(
            self.analytics_or_fresh(token_id).geographic_data,
            country->0,
        ) == u64::MAX) || self.platform_stats.total_plays == u64::MAX {
            Some(PlatformError::ArithmeticOverflow)
        } else {
            None
        }
    }

    /// The figures of a token after one more play, from `country` where given.
    pub open spec fn played(a: VoiceAnalyticsModel, country: Option<Seq<char>>) -> VoiceAnalyticsModel {
        VoiceAnalyticsModel {
            total_plays: (a.total_plays + 1) as u64,
            geographic_data: match country {
                Some(c) => counted(a.geographic_data, c),
                None => a.geographic_data,
            },
            ..a
        }
    }

    /// The contract after `record_voice_play`.
    pub open spec fn record_play_next(self, token_id: Seq<char>, country: Option<Seq<char>>, now: u64) -> PlatformState {
        PlatformState {
            voice_analytics: upserted(
                self.voice_analytics,
                token_ids(self.voice_analytics),
                token_id,
                Self::played(self.analytics_or_fresh(token_id), country),
            ),
            platform_stats: PlatformStats {
                total_plays: (self.platform_stats.total_plays + 1) as u64,
                last_updated: now,
                ..self.platform_stats
            },
            ..self
        }
    }

    /// Why `update_nft_earnings` fails, if it does.
    pub open spec fn earnings_error(self, caller: Seq<char>, token_id: Seq<char>, earnings: u128) -> Option<
        PlatformError,
    > {
        if !self.may_update_earnings(caller) {
            Some(PlatformError::Unauthorized)
        } else if self.has_analytics(token_id) && (self.analytics(token_id).earnings + earnings > u128::MAX
            || self.platform_stats.total_volume + earnings > u128::MAX) {
            Some(PlatformError::ArithmeticOverflow)
        } else {
            None
        }
    }

    /// The contract after `update_nft_earnings`: the earnings are added to those
    /// of the token and to the volume; nothing changes for a token without figures.
    pub open spec fn earnings_next(self, token_id: Seq<char>, earnings: u128, now: u64) -> PlatformState {
        if self.has_analytics(token_id) {
            let a = self.analytics(token_id);
            PlatformState {
                voice_analytics: self.voice_analytics.update(
                    position(token_ids(self.voice_analytics), token_id),
                    VoiceAnalyticsModel { earnings: (a.earnings + earnings) as u128, ..a },
                ),
                platform_stats: PlatformStats {
                    total_volume: (self.platform_stats.total_volume + earnings) as u128,
                    last_updated: now,
                    ..self.platform_stats
                },
                ..self
            }
        } else {
            self
        }
    }

    /// The counters after `update_platform_stats`: those that are given are set.
    pub open spec fn stats_with(
        self,
        nft_count: Option<u64>,
        dao_members: Option<u64>,
        active_proposals: Option<u64>,
        now: u64,
    ) -> PlatformStats {
        let s = self.platform_stats;
        PlatformStats {
            total_voice_nfts: match nft_count {
                Some(n) => n,
                None => s.total_voice_nfts,
            },
            dao_members: match dao_members {
                Some(n) => n,
                None => s.dao_members,
            },
            active_proposals: match active_proposals {
                Some(n) => n,
                None => s.active_proposals,
            },
            last_updated: now,
            ..s
        }
    }

    /// The summary of the contract: seven keys and their values, as text.
    pub open spec fn summary(self) -> Seq<(Seq<char>, Seq<char>)> {
        seq![
            ("owner"@, self.owner),
            ("version"@, self.version),
            ("paused"@, bool_text(self.paused)),
            ("total_users"@, decimal_text(self.platform_stats.total_users as nat)),
            ("total_nfts"@, decimal_text(self.platform_stats.total_voice_nfts as nat)),
            ("total_plays"@, decimal_text(self.platform_stats.total_plays as nat)),
            ("total_volume"@, decimal_text(self.platform_stats.total_volume as nat)),
        ]
    }
}

/// Replacing or appending under a key keeps the keys free of duplicates.
pub proof fn lemma_upserted_keys(keys: Seq<Seq<char>>, key: Seq<char>)
    requires
        keys.no_duplicates(),
    ensures
        upserted(keys, keys, key, key).no_duplicates(),
        upserted(keys, keys, key, key).contains(key),
{
    if keys.contains(key) {
        lemma_position_in_range(keys, key);
        assert(keys.update(position(keys, key), key) =~= keys);
    } else {
        lemma_push_fresh(keys, key);
        assert(keys.push(key)[keys.len() as int] == key);
    }
}

/// One more under a name keeps the names free of duplicates.
pub proof fn lemma_counted(s: Seq<(Seq<char>, u64)>, name: Seq<char>)
    requires
        count_names(s).no_duplicates(),
    ensures
        count_names(counted(s, name)).no_duplicates(),
{
    let t = counted(s, name);
    if count_names(s).contains(name) {
        lemma_position_in_range(count_names(s), name);
        assert(count_names(t) =~= count_names(s));
    } else {
        lemma_push_fresh(count_names(s), name);
        assert(count_names(t) =~= count_names(s).push(name));
    }
}

/// A profile in the place of an earlier one of its account, or appended, keeps
/// the contract well formed.
pub proof fn lemma_create_profile_wf(s: PlatformState, p: UserProfileModel, now: u64)
    requires
        s.wf(),
    ensures
        s.create_profile_next(p, now).wf(),
        s.create_profile_next(p, now).has_profile(p.account_id),
        s.create_profile_next(p, now).profile(p.account_id) == p,
{
    let t = s.create_profile_next(p, now);
    let ids = profile_ids(s.user_profiles);
    lemma_upserted_keys(ids, p.account_id);
    assert(profile_ids(t.user_profiles) =~= upserted(ids, ids, p.account_id, p.account_id));
    if ids.contains(p.account_id) {
        lemma_position_in_range(ids, p.account_id);
        lemma_position(profile_ids(t.user_profiles), p.account_id, position(ids, p.account_id));
    } else {
        lemma_position(profile_ids(t.user_profiles), p.account_id, ids.len() as int);
    }
}

/// A profile replaced by one of the same account keeps the contract well formed.
pub proof fn lemma_with_profile_wf(s: PlatformState, who: Seq<char>, p: UserProfileModel)
    requires
        s.wf(),
        s.has_profile(who),
        p.account_id == who,
    ensures
        s.with_profile(who, p).wf(),
{
    lemma_position_in_range(profile_ids(s.user_profiles), who);
    assert(profile_ids(s.with_profile(who, p).user_profiles) =~= profile_ids(s.user_profiles));
}

/// A play keeps the contract well formed.
pub proof fn lemma_record_play_wf(s: PlatformState, token_id: Seq<char>, country: Option<Seq<char>>, now: u64)
    requires
        s.wf(),
    ensures
        s.record_play_next(token_id, country, now).wf(),
{
    let t = s.record_play_next(token_id, country, now);
    let ids = token_ids(s.voice_analytics);
    let a = s.analytics_or_fresh(token_id);
    let b = PlatformState::played(a, country);
    lemma_upserted_keys(ids, token_id);
    if ids.contains(token_id) {
        lemma_position_in_range(ids, token_id);
    } else {
        assert(count_names(a.geographic_data) =~= Seq::<Seq<char>>::empty());
    }
    assert(token_ids(t.voice_analytics) =~= upserted(ids, ids, token_id, token_id));
    assert(count_names(a.geographic_data).no_duplicates());
    if country is Some {
        lemma_counted(a.geographic_data, country->0);
    }
    assert forall|i: int| 0 <= i < t.voice_analytics.len() implies count_names(
        (#[trigger] t.voice_analytics[i]).geographic_data,
    ).no_duplicates() by {
        if ids.contains(token_id) {
            if i != position(ids, token_id) {
                assert(t.voice_analytics[i] == s.voice_analytics[i]);
            }
        } else {
            if i < s.voice_analytics.len() {
                assert(t.voice_analytics[i] == s.voice_analytics[i]);
            }
        }
    }
}

/// Earnings keep the contract well formed.
pub proof fn lemma_earnings_wf(s: PlatformState, token_id: Seq<char>, earnings: u128, now: u64)
    requires
        s.wf(),
    ensures
        s.earnings_next(token_id, earnings, now).wf(),
{
    let t = s.earnings_next(token_id, earnings, now);
    if s.has_analytics(token_id) {
        let ids = token_ids(s.voice_analytics);
        lemma_position_in_range(ids, token_id);
        assert(token_ids(t.voice_analytics) =~= ids);
        assert forall|i: int| 0 <= i < t.voice_analytics.len() implies count_names(
            (#[trigger] t.voice_analytics[i]).geographic_data,
        ).no_duplicates() by {
            assert(t.voice_analytics[i].geographic_data == s.voice_analytics[i].geographic_data);
        }
    }
}

} // verus!
