//! The platform contract itself: the state it keeps and the calls that change
//! it. Every call either succeeds and leaves the contract as its contract
//! says, or fails with the reason and leaves the contract as it was.

use crate::account::AccountId;
use crate::keyed::{distinct_keys, find, keys_of, lemma_position};
use crate::platform::model::{
    bool_text, count_names, counted, lemma_create_profile_wf, lemma_earnings_wf,
    lemma_record_play_wf, lemma_with_profile_wf, profile_ids, token_ids, PlatformState,
};
use crate::platform::types::{
    analytics_models, named_counts, profile_models, ContractAddresses, ContractQuery, NamedCount,
    PlatformError, PlatformStats, UserProfile, UserProfileModel, VoiceAnalytics,
};
use crate::text::{opt_text, u128_to_string, u64_to_string};
use vstd::prelude::*;
use vstd::string::*;

verus! {

/// The platform contract.
pub struct VoiceOrchestrator {
    owner: AccountId,
    contract_addresses: ContractAddresses,
    user_profiles: Vec<UserProfile>,
    voice_analytics: Vec<VoiceAnalytics>,
    platform_stats: PlatformStats,
    paused: bool,
    version: String,
    deployed_at: u64,
}

impl View for VoiceOrchestrator {
    type V = PlatformState;

    closed spec fn view(&self) -> PlatformState {
        PlatformState {
            owner: self.owner@,
            contract_addresses: self.contract_addresses@,
            user_profiles: profile_models(self.user_profiles@),
            voice_analytics: analytics_models(self.voice_analytics@),
            platform_stats: self.platform_stats,
            paused: self.paused,
            version: self.version@,
            deployed_at: self.deployed_at,
        }
    }
}

/// The views of a list of pairs of texts.
pub open spec fn text_pairs(v: Seq<(String, String)>) -> Seq<(Seq<char>, Seq<char>)> {
    v.map_values(|e: (String, String)| (e.0@, e.1@))
}

/// The whole state of a platform contract as plain records, for keeping it
/// between calls. Not every such value is the state of a contract: see
/// [`PlatformState::wf`].
#[derive(Debug)]
pub struct PlatformSnapshot {
    pub owner: AccountId,
    pub contract_addresses: ContractAddresses,
    pub user_profiles: Vec<UserProfile>,
    pub voice_analytics: Vec<VoiceAnalytics>,
    pub platform_stats: PlatformStats,
    pub paused: bool,
    pub version: String,
    pub deployed_at: u64,
}

impl View for PlatformSnapshot {
    type V = PlatformState;

    open spec fn view(&self) -> PlatformState {
        PlatformState {
            owner: self.owner@,
            contract_addresses: self.contract_addresses@,
            user_profiles: profile_models(self.user_profiles@),
            voice_analytics: analytics_models(self.voice_analytics@),
            platform_stats: self.platform_stats,
            paused: self.paused,
            version: self.version@,
            deployed_at: self.deployed_at,
        }
    }
}

impl PlatformSnapshot {
    /// Whether the state is that of a contract: see [`PlatformState::wf`].
    pub fn is_well_formed(&self) -> (ok: bool)
        ensures
            ok == self@.wf(),
    {
        let ghost s = self@;
        proof {
            assert(keys_of(self.user_profiles@) =~= profile_ids(s.user_profiles));
            assert(keys_of(self.voice_analytics@) =~= token_ids(s.voice_analytics));
        }
        if !distinct_keys(&self.user_profiles) || !distinct_keys(&self.voice_analytics) {
            return false;
        }
        let mut i: usize = 0;
        while i < self.voice_analytics.len()
            invariant
                i <= self.voice_analytics.len(),
                s == self@,
                forall|j: int|
                    0 <= j < i ==> count_names((#[trigger] s.voice_analytics[j]).geographic_data).no_duplicates(),
            decreases self.voice_analytics.len() - i,
        {
            proof {
                assert(keys_of(self.voice_analytics[i as int].geographic_data@) =~= count_names(
                    s.voice_analytics[i as int].geographic_data,
                ));
            }
            if !distinct_keys(&self.voice_analytics[i].geographic_data) {
                assert(!count_names(s.voice_analytics[i as int].geographic_data).no_duplicates());
                return false;
            }
            i += 1;
        }
        true
    }
}

impl VoiceOrchestrator {
    /// The state of the contract as plain records.
    pub fn into_snapshot(self) -> (s: PlatformSnapshot)
        ensures
            s@ == self@,
    {
        PlatformSnapshot {
            owner: self.owner,
            contract_addresses: self.contract_addresses,
            user_profiles: self.user_profiles,
            voice_analytics: self.voice_analytics,
            platform_stats: self.platform_stats,
            paused: self.paused,
            version: self.version,
            deployed_at: self.deployed_at,
        }
    }

    /// The contract with the state `s`, where that state is well formed;
    /// nothing where it is not.
    pub fn from_snapshot(s: PlatformSnapshot) -> (r: Option<Self>)
        ensures
            match r {
                Some(c) => s@.wf() && c@ == s@ && c.wf(),
                None => !s@.wf(),
            },
    {
        if !s.is_well_formed() {
            return None;
        }
        Some(
            VoiceOrchestrator {
                owner: s.owner,
                contract_addresses: s.contract_addresses,
                user_profiles: s.user_profiles,
                voice_analytics: s.voice_analytics,
                platform_stats: s.platform_stats,
                paused: s.paused,
                version: s.version,
                deployed_at: s.deployed_at,
            },
        )
    }

    /// The contract is well formed: see [`PlatformState::wf`].
    pub open spec fn wf(&self) -> bool {
        self@.wf()
    }

    proof fn lemma_keys(&self)
        ensures
            keys_of(self.user_profiles@) == profile_ids(self@.user_profiles),
            keys_of(self.voice_analytics@) == token_ids(self@.voice_analytics),
    {
        assert(keys_of(self.user_profiles@) =~= profile_ids(self@.user_profiles));
        assert(keys_of(self.voice_analytics@) =~= token_ids(self@.voice_analytics));
    }

    /// A new contract, owned by `owner`, deployed at `now`.
    pub fn new(owner: AccountId, now: u64) -> (c: Self)
        ensures
            c@ == PlatformState::initial(owner@, now),
            c.wf(),
    {
        let c = VoiceOrchestrator {
            owner,
            contract_addresses: ContractAddresses {
                voice_token: None,
                voice_nft: None,
                marketplace: None,
                dao: None,
            },
            user_profiles: Vec::new(),
            voice_analytics: Vec::new(),
            platform_stats: PlatformStats {
                total_voice_nfts: 0,
                total_users: 0,
                total_volume: 0,
                total_plays: 0,
                dao_members: 0,
                active_proposals: 0,
                last_updated: now,
            },
            paused: false,
            version: String::from_str("1.0.0"),
            deployed_at: now,
        };
        proof {
            let m = PlatformState::initial(owner@, now);
            assert(c@.user_profiles =~= m.user_profiles);
            assert(c@.voice_analytics =~= m.voice_analytics);
            assert(c@ =~= m);
            assert(profile_ids(m.user_profiles) =~= Seq::<Seq<char>>::empty());
            assert(token_ids(m.voice_analytics) =~= Seq::<Seq<char>>::empty());
        }
        c
    }

    /// Sets the address of the contract `contract_type`: `"voice_token"`,
    /// `"voice_nft"`, `"marketplace"` or `"dao"`. Only the owner may.
    ///
    /// Fails with `Unauthorized`, else with `InvalidContractType` for another name.
    pub fn set_contract_address(&mut self, caller: &AccountId, contract_type: String, address: AccountId) -> (r:
        Result<(), PlatformError>)
        requires
            old(self).wf(),
        ensures
            final(self).wf(),
            match r {
                Ok(_) => caller@ == old(self)@.owner && old(self)@.addresses_with(contract_type@, address@)
                    is Some && final(self)@ == (PlatformState {
                    contract_addresses: old(self)@.addresses_with(contract_type@, address@)->0,
                    ..old(self)@
                }),
                Err(e) => final(self)@ == old(self)@ && if caller@ != old(self)@.owner {
                    e == PlatformError::Unauthorized
                } else {
                    e == PlatformError::InvalidContractType && old(self)@.addresses_with(
                        contract_type@,
                        address@,
                    ) is None
                },
            },
    {
        if !(*caller == self.owner) {
            return Err(PlatformError::Unauthorized);
        }
        if contract_type == String::from_str("voice_token") {
            self.contract_addresses.voice_token = Some(address);
        } else if contract_type == String::from_str("voice_nft") {
            self.contract_addresses.voice_nft = Some(address);
        } else if contract_type == String::from_str("marketplace") {
            self.contract_addresses.marketplace = Some(address);
        } else if contract_type == String::from_str("dao") {
            self.contract_addresses.dao = Some(address);
        } else {
            return Err(PlatformError::InvalidContractType);
        }
        proof {
            assert(self@ =~= (PlatformState {
                contract_addresses: old(self)@.addresses_with(contract_type@, address@)->0,
                ..old(self)@
            }));
        }
        Ok(())
    }

    /// The addresses of the other contracts.
    pub fn get_contract_addresses(&self) -> (r: ContractAddresses)
        ensures
            r@ == self@.contract_addresses,
    {
        self.contract_addresses.clone()
    }

    /// Whether the address of the contract `contract_type` is set.
    pub fn is_contract_deployed(&self, contract_type: String) -> (r: bool)
        ensures
            r == self@.is_deployed(contract_type@),
    {
        if contract_type == String::from_str("voice_token") {
            self.contract_addresses.voice_token.is_some()
        } else if contract_type == String::from_str("voice_nft") {
            self.contract_addresses.voice_nft.is_some()
        } else if contract_type == String::from_str("marketplace") {
            self.contract_addresses.marketplace.is_some()
        } else if contract_type == String::from_str("dao") {
            self.contract_addresses.dao.is_some()
        } else {
            false
        }
    }

    /// Makes the profile of `account_id`, unverified, with nothing to its name
    /// yet; an earlier profile of the account is replaced. The users are counted
    /// one more either way.
    ///
    /// Fails with `ArithmeticOverflow` where the count would leave its range.
    pub fn create_user_profile(
        &mut self,
        account_id: AccountId,
        display_name: Option<String>,
        bio: Option<String>,
        avatar_ipfs: Option<String>,
        now: u64,
    ) -> (r: Result<(), PlatformError>)
        requires
            old(self).wf(),
        ensures
            final(self).wf(),
            match r {
                Ok(_) => old(self)@.platform_stats.total_users < u64::MAX && final(self)@ == old(self)@.create_profile_next(
                    PlatformState::created_profile(
                        account_id@,
                        opt_text(display_name),
                        opt_text(bio),
                        opt_text(avatar_ipfs),
                        now,
                    ),
                    now,
                ),
                Err(e) => e == PlatformError::ArithmeticOverflow && old(self)@.platform_stats.total_users
                    == u64::MAX && final(self)@ == old(self)@,
            },
    {
        if self.platform_stats.total_users == u64::MAX {
            return Err(PlatformError::ArithmeticOverflow);
        }
        proof {
            self.lemma_keys();
        }
        let ghost p = PlatformState::created_profile(
            account_id@,
            opt_text(display_name),
            opt_text(bio),
            opt_text(avatar_ipfs),
            now,
        );
        let slot = find(&self.user_profiles, &account_id);
        let profile = UserProfile {
            account_id,
            display_name,
            bio,
            avatar_ipfs,
            total_voice_nfts: 0,
            total_earnings: 0,
            reputation_score: 0,
            verified: false,
            joined_at: now,
        };
        assert(profile@ == p);
        match slot {
            Some(i) => {
                proof {
                    lemma_position(profile_ids(self@.user_profiles), account_id@, i as int);
                }
                self.user_profiles[i] = profile;
            },
            None => {
                self.user_profiles.push(profile);
            },
        }
        self.platform_stats.total_users = self.platform_stats.total_users + 1;
        self.platform_stats.last_updated = now;
        proof {
            let t = old(self)@.create_profile_next(p, now);
            assert(self@.user_profiles =~= t.user_profiles);
            assert(self@ =~= t);
            lemma_create_profile_wf(old(self)@, p, now);
        }
        Ok(())
    }

    /// Replaces the parts of the profile of `account_id` that are given.
    ///
    /// Fails with `ProfileNotFound` for an account without a profile.
    pub fn update_user_profile(
        &mut self,
        account_id: AccountId,
        display_name: Option<String>,
        bio: Option<String>,
        avatar_ipfs: Option<String>,
    ) -> (r: Result<(), PlatformError>)
        requires
            old(self).wf(),
        ensures
            final(self).wf(),
            match r {
                Ok(_) => old(self)@.has_profile(account_id@) && final(self)@ == old(self)@.with_profile(
                    account_id@,
                    old(self)@.updated_profile(
                        account_id@,
                        opt_text(display_name),
                        opt_text(bio),
                        opt_text(avatar_ipfs),
                    ),
                ),
                Err(e) => e == PlatformError::ProfileNotFound && !old(self)@.has_profile(account_id@)
                    && final(self)@ == old(self)@,
            },
    {
        proof {
            self.lemma_keys();
        }
        let i: usize = match find(&self.user_profiles, &account_id) {
            Some(i) => i,
            None => {
                return Err(PlatformError::ProfileNotFound);
            },
        };
        proof {
            lemma_position(profile_ids(self@.user_profiles), account_id@, i as int);
        }
        let ghost q = old(self)@.updated_profile(
            account_id@,
            opt_text(display_name),
            opt_text(bio),
            opt_text(avatar_ipfs),
        );
        match display_name {
            Some(name) => {
                self.user_profiles[i].display_name = Some(name);
            },
            None => {},
        }
        match bio {
            Some(text) => {
                self.user_profiles[i].bio = Some(text);
            },
            None => {},
        }
        match avatar_ipfs {
            Some(avatar) => {
                self.user_profiles[i].avatar_ipfs = Some(avatar);
            },
            None => {},
        }
        proof {
            assert(self.user_profiles@[i as int]@ == q);
            assert(self@.user_profiles =~= old(self)@.user_profiles.update(i as int, q));
            assert(self@ =~= old(self)@.with_profile(account_id@, q));
            lemma_with_profile_wf(old(self)@, account_id@, q);
        }
        Ok(())
    }

    /// The profile of `account_id`, if there is one.
    pub fn get_user_profile(&self, account_id: AccountId) -> (r: Option<UserProfile>)
        requires
            self.wf(),
        ensures
            match r {
                Some(p) => self@.has_profile(account_id@) && p@ == self@.profile(account_id@),
                None => !self@.has_profile(account_id@),
            },
    {
        proof {
            self.lemma_keys();
        }
        match find(&self.user_profiles, &account_id) {
            Some(i) => {
                proof {
                    lemma_position(profile_ids(self@.user_profiles), account_id@, i as int);
                }
                Some(self.user_profiles[i].clone())
            },
            None => None,
        }
    }

    /// Marks the profile of `account_id`, if there is one, as verified. Only the
    /// owner may.
    pub fn verify_user(&mut self, caller: &AccountId, account_id: AccountId) -> (r: Result<(), PlatformError>)
        requires
            old(self).wf(),
        ensures
            final(self).wf(),
            match r {
                Ok(_) => caller@ == old(self)@.owner && final(self)@ == if old(self)@.has_profile(
                    account_id@,
                ) {
                    old(self)@.with_profile(
                        account_id@,
                        UserProfileModel { verified: true, ..old(self)@.profile(account_id@) },
                    )
                } else {
                    old(self)@
                },
                Err(e) => e == PlatformError::Unauthorized && caller@ != old(self)@.owner && final(self)@
                    == old(self)@,
            },
    {
        if !(*caller == self.owner) {
            return Err(PlatformError::Unauthorized);
        }
        proof {
            self.lemma_keys();
        }
        match find(&self.user_profiles, &account_id) {
            Some(i) => {
                proof {
                    lemma_position(profile_ids(self@.user_profiles), account_id@, i as int);
                }
                self.user_profiles[i].verified = true;
                proof {
                    let q = UserProfileModel { verified: true, ..old(self)@.profile(account_id@) };
                    assert(self@.user_profiles =~= old(self)@.user_profiles.update(i as int, q));
                    assert(self@ =~= old(self)@.with_profile(account_id@, q));
                    lemma_with_profile_wf(old(self)@, account_id@, q);
                }
            },
            None => {},
        }
        Ok(())
    }

    /// Adds one to the count under `name`.
    fn count_one(counts: &mut Vec<NamedCount>, name: String)
        requires
            count_names(named_counts(old(counts)@)).no_duplicates(),
            crate::platform::model::count_of(named_counts(old(counts)@), name@) < u64::MAX,
        ensures
            named_counts(final(counts)@) == counted(named_counts(old(counts)@), name@),
    {
        proof {
            assert(keys_of(counts@) =~= count_names(named_counts(counts@)));
        }
        match find(counts, &name) {
            Some(i) => {
                proof {
                    lemma_position(count_names(named_counts(counts@)), name@, i as int);
                }
                counts[i].count = counts[i].count + 1;
                proof {
                    assert(named_counts(counts@) =~= counted(named_counts(old(counts)@), name@));
                }
            },
            None => {
                counts.push(NamedCount { name, count: 1 });
                proof {
                    assert(named_counts(counts@) =~= counted(named_counts(old(counts)@), name@));
                }
            },
        }
    }

    /// Records one play of the token `token_id`, from `country` where given. The
    /// owner may, and the voice token contract where its address is set.
    ///
    /// Fails with `Unauthorized`, else with `ArithmeticOverflow` where a count
    /// would leave its range.
    pub fn record_voice_play(
        &mut self,
        caller: &AccountId,
        token_id: String,
        listener: AccountId,
        country: Option<String>,
        duration: u64,
        now: u64,
    ) -> (r: Result<(), PlatformError>)
        requires
            old(self).wf(),
        ensures
            final(self).wf(),
            match r {
                Ok(_) => old(self)@.record_play_error(caller@, token_id@, opt_text(country)) is None
                    && final(self)@ == old(self)@.record_play_next(token_id@, opt_text(country), now),
                Err(e) => old(self)@.record_play_error(caller@, token_id@, opt_text(country)) == Some(e)
                    && final(self)@ == old(self)@,
            },
    {
        let allowed: bool = *caller == self.owner || match &self.contract_addresses.voice_nft {
            Some(nft) => *caller == *nft,
            None => false,
        };
        if !allowed {
            return Err(PlatformError::Unauthorized);
        }
        proof {
            self.lemma_keys();
            lemma_record_play_wf(self@, token_id@, opt_text(country), now);
        }
        let slot = find(&self.voice_analytics, &token_id);
        let ghost a = old(self)@.analytics_or_fresh(token_id@);
        match slot {
            Some(i) => {
                proof {
                    lemma_position(token_ids(self@.voice_analytics), token_id@, i as int);
                }
                if self.voice_analytics[i].total_plays == u64::MAX {
                    return Err(PlatformError::ArithmeticOverflow);
                }
                match &country {
                    Some(c) => {
                        proof {
                            assert(keys_of(self.voice_analytics[i as int].geographic_data@) =~= count_names(
                                a.geographic_data,
                            ));
                        }
                        match find(&self.voice_analytics[i].geographic_data, c) {
                            Some(k) => {
                                proof {
                                    lemma_position(count_names(a.geographic_data), c@, k as int);
                                }
                                if self.voice_analytics[i].geographic_data[k].count == u64::MAX {
                                    return Err(PlatformError::ArithmeticOverflow);
                                }
                            },
                            None => {},
                        }
                    },
                    None => {},
                }
            },
            None => {
                proof {
                    assert(count_names(a.geographic_data) =~= Seq::<Seq<char>>::empty());
                }
            },
        }
        if self.platform_stats.total_plays == u64::MAX {
            return Err(PlatformError::ArithmeticOverflow);
        }
        let at: usize = match slot {
            Some(i) => i,
            None => {
                self.voice_analytics.push(
                    VoiceAnalytics {
                        token_id,
                        total_plays: 0,
                        unique_listeners: 0,
                        earnings: 0,
                        geographic_data: Vec::new(),
                        sentiment_breakdown: Vec::new(),
                    },
                );
                self.voice_analytics.len() - 1
            },
        };
        assert(self.voice_analytics@[at as int]@ =~= a) by {
            assert(self.voice_analytics@[at as int]@.geographic_data =~= a.geographic_data);
            assert(self.voice_analytics@[at as int]@.sentiment_breakdown =~= a.sentiment_breakdown);
        }
        self.voice_analytics[at].total_plays = self.voice_analytics[at].total_plays + 1;
        match country {
            Some(c) => {
                Self::count_one(&mut self.voice_analytics[at].geographic_data, c);
            },
            None => {},
        }
        self.platform_stats.total_plays = self.platform_stats.total_plays + 1;
        self.platform_stats.last_updated = now;
        proof {
            let t = old(self)@.record_play_next(token_id@, opt_text(country), now);
            assert(self.voice_analytics@[at as int]@ == PlatformState::played(a, opt_text(country)));
            assert(self@.voice_analytics =~= t.voice_analytics);
            assert(self@ =~= t);
        }
        Ok(())
    }

    /// The figures of the token `token_id`, if it has any.
    pub fn get_voice_analytics(&self, token_id: String) -> (r: Option<VoiceAnalytics>)
        requires
            self.wf(),
        ensures
            match r {
                Some(a) => self@.has_analytics(token_id@) && a@ == self@.analytics(token_id@),
                None => !self@.has_analytics(token_id@),
            },
    {
        proof {
            self.lemma_keys();
        }
        match find(&self.voice_analytics, &token_id) {
            Some(i) => {
                proof {
                    lemma_position(token_ids(self@.voice_analytics), token_id@, i as int);
                }
                Some(self.voice_analytics[i].clone())
            },
            None => None,
        }
    }

    /// Adds `earnings` to those of the token `token_id`, if it has figures, and
    /// to the volume of the platform. The owner may, and the marketplace where
    /// its address is set.
    ///
    /// Fails with `Unauthorized`, else with `ArithmeticOverflow` where a total
    /// would leave its range.
    pub fn update_nft_earnings(&mut self, caller: &AccountId, token_id: String, earnings: u128, now: u64) -> (r:
        Result<(), PlatformError>)
        requires
            old(self).wf(),
        ensures
            final(self).wf(),
            match r {
                Ok(_) => old(self)@.earnings_error(caller@, token_id@, earnings) is None && final(self)@
                    == old(self)@.earnings_next(token_id@, earnings, now),
                Err(e) => old(self)@.earnings_error(caller@, token_id@, earnings) == Some(e) && final(self)@ == old(self)@,
            },
    {
        let allowed: bool = *caller == self.owner || match &self.contract_addresses.marketplace {
            Some(market) => *caller == *market,
            None => false,
        };
        if !allowed {
            return Err(PlatformError::Unauthorized);
        }
        proof {
            self.lemma_keys();
            lemma_earnings_wf(self@, token_id@, earnings, now);
        }
        match find(&self.voice_analytics, &token_id) {
            Some(i) => {
                proof {
                    lemma_position(token_ids(self@.voice_analytics), token_id@, i as int);
                }
                let earned: u128 = match self.voice_analytics[i].earnings.checked_add(earnings) {
                    Some(x) => x,
                    None => {
                        return Err(PlatformError::ArithmeticOverflow);
                    },
                };
                let volume: u128 = match self.platform_stats.total_volume.checked_add(earnings) {
                    Some(x) => x,
                    None => {
                        return Err(PlatformError::ArithmeticOverflow);
                    },
                };
                self.voice_analytics[i].earnings = earned;
                self.platform_stats.total_volume = volume;
                self.platform_stats.last_updated = now;
                proof {
                    let t = old(self)@.earnings_next(token_id@, earnings, now);
                    assert(self@.voice_analytics =~= t.voice_analytics);
                    assert(self@ =~= t);
                }
                Ok(())
            },
            None => Ok(()),
        }
    }

    /// Sets the counters that are given. Only the owner may.
    pub fn update_platform_stats(
        &mut self,
        caller: &AccountId,
        nft_count: Option<u64>,
        dao_members: Option<u64>,
        active_proposals: Option<u64>,
        now: u64,
    ) -> (r: Result<(), PlatformError>)
        requires
            old(self).wf(),
        ensures
            final(self).wf(),
            match r {
                Ok(_) => caller@ == old(self)@.owner && final(self)@ == (PlatformState {
                    platform_stats: old(self)@.stats_with(nft_count, dao_members, active_proposals, now),
                    ..old(self)@
                }),
                Err(e) => e == PlatformError::Unauthorized && caller@ != old(self)@.owner && final(self)@
                    == old(self)@,
            },
    {
        if !(*caller == self.owner) {
            return Err(PlatformError::Unauthorized);
        }
        match nft_count {
            Some(count) => {
                self.platform_stats.total_voice_nfts = count;
            },
            None => {},
        }
        match dao_members {
            Some(members) => {
                self.platform_stats.dao_members = members;
            },
            None => {},
        }
        match active_proposals {
            Some(proposals) => {
                self.platform_stats.active_proposals = proposals;
            },
            None => {},
        }
        self.platform_stats.last_updated = now;
        proof {
            assert(self@ =~= (PlatformState {
                platform_stats: old(self)@.stats_with(nft_count, dao_members, active_proposals, now),
                ..old(self)@
            }));
        }
        Ok(())
    }

    /// The counters of the platform.
    pub fn get_platform_stats(&self) -> (r: PlatformStats)
        ensures
            r == self@.platform_stats,
    {
        self.platform_stats
    }

    /// The question for the balance of `account_id` to the token contract.
    ///
    /// Fails with `ContractNotSet` where the address of the token contract is not set.
    pub fn cross_contract_voice_balance(&self, account_id: AccountId) -> (r: Result<ContractQuery, PlatformError>)
        ensures
            match r {
                Ok(q) => self@.contract_addresses.voice_token == Some(q.contract@) && q.method@
                    == "ft_balance_of"@ && q.account_id@ == account_id@,
                Err(e) => e == PlatformError::ContractNotSet && self@.contract_addresses.voice_token is None,
            },
    {
        match &self.contract_addresses.voice_token {
            Some(contract) => Ok(
                ContractQuery {
                    contract: contract.clone(),
                    method: String::from_str("ft_balance_of"),
                    account_id,
                },
            ),
            None => Err(PlatformError::ContractNotSet),
        }
    }

    /// The question for the number of tokens of `owner` to the voice token contract.
    ///
    /// Fails with `ContractNotSet` where the address of that contract is not set.
    pub fn cross_contract_nft_count(&self, owner: AccountId) -> (r: Result<ContractQuery, PlatformError>)
        ensures
            match r {
                Ok(q) => self@.contract_addresses.voice_nft == Some(q.contract@) && q.method@
                    == "nft_supply_for_owner"@ && q.account_id@ == owner@,
                Err(e) => e == PlatformError::ContractNotSet && self@.contract_addresses.voice_nft is None,
            },
    {
        match &self.contract_addresses.voice_nft {
            Some(contract) => Ok(
                ContractQuery {
                    contract: contract.clone(),
                    method: String::from_str("nft_supply_for_owner"),
                    account_id: owner,
                },
            ),
            None => Err(PlatformError::ContractNotSet),
        }
    }

    /// Pauses the platform. Only the owner may.
    pub fn pause_platform(&mut self, caller: &AccountId) -> (r: Result<(), PlatformError>)
        ensures
            match r {
                Ok(_) => caller@ == old(self)@.owner && final(self)@ == (PlatformState {
                    paused: true,
                    ..old(self)@
                }),
                Err(e) => e == PlatformError::Unauthorized && caller@ != old(self)@.owner && final(self)@
                    == old(self)@,
            },
    {
        if !(*caller == self.owner) {
            return Err(PlatformError::Unauthorized);
        }
        self.paused = true;
        proof {
            assert(self@ =~= (PlatformState { paused: true, ..old(self)@ }));
        }
        Ok(())
    }

    /// Lifts the pause. Only the owner may.
    pub fn unpause_platform(&mut self, caller: &AccountId) -> (r: Result<(), PlatformError>)
        ensures
            match r {
                Ok(_) => caller@ == old(self)@.owner && final(self)@ == (PlatformState {
                    paused: false,
                    ..old(self)@
                }),
                Err(e) => e == PlatformError::Unauthorized && caller@ != old(self)@.owner && final(self)@
                    == old(self)@,
            },
    {
        if !(*caller == self.owner) {
            return Err(PlatformError::Unauthorized);
        }
        self.paused = false;
        proof {
            assert(self@ =~= (PlatformState { paused: false, ..old(self)@ }));
        }
        Ok(())
    }

    /// Hands the contract over to `new_owner`. Only the owner may.
    pub fn transfer_ownership(&mut self, caller: &AccountId, new_owner: AccountId) -> (r: Result<
        (),
        PlatformError,
    >)
        ensures
            match r {
                Ok(_) => caller@ == old(self)@.owner && final(self)@ == (PlatformState {
                    owner: new_owner@,
                    ..old(self)@
                }),
                Err(e) => e == PlatformError::Unauthorized && caller@ != old(self)@.owner && final(self)@
                    == old(self)@,
            },
    {
        if !(*caller == self.owner) {
            return Err(PlatformError::Unauthorized);
        }
        self.owner = new_owner;
        proof {
            assert(self@ =~= (PlatformState { owner: new_owner@, ..old(self)@ }));
        }
        Ok(())
    }

    /// Sets the version. Only the owner may.
    pub fn update_version(&mut self, caller: &AccountId, new_version: String) -> (r: Result<(), PlatformError>)
        ensures
            match r {
                Ok(_) => caller@ == old(self)@.owner && final(self)@ == (PlatformState {
                    version: new_version@,
                    ..old(self)@
                }),
                Err(e) => e == PlatformError::Unauthorized && caller@ != old(self)@.owner && final(self)@
                    == old(self)@,
            },
    {
        if !(*caller == self.owner) {
            return Err(PlatformError::Unauthorized);
        }
        self.version = new_version;
        proof {
            assert(self@ =~= (PlatformState { version: new_version@, ..old(self)@ }));
        }
        Ok(())
    }

    /// The owner of the contract.
    pub fn get_owner(&self) -> (r: AccountId)
        ensures
            r@ == self@.owner,
    {
        self.owner.clone()
    }

    /// The version of the contract.
    pub fn get_version(&self) -> (r: String)
        ensures
            r@ == self@.version,
    {
        self.version.clone()
    }

    /// The time at which the contract was deployed.
    pub fn get_deployed_at(&self) -> (r: u64)
        ensures
            r == self@.deployed_at,
    {
        self.deployed_at
    }

    /// Whether the platform is paused.
    pub fn is_paused(&self) -> (r: bool)
        ensures
            r == self@.paused,
    {
        self.paused
    }

    /// The number of profiles made.
    pub fn get_user_count(&self) -> (r: u64)
        ensures
            r == self@.platform_stats.total_users,
    {
        self.platform_stats.total_users
    }

    /// The number of plays recorded.
    pub fn get_total_plays(&self) -> (r: u64)
        ensures
            r == self@.platform_stats.total_plays,
    {
        self.platform_stats.total_plays
    }

    /// The volume of the platform.
    pub fn get_total_volume(&self) -> (r: u128)
        ensures
            r == self@.platform_stats.total_volume,
    {
        self.platform_stats.total_volume
    }

    /// The summary of the contract: seven keys and their values, as text.
    pub fn get_contract_summary(&self) -> (r: Vec<(String, String)>)
        ensures
            text_pairs(r@) == self@.summary(),
    {
        let mut summary: Vec<(String, String)> = Vec::new();
        summary.push((String::from_str("owner"), self.owner.clone()));
        summary.push((String::from_str("version"), self.version.clone()));
        let paused = if self.paused {
            String::from_str("true")
        } else {
            String::from_str("false")
        };
        assert(paused@ == bool_text(self.paused));
        summary.push((String::from_str("paused"), paused));
        summary.push((String::from_str("total_users"), u64_to_string(self.platform_stats.total_users)));
        summary.push((String::from_str("total_nfts"), u64_to_string(self.platform_stats.total_voice_nfts)));
        summary.push((String::from_str("total_plays"), u64_to_string(self.platform_stats.total_plays)));
        summary.push((String::from_str("total_volume"), u128_to_string(self.platform_stats.total_volume)));
        assert(text_pairs(summary@) =~= self@.summary());
        summary
    }
}

} // verus!
