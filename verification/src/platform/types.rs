//! The records of the platform contract and their mathematical views.

use crate::account::AccountId;
use crate::keyed::Keyed;
use crate::text::{clone_opt_string, clone_strings, opt_text, texts};
use vstd::prelude::*;
use vstd::string::*;

verus! {

/// What an automatic analysis found in a voice recording. Scores run from 1 to 100.
#[derive(Debug)]
pub struct AIAnalysis {
    pub transcription: String,
    /// `"positive"`, `"neutral"` or `"negative"`.
    pub sentiment: String,
    pub topics: Vec<String>,
    pub insights: Vec<String>,
    pub quality_score: u8,
    pub authenticity_score: u8,
}

/// The view of an [`AIAnalysis`].
pub struct AIAnalysisModel {
    pub transcription: Seq<char>,
    pub sentiment: Seq<char>,
    pub topics: Seq<Seq<char>>,
    pub insights: Seq<Seq<char>>,
    pub quality_score: u8,
    pub authenticity_score: u8,
}

impl View for AIAnalysis {
    type V = AIAnalysisModel;

    open spec fn view(&self) -> AIAnalysisModel {
        AIAnalysisModel {
            transcription: self.transcription@,
            sentiment: self.sentiment@,
            topics: texts(self.topics@),
            insights: texts(self.insights@),
            quality_score: self.quality_score,
            authenticity_score: self.authenticity_score,
        }
    }
}

impl Clone for AIAnalysis {
    fn clone(&self) -> (r: Self)
        ensures
            r@ == self@,
    {
        AIAnalysis {
            transcription: self.transcription.clone(),
            sentiment: self.sentiment.clone(),
            topics: clone_strings(&self.topics),
            insights: clone_strings(&self.insights),
            quality_score: self.quality_score,
            authenticity_score: self.authenticity_score,
        }
    }
}

/// Who may listen to a voice recording.
#[derive(Clone, Copy, Debug, PartialEq, Eq, Structural)]
pub enum AccessType {
    Public,
    TokenGated { min_tokens: u128 },
    DAOOnly,
}

/// What a voice token is and holds.
#[derive(Debug)]
pub struct VoiceNFTMetadata {
    pub title: String,
    pub description: String,
    pub creator: AccountId,
    pub category: String,
    /// In seconds.
    pub duration: u64,
    /// In bytes.
    pub file_size: u64,
    pub ipfs_hash: String,
    pub audio_ipfs_hash: String,
    pub tags: Vec<String>,
    pub ai_analysis: Option<AIAnalysis>,
    pub access_type: AccessType,
    pub created_at: u64,
}

/// The profile of a user.
#[derive(Debug)]
pub struct UserProfile {
    pub account_id: AccountId,
    pub display_name: Option<String>,
    pub bio: Option<String>,
    pub avatar_ipfs: Option<String>,
    pub total_voice_nfts: u64,
    pub total_earnings: u128,
    pub reputation_score: u32,
    pub verified: bool,
    pub joined_at: u64,
}

/// The view of a [`UserProfile`].
pub struct UserProfileModel {
    pub account_id: Seq<char>,
    pub display_name: Option<Seq<char>>,
    pub bio: Option<Seq<char>>,
    pub avatar_ipfs: Option<Seq<char>>,
    pub total_voice_nfts: u64,
    pub total_earnings: u128,
    pub reputation_score: u32,
    pub verified: bool,
    pub joined_at: u64,
}

impl View for UserProfile {
    type V = UserProfileModel;

    open spec fn view(&self) -> UserProfileModel {
        UserProfileModel {
            account_id: self.account_id@,
            display_name: opt_text(self.display_name),
            bio: opt_text(self.bio),
            avatar_ipfs: opt_text(self.avatar_ipfs),
            total_voice_nfts: self.total_voice_nfts,
            total_earnings: self.total_earnings,
            reputation_score: self.reputation_score,
            verified: self.verified,
            joined_at: self.joined_at,
        }
    }
}

impl Clone for UserProfile {
    fn clone(&self) -> (r: Self)
        ensures
            r@ == self@,
    {
        UserProfile {
            account_id: self.account_id.clone(),
            display_name: clone_opt_string(&self.display_name),
            bio: clone_opt_string(&self.bio),
            avatar_ipfs: clone_opt_string(&self.avatar_ipfs),
            total_voice_nfts: self.total_voice_nfts,
            total_earnings: self.total_earnings,
            reputation_score: self.reputation_score,
            verified: self.verified,
            joined_at: self.joined_at,
        }
    }
}

impl Keyed for UserProfile {
    open spec fn key_text(&self) -> Seq<char> {
        self.account_id@
    }

    fn key(&self) -> (k: &String) {
        &self.account_id
    }
}

/// The views of a list of profiles.
pub open spec fn profile_models(v: Seq<UserProfile>) -> Seq<UserProfileModel> {
    v.map_values(|p: UserProfile| p@)
}

/// A count under a name: the listeners of a country, the plays of a sentiment.
#[derive(Debug)]
pub struct NamedCount {
    pub name: String,
    pub count: u64,
}

impl Keyed for NamedCount {
    open spec fn key_text(&self) -> Seq<char> {
        self.name@
    }

    fn key(&self) -> (k: &String) {
        &self.name
    }
}

/// The view of a list of named counts: names and counts, in order.
pub open spec fn named_counts(v: Seq<NamedCount>) -> Seq<(Seq<char>, u64)> {
    v.map_values(|e: NamedCount| (e.name@, e.count))
}

/// A copy of a list of named counts.
pub fn clone_named_counts(v: &Vec<NamedCount>) -> (r: Vec<NamedCount>)
    ensures
        named_counts(r@) == named_counts(v@),
{
    let mut r: Vec<NamedCount> = Vec::new();
    let mut i: usize = 0;
    while i < v.len()
        invariant
            i <= v.len(),
            r.len() == i,
            forall|j: int| 0 <= j < i ==> r@[j].name@ == v@[j].name@ && r@[j].count == v@[j].count,
        decreases v.len() - i,
    {
        r.push(NamedCount { name: v[i].name.clone(), count: v[i].count });
        i += 1;
    }
    assert(named_counts(r@) =~= named_counts(v@));
    r
}

/// The play and earnings figures of a voice token.
#[derive(Debug)]
pub struct VoiceAnalytics {
    pub token_id: String,
    pub total_plays: u64,
    pub unique_listeners: u64,
    pub earnings: u128,
    /// Listeners by country.
    pub geographic_data: Vec<NamedCount>,
    /// Plays by sentiment.
    pub sentiment_breakdown: Vec<NamedCount>,
}

/// The view of a [`VoiceAnalytics`].
pub struct VoiceAnalyticsModel {
    pub token_id: Seq<char>,
    pub total_plays: u64,
    pub unique_listeners: u64,
    pub earnings: u128,
    pub geographic_data: Seq<(Seq<char>, u64)>,
    pub sentiment_breakdown: Seq<(Seq<char>, u64)>,
}

impl View for VoiceAnalytics {
    type V = VoiceAnalyticsModel;

    open spec fn view(&self) -> VoiceAnalyticsModel {
        VoiceAnalyticsModel {
            token_id: self.token_id@,
            total_plays: self.total_plays,
            unique_listeners: self.unique_listeners,
            earnings: self.earnings,
            geographic_data: named_counts(self.geographic_data@),
            sentiment_breakdown: named_counts(self.sentiment_breakdown@),
        }
    }
}

impl Clone for VoiceAnalytics {
    fn clone(&self) -> (r: Self)
        ensures
            r@ == self@,
    {
        VoiceAnalytics {
            token_id: self.token_id.clone(),
            total_plays: self.total_plays,
            unique_listeners: self.unique_listeners,
            earnings: self.earnings,
            geographic_data: clone_named_counts(&self.geographic_data),
            sentiment_breakdown: clone_named_counts(&self.sentiment_breakdown),
        }
    }
}

impl Keyed for VoiceAnalytics {
    open spec fn key_text(&self) -> Seq<char> {
        self.token_id@
    }

    fn key(&self) -> (k: &String) {
        &self.token_id
    }
}

/// The views of a list of figures.
pub open spec fn analytics_models(v: Seq<VoiceAnalytics>) -> Seq<VoiceAnalyticsModel> {
    v.map_values(|a: VoiceAnalytics| a@)
}

/// The accounts of the other contracts of the platform, as far as they are set.
#[derive(Debug)]
pub struct ContractAddresses {
    pub voice_token: Option<AccountId>,
    pub voice_nft: Option<AccountId>,
    pub marketplace: Option<AccountId>,
    pub dao: Option<AccountId>,
}

/// The view of a [`ContractAddresses`].
pub struct ContractAddressesModel {
    pub voice_token: Option<Seq<char>>,
    pub voice_nft: Option<Seq<char>>,
    pub marketplace: Option<Seq<char>>,
    pub dao: Option<Seq<char>>,
}

impl View for ContractAddresses {
    type V = ContractAddressesModel;

    open spec fn view(&self) -> ContractAddressesModel {
        ContractAddressesModel {
            voice_token: opt_text(self.voice_token),
            voice_nft: opt_text(self.voice_nft),
            marketplace: opt_text(self.marketplace),
            dao: opt_text(self.dao),
        }
    }
}

impl Clone for ContractAddresses {
    fn clone(&self) -> (r: Self)
        ensures
            r@ == self@,
    {
        ContractAddresses {
            voice_token: clone_opt_string(&self.voice_token),
            voice_nft: clone_opt_string(&self.voice_nft),
            marketplace: clone_opt_string(&self.marketplace),
            dao: clone_opt_string(&self.dao),
        }
    }
}

/// The counters of the platform.
#[derive(Clone, Copy, Debug, PartialEq, Eq, Structural)]
pub struct PlatformStats {
    pub total_voice_nfts: u64,
    pub total_users: u64,
    pub total_volume: u128,
    pub total_plays: u64,
    pub dao_members: u64,
    pub active_proposals: u64,
    pub last_updated: u64,
}

/// A question to put to another contract of the platform about an account.
/// Sending it is the caller's part.
#[derive(Debug)]
pub struct ContractQuery {
    /// The contract to ask.
    pub contract: AccountId,
    /// The method to call on it.
    pub method: String,
    /// The account that the question is about.
    pub account_id: AccountId,
}

/// Why a call on the platform contract failed.
#[derive(Clone, Copy, Debug, PartialEq, Eq, Structural)]
pub enum PlatformError {
    /// The caller is not the one who may.
    Unauthorized,
    /// The name is not that of a contract of the platform.
    InvalidContractType,
    ProfileNotFound,
    /// The contract to ask is not set.
    ContractNotSet,
    /// A counter or an amount would leave the range of its type.
    ArithmeticOverflow,
}

impl PlatformError {
    /// The short reason shown to the caller.
    pub open spec fn message_text(self) -> Seq<char> {
        match self {
            PlatformError::Unauthorized => "Not authorized"@,
            PlatformError::InvalidContractType => "Invalid contract type"@,
            PlatformError::ProfileNotFound => "User profile not found"@,
            PlatformError::ContractNotSet => "Contract not set"@,
            PlatformError::ArithmeticOverflow => "Arithmetic overflow"@,
        }
    }

    /// The short reason shown to the caller.
    pub fn message(self) -> (s: String)
        ensures
            s@ == self.message_text(),
    {
        let text: &str = match self {
            PlatformError::Unauthorized => "Not authorized",
            PlatformError::InvalidContractType => "Invalid contract type",
            PlatformError::ProfileNotFound => "User profile not found",
            PlatformError::ContractNotSet => "Contract not set",
            PlatformError::ArithmeticOverflow => "Arithmetic overflow",
        };
        String::from_str(text)
    }
}

} // verus!
