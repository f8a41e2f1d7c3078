//! The records of the contract, the contract as a mathematical value, what
//! holds of every such value, and what each call makes of it.

use crate::account::AccountId;
use crate::keyed::{
    lemma_position, lemma_position_in_range, lemma_push_fresh, lemma_swap_removed, position,
    swap_removed, Keyed,
};
use crate::platform::model::{count_names, count_of, counted};
use crate::platform::types::{clone_named_counts, named_counts, NamedCount};
use crate::text::{
    clone_opt_string, clone_strings, decimal_text, lemma_decimal_text_injective, opt_text, texts,
};
use crate::voice_nft::model::{
    clone_opt_strings, index_owners, opt_texts, royalty_shares, tokens_of, with_token, RoyaltyShare,
};
use vstd::prelude::*;
use vstd::string::*;

verus! {

/// The royalty that the creator of a token has from its mint, in basis points.
pub const CREATOR_ROYALTY: u32 = 1000;

/// What an automatic analysis found in a voice recording. Scores run from 1 to 100.
#[derive(Debug)]
pub struct AIAnalysis {
    pub transcription: String,
    pub language: String,
    pub sentiment: String,
    pub emotion: String,
    pub topics: Vec<String>,
    pub keywords: Vec<String>,
    pub quality_score: u8,
    pub authenticity_score: u8,
    pub content_rating: String,
    pub analysis_version: String,
    pub processed_at: u64,
}

/// The view of an [`AIAnalysis`].
pub struct AIAnalysisModel {
    pub transcription: Seq<char>,
    pub language: Seq<char>,
    pub sentiment: Seq<char>,
    pub emotion: Seq<char>,
    pub topics: Seq<Seq<char>>,
    pub keywords: Seq<Seq<char>>,
    pub quality_score: u8,
    pub authenticity_score: u8,
    pub content_rating: Seq<char>,
    pub analysis_version: Seq<char>,
    pub processed_at: u64,
}

impl View for AIAnalysis {
    type V = AIAnalysisModel;

    open spec fn view(&self) -> AIAnalysisModel {
        AIAnalysisModel {
            transcription: self.transcription@,
            language: self.language@,
            sentiment: self.sentiment@,
            emotion: self.emotion@,
            topics: texts(self.topics@),
            keywords: texts(self.keywords@),
            quality_score: self.quality_score,
            authenticity_score: self.authenticity_score,
            content_rating: self.content_rating@,
            analysis_version: self.analysis_version@,
            processed_at: self.processed_at,
        }
    }
}

impl Clone for AIAnalysis {
    fn clone(&self) -> (r: Self)
        ensures
            r@ == self@,
    {
        AIAnalysis {
            transcription: self.transcription.clone(),
            language: self.language.clone(),
            sentiment: self.sentiment.clone(),
            emotion: self.emotion.clone(),
            topics: clone_strings(&self.topics),
            keywords: clone_strings(&self.keywords),
            quality_score: self.quality_score,
            authenticity_score: self.authenticity_score,
            content_rating: self.content_rating.clone(),
            analysis_version: self.analysis_version.clone(),
            processed_at: self.processed_at,
        }
    }
}

/// The view of an optional analysis.
pub open spec fn opt_analysis(a: Option<AIAnalysis>) -> Option<AIAnalysisModel> {
    match a {
        Some(x) => Some(x@),
        None => None,
    }
}

/// Who may listen to a token: `access_type` is `"public"`, `"token_gated"` or
/// `"dao_only"`.
#[derive(Debug)]
pub struct AccessRequirements {
    pub access_type: String,
    pub min_tokens: Option<u128>,
    pub required_nfts: Option<Vec<String>>,
    pub whitelist: Option<Vec<AccountId>>,
    pub price: Option<u128>,
}

/// The view of an [`AccessRequirements`].
pub struct AccessRequirementsModel {
    pub access_type: Seq<char>,
    pub min_tokens: Option<u128>,
    pub required_nfts: Option<Seq<Seq<char>>>,
    pub whitelist: Option<Seq<Seq<char>>>,
    pub price: Option<u128>,
}

impl View for AccessRequirements {
    type V = AccessRequirementsModel;

    open spec fn view(&self) -> AccessRequirementsModel {
        AccessRequirementsModel {
            access_type: self.access_type@,
            min_tokens: self.min_tokens,
            required_nfts: opt_texts(self.required_nfts),
            whitelist: opt_texts(self.whitelist),
            price: self.price,
        }
    }
}

impl Clone for AccessRequirements {
    fn clone(&self) -> (r: Self)
        ensures
            r@ == self@,
    {
        AccessRequirements {
            access_type: self.access_type.clone(),
            min_tokens: self.min_tokens,
            required_nfts: clone_opt_strings(&self.required_nfts),
            whitelist: clone_opt_strings(&self.whitelist),
            price: self.price,
        }
    }
}

/// What a token is and holds. The media is the address of the voice file; the
/// duration is in seconds, the size in bytes.
#[derive(Debug)]
pub struct VoiceNFTMetadata {
    pub title: String,
    pub description: String,
    pub media: String,
    pub media_hash: Option<String>,
    pub copies: Option<u64>,
    pub issued_at: Option<String>,
    pub expires_at: Option<String>,
    pub starts_at: Option<String>,
    pub updated_at: Option<String>,
    pub extra: Option<String>,
    pub reference: Option<String>,
    pub reference_hash: Option<String>,
    pub duration: u64,
    pub file_size: u64,
    pub audio_format: String,
    pub sample_rate: u32,
    pub bit_rate: u32,
    pub creator: AccountId,
    pub category: String,
    pub tags: Vec<String>,
    pub ai_analysis: Option<AIAnalysis>,
    pub access_requirements: AccessRequirements,
    pub created_at: u64,
    pub play_count: u64,
    pub like_count: u64,
}

/// The view of a [`VoiceNFTMetadata`].
pub struct VoiceNFTMetadataModel {
    pub title: Seq<char>,
    pub description: Seq<char>,
    pub media: Seq<char>,
    pub media_hash: Option<Seq<char>>,
    pub copies: Option<u64>,
    pub issued_at: Option<Seq<char>>,
    pub expires_at: Option<Seq<char>>,
    pub starts_at: Option<Seq<char>>,
    pub updated_at: Option<Seq<char>>,
    pub extra: Option<Seq<char>>,
    pub reference: Option<Seq<char>>,
    pub reference_hash: Option<Seq<char>>,
    pub duration: u64,
    pub file_size: u64,
    pub audio_format: Seq<char>,
    pub sample_rate: u32,
    pub bit_rate: u32,
    pub creator: Seq<char>,
    pub category: Seq<char>,
    pub tags: Seq<Seq<char>>,
    pub ai_analysis: Option<AIAnalysisModel>,
    pub access_requirements: AccessRequirementsModel,
    pub created_at: u64,
    pub play_count: u64,
    pub like_count: u64,
}

impl View for VoiceNFTMetadata {
    type V = VoiceNFTMetadataModel;

    open spec fn view(&self) -> VoiceNFTMetadataModel {
        VoiceNFTMetadataModel {
            title: self.title@,
            description: self.description@,
            media: self.media@,
            media_hash: opt_text(self.media_hash),
            copies: self.copies,
            issued_at: opt_text(self.issued_at),
            expires_at: opt_text(self.expires_at),
            starts_at: opt_text(self.starts_at),
            updated_at: opt_text(self.updated_at),
            extra: opt_text(self.extra),
            reference: opt_text(self.reference),
            reference_hash: opt_text(self.reference_hash),
            duration: self.duration,
            file_size: self.file_size,
            audio_format: self.audio_format@,
            sample_rate: self.sample_rate,
            bit_rate: self.bit_rate,
            creator: self.creator@,
            category: self.category@,
            tags: texts(self.tags@),
            ai_analysis: opt_analysis(self.ai_analysis),
            access_requirements: self.access_requirements@,
            created_at: self.created_at,
            play_count: self.play_count,
            like_count: self.like_count,
        }
    }
}

impl Clone for VoiceNFTMetadata {
    fn clone(&self) -> (r: Self)
        ensures
            r@ == self@,
    {
        VoiceNFTMetadata {
            title: self.title.clone(),
            description: self.description.clone(),
            media: self.media.clone(),
            media_hash: clone_opt_string(&self.media_hash),
            copies: self.copies,
            issued_at: clone_opt_string(&self.issued_at),
            expires_at: clone_opt_string(&self.expires_at),
            starts_at: clone_opt_string(&self.starts_at),
            updated_at: clone_opt_string(&self.updated_at),
            extra: clone_opt_string(&self.extra),
            reference: clone_opt_string(&self.reference),
            reference_hash: clone_opt_string(&self.reference_hash),
            duration: self.duration,
            file_size: self.file_size,
            audio_format: self.audio_format.clone(),
            sample_rate: self.sample_rate,
            bit_rate: self.bit_rate,
            creator: self.creator.clone(),
            category: self.category.clone(),
            tags: clone_strings(&self.tags),
            ai_analysis: match &self.ai_analysis {
                Some(a) => Some(a.clone()),
                None => None,
            },
            access_requirements: self.access_requirements.clone(),
            created_at: self.created_at,
            play_count: self.play_count,
            like_count: self.like_count,
        }
    }
}

/// The views of a list of metadata.
pub open spec fn metadata_models(v: Seq<VoiceNFTMetadata>) -> Seq<VoiceNFTMetadataModel> {
    v.map_values(|m: VoiceNFTMetadata| m@)
}

/// What is known of the plays of a token. Durations are in seconds.
#[derive(Debug)]
pub struct VoiceAnalytics {
    pub total_plays: u64,
    pub unique_listeners: u64,
    pub total_earnings: u128,
    pub geographic_distribution: Vec<NamedCount>,
    pub device_types: Vec<NamedCount>,
    pub listening_duration: Vec<u64>,
    pub peak_listening_times: Vec<u64>,
    /// Ratings of one to five stars.
    pub user_ratings: Vec<u8>,
    pub comments_count: u64,
    pub shares_count: u64,
    pub bookmarks_count: u64,
}

/// The view of a [`VoiceAnalytics`].
pub struct VoiceAnalyticsModel {
    pub total_plays: u64,
    pub unique_listeners: u64,
    pub total_earnings: u128,
    pub geographic_distribution: Seq<(Seq<char>, u64)>,
    pub device_types: Seq<(Seq<char>, u64)>,
    pub listening_duration: Seq<u64>,
    pub peak_listening_times: Seq<u64>,
    pub user_ratings: Seq<u8>,
    pub comments_count: u64,
    pub shares_count: u64,
    pub bookmarks_count: u64,
}

impl View for VoiceAnalytics {
    type V = VoiceAnalyticsModel;

    open spec fn view(&self) -> VoiceAnalyticsModel {
        VoiceAnalyticsModel {
            total_plays: self.total_plays,
            unique_listeners: self.unique_listeners,
            total_earnings: self.total_earnings,
            geographic_distribution: named_counts(self.geographic_distribution@),
            device_types: named_counts(self.device_types@),
            listening_duration: self.listening_duration@,
            peak_listening_times: self.peak_listening_times@,
            user_ratings: self.user_ratings@,
            comments_count: self.comments_count,
            shares_count: self.shares_count,
            bookmarks_count: self.bookmarks_count,
        }
    }
}

/// A copy of a list of numbers.
pub fn clone_numbers<T: Copy>(v: &Vec<T>) -> (r: Vec<T>)
    ensures
        r@ == v@,
{
    let mut r: Vec<T> = Vec::new();
    let mut i: usize = 0;
    while i < v.len()
        invariant
            i <= v.len(),
            r@ == v@.subrange(0, i as int),
        decreases v.len() - i,
    {
        r.push(v[i]);
        assert(r@ =~= v@.subrange(0, i + 1));
        i += 1;
    }
    assert(v@.subrange(0, i as int) =~= v@);
    r
}

impl Clone for VoiceAnalytics {
    fn clone(&self) -> (r: Self)
        ensures
            r@ == self@,
    {
        VoiceAnalytics {
            total_plays: self.total_plays,
            unique_listeners: self.unique_listeners,
            total_earnings: self.total_earnings,
            geographic_distribution: clone_named_counts(&self.geographic_distribution),
            device_types: clone_named_counts(&self.device_types),
            listening_duration: clone_numbers(&self.listening_duration),
            peak_listening_times: clone_numbers(&self.peak_listening_times),
            user_ratings: clone_numbers(&self.user_ratings),
            comments_count: self.comments_count,
            shares_count: self.shares_count,
            bookmarks_count: self.bookmarks_count,
        }
    }
}

/// A share of a royalty, in basis points: 100 is one percent.
#[derive(Debug)]
pub struct Royalty {
    pub account_id: AccountId,
    pub value: u32,
}

/// The notification that tokens were minted.
#[derive(Debug)]
pub struct VoiceNFTMintEvent {
    pub owner_id: AccountId,
    pub token_ids: Vec<String>,
    pub memo: Option<String>,
}

/// The notification that tokens changed their owner.
#[derive(Debug)]
pub struct VoiceNFTTransferEvent {
    pub old_owner_id: AccountId,
    pub new_owner_id: AccountId,
    pub token_ids: Vec<String>,
    pub authorized_id: Option<AccountId>,
    pub memo: Option<String>,
}

/// All that the contract keeps of one token.
#[derive(Debug)]
pub struct TokenRecord {
    pub token_id: String,
    pub metadata: VoiceNFTMetadata,
    pub owner_id: AccountId,
    pub next_approval_id: u64,
    pub royalties: Vec<RoyaltyShare>,
    pub analytics: VoiceAnalytics,
}

/// The view of a [`TokenRecord`].
pub struct TokenRecordModel {
    pub token_id: Seq<char>,
    pub metadata: VoiceNFTMetadataModel,
    pub owner_id: Seq<char>,
    pub next_approval_id: u64,
    pub royalties: Seq<(Seq<char>, u32)>,
    pub analytics: VoiceAnalyticsModel,
}

impl View for TokenRecord {
    type V = TokenRecordModel;

    open spec fn view(&self) -> TokenRecordModel {
        TokenRecordModel {
            token_id: self.token_id@,
            metadata: self.metadata@,
            owner_id: self.owner_id@,
            next_approval_id: self.next_approval_id,
            royalties: royalty_shares(self.royalties@),
            analytics: self.analytics@,
        }
    }
}

impl Keyed for TokenRecord {
    open spec fn key_text(&self) -> Seq<char> {
        self.token_id@
    }

    fn key(&self) -> (k: &String) {
        &self.token_id
    }
}

/// The views of a list of token records.
pub open spec fn record_models(v: Seq<TokenRecord>) -> Seq<TokenRecordModel> {
    v.map_values(|t: TokenRecord| t@)
}

/// Why a call on the contract failed.
#[derive(Clone, Copy, Debug, PartialEq, Eq, Structural)]
pub enum NftError {
    MintingDisabled,
    /// The caller is no approved minter and the deposit is less than the price.
    NotAuthorizedMinter,
    /// The caller is not the one who may.
    Unauthorized,
    TokenNotFound,
    /// The sender is not the owner of the token.
    NotTokenOwner,
    CannotTransferToSelf,
    /// A number or a count would leave the range of its type.
    ArithmeticOverflow,
}

impl NftError {
    /// The short reason shown to the caller.
    pub open spec fn message_text(self) -> Seq<char> {
        match self {
            NftError::MintingDisabled => "Minting is disabled"@,
            NftError::NotAuthorizedMinter => "Insufficient deposit or not authorized minter"@,
            NftError::Unauthorized => "Not authorized"@,
            NftError::TokenNotFound => "Token not found"@,
            NftError::NotTokenOwner => "Sender must be token owner"@,
            NftError::CannotTransferToSelf => "Cannot transfer to self"@,
            NftError::ArithmeticOverflow => "Arithmetic overflow"@,
        }
    }

    /// The short reason shown to the caller.
    pub fn message(self) -> (s: String)
        ensures
            s@ == self.message_text(),
    {
        let text: &str = match self {
            NftError::MintingDisabled => "Minting is disabled",
            NftError::NotAuthorizedMinter => "Insufficient deposit or not authorized minter",
            NftError::Unauthorized => "Not authorized",
            NftError::TokenNotFound => "Token not found",
            NftError::NotTokenOwner => "Sender must be token owner",
            NftError::CannotTransferToSelf => "Cannot transfer to self",
            NftError::ArithmeticOverflow => "Arithmetic overflow",
        };
        String::from_str(text)
    }
}

/// The identifiers of a list of token records.
pub open spec fn record_ids(s: Seq<TokenRecordModel>) -> Seq<Seq<char>> {
    s.map_values(|t: TokenRecordModel| t.token_id)
}

/// The metadata of a list of token records.
pub open spec fn record_metadata(s: Seq<TokenRecordModel>) -> Seq<VoiceNFTMetadataModel> {
    s.map_values(|t: TokenRecordModel| t.metadata)
}

/// No owner is in the index twice, and no owner has a token twice.
pub open spec fn index_distinct(s: Seq<(Seq<char>, Seq<Seq<char>>)>) -> bool {
    &&& index_owners(s).no_duplicates()
    &&& forall|i: int| 0 <= i < s.len() ==> (#[trigger] s[i]).1.no_duplicates()
}

/// The index without `id` among the tokens of `owner`: the last token of the
/// owner takes its place. The owner stays in the index, with no token if need be.
pub open spec fn taken(s: Seq<(Seq<char>, Seq<Seq<char>>)>, owner: Seq<char>, id: Seq<char>) -> Seq<
    (Seq<char>, Seq<Seq<char>>),
> {
    if index_owners(s).contains(owner) {
        let at = position(index_owners(s), owner);
        let ids = s[at].1;
        if ids.contains(id) {
            s.update(at, (owner, swap_removed(ids, position(ids, id))))
        } else {
            s
        }
    } else {
        s
    }
}

/// The figures of a token without plays.
pub open spec fn fresh_analytics() -> VoiceAnalyticsModel {
    VoiceAnalyticsModel {
        total_plays: 0,
        unique_listeners: 0,
        total_earnings: 0,
        geographic_distribution: Seq::empty(),
        device_types: Seq::empty(),
        listening_duration: Seq::empty(),
        peak_listening_times: Seq::empty(),
        user_ratings: Seq::empty(),
        comments_count: 0,
        shares_count: 0,
        bookmarks_count: 0,
    }
}

/// The contract as a mathematical value.
#[verifier::ext_equal]
pub struct NftState {
    /// The tokens by number: the token at place `i` has the identifier `i + 1`,
    /// in decimal.
    pub tokens: Seq<TokenRecordModel>,
    pub tokens_per_owner: Seq<(Seq<char>, Seq<Seq<char>>)>,
    pub owner_id: Seq<char>,
    pub extra_storage_in_bytes_per_token: u64,
    pub next_token_id: u64,
    pub contract_metadata: Seq<(Seq<char>, Seq<char>)>,
    pub approved_minters: Seq<Seq<char>>,
    pub mint_price: u128,
    pub is_minting_enabled: bool,
}

impl NftState {
    /// The contract is well formed: the tokens are numbered from 1 in order, and
    /// the next number is one more than their number; the index holds for each
    /// owner the tokens that it owns, each once; no minter is approved twice;
    /// and no place is counted twice for a token.
    pub open spec fn wf(self) -> bool {
        &&& self.next_token_id == self.tokens.len() + 1
        &&& forall|i: int|
            0 <= i < self.tokens.len() ==> (#[trigger] self.tokens[i]).token_id == decimal_text((i + 1) as nat)
        &&& index_distinct(self.tokens_per_owner)
        &&& forall|owner: Seq<char>, id: Seq<char>| #[trigger]
            tokens_of(self.tokens_per_owner, owner).contains(id) <==> self.has_token(id) && self.token(
                id,
            ).owner_id == owner
        &&& self.approved_minters.no_duplicates()
        &&& forall|i: int|
            0 <= i < self.tokens.len() ==> count_names(
                (#[trigger] self.tokens[i]).analytics.geographic_distribution,
            ).no_duplicates()
    }

    /// There is a token with the identifier `id`.
    pub open spec fn has_token(self, id: Seq<char>) -> bool {
        record_ids(self.tokens).contains(id)
    }

    /// The token with the identifier `id`.
    pub open spec fn token(self, id: Seq<char>) -> TokenRecordModel {
        self.tokens[position(record_ids(self.tokens), id)]
    }

    /// The contract with the token `id` replaced by `t`.
    pub open spec fn with_record(self, id: Seq<char>, t: TokenRecordModel) -> NftState {
        NftState { tokens: self.tokens.update(position(record_ids(self.tokens), id), t), ..self }
    }

    /// A new contract: the owner is the one approved minter, and minting is enabled.
    pub open spec fn initial(owner_id: Seq<char>, mint_price: u128) -> NftState {
        NftState {
            tokens: Seq::empty(),
            tokens_per_owner: Seq::empty(),
            owner_id,
            extra_storage_in_bytes_per_token: 0,
            next_token_id: 1,
            contract_metadata: Seq::empty(),
            approved_minters: seq![owner_id],
            mint_price,
            is_minting_enabled: true,
        }
    }

    /// Why `nft_mint` fails, if it does.
    pub open spec fn mint_error(self, caller: Seq<char>, deposit: u128) -> Option<NftError> {
        if !self.is_minting_enabled {
            Some(NftError::MintingDisabled)
        } else if !(self.approved_minters.contains(caller) || deposit >= self.mint_price) {
            Some(NftError::NotAuthorizedMinter)
        } else if self.next_token_id == u64::MAX {
            Some(NftError::ArithmeticOverflow)
        } else {
            None
        }
    }

    /// The token that `nft_mint` makes: numbered with the next number, created
    /// at `now` with no plays and no likes, and a royalty of 10% for its creator.
    pub open spec fn minted(self, receiver: Seq<char>, metadata: VoiceNFTMetadataModel, now: u64) -> TokenRecordModel {
        TokenRecordModel {
            token_id: decimal_text(self.next_token_id as nat),
            metadata: VoiceNFTMetadataModel { created_at: now, play_count: 0, like_count: 0, ..metadata },
            owner_id: receiver,
            next_approval_id: 1,
            royalties: seq![(metadata.creator, CREATOR_ROYALTY)],
            analytics: fresh_analytics(),
        }
    }

    /// The contract after `nft_mint`.
    pub open spec fn mint_next(self, t: TokenRecordModel) -> NftState {
        NftState {
            tokens: self.tokens.push(t),
            tokens_per_owner: with_token(self.tokens_per_owner, t.owner_id, t.token_id),
            next_token_id: (self.next_token_id + 1) as u64,
            ..self
        }
    }

    /// Why a transfer of the token `id` from `sender` to `receiver` fails, if it does.
    pub open spec fn transfer_error(self, sender: Seq<char>, receiver: Seq<char>, id: Seq<char>) -> Option<
        NftError,
    > {
        if !self.has_token(id) {
            Some(NftError::TokenNotFound)
        } else if self.token(id).owner_id != sender {
            Some(NftError::NotTokenOwner)
        } else if sender == receiver {
            Some(NftError::CannotTransferToSelf)
        } else {
            None
        }
    }

    /// The contract after a transfer: the token is the receiver's, and the index
    /// has it for the receiver and no more for the sender.
    pub open spec fn transfer_next(self, sender: Seq<char>, receiver: Seq<char>, id: Seq<char>) -> NftState {
        NftState {
            tokens_per_owner: with_token(taken(self.tokens_per_owner, sender, id), receiver, id),
            ..self.with_record(id, TokenRecordModel { owner_id: receiver, ..self.token(id) })
        }
    }

    /// Why `record_play` fails, if it does.
    pub open spec fn play_error(self, caller: Seq<char>, id: Seq<char>, location: Option<Seq<char>>) -> Option<
        NftError,
    > {
        if caller != self.owner_id {
            Some(NftError::Unauthorized)
        } else if !self.has_token(id) {
            Some(NftError::TokenNotFound)
        } else if self.token(id).analytics.total_plays == u64::MAX || (location is Some && count_of(
            self.token(id).analytics.geographic_distribution,
            location->0,
        ) == u64::MAX) || self.token(id).metadata.play_count == u64::MAX {
            Some(NftError::ArithmeticOverflow)
        } else {
            None
        }
    }

    /// The token after one more play of `duration` at `now`, from `location`
    /// where given.
    pub open spec fn played(t: TokenRecordModel, duration: u64, location: Option<Seq<char>>, now: u64) -> TokenRecordModel {
        TokenRecordModel {
            analytics: VoiceAnalyticsModel {
                total_plays: (t.analytics.total_plays + 1) as u64,
                listening_duration: t.analytics.listening_duration.push(duration),
                peak_listening_times: t.analytics.peak_listening_times.push(now),
                geographic_distribution: match location {
                    Some(place) => counted(t.analytics.geographic_distribution, place),
                    None => t.analytics.geographic_distribution,
                },
                ..t.analytics
            },
            metadata: VoiceNFTMetadataModel {
                play_count: (t.metadata.play_count + 1) as u64,
                ..t.metadata
            },
            ..t
        }
    }

    /// The token with one more like.
    pub open spec fn liked(t: TokenRecordModel) -> TokenRecordModel {
        TokenRecordModel {
            metadata: VoiceNFTMetadataModel {
                like_count: (t.metadata.like_count + 1) as u64,
                ..t.metadata
            },
            ..t
        }
    }

    /// The contract with `minter` among the approved minters.
    pub open spec fn with_minter(self, minter: Seq<char>) -> NftState {
        if self.approved_minters.contains(minter) {
            self
        } else {
            NftState { approved_minters: self.approved_minters.push(minter), ..self }
        }
    }

    /// The contract without `minter` among the approved minters: the last takes
    /// its place.
    pub open spec fn without_minter(self, minter: Seq<char>) -> NftState {
        if self.approved_minters.contains(minter) {
            NftState {
                approved_minters: swap_removed(
                    self.approved_minters,
                    position(self.approved_minters, minter),
                ),
                ..self
            }
        } else {
            self
        }
    }
}

/// What one more token for an owner does to an index in which owners may have
/// no token.
pub proof fn lemma_with_token_distinct(s: Seq<(Seq<char>, Seq<Seq<char>>)>, owner: Seq<char>, id: Seq<char>)
    requires
        index_distinct(s),
    ensures
        index_distinct(with_token(s, owner, id)),
        forall|x: Seq<char>| #[trigger]
            tokens_of(with_token(s, owner, id), owner).contains(x) <==> tokens_of(s, owner).contains(x) || x
                == id,
        forall|other: Seq<char>| other != owner ==> tokens_of(with_token(s, owner, id), other) == tokens_of(s, other),
{
    let t = with_token(s, owner, id);
    let h = index_owners(s);
    if h.contains(owner) {
        lemma_position_in_range(h, owner);
        let at = position(h, owner);
        let ids = s[at].1;
        assert(index_owners(t) =~= h);
        if !ids.contains(id) {
            lemma_push_fresh(ids, id);
            let grown = ids.push(id);
            assert(grown[ids.len() as int] == id);
            assert forall|i: int| 0 <= i < t.len() implies (#[trigger] t[i]).1.no_duplicates() by {
                if i != at {
                    assert(t[i] == s[i]);
                }
            }
            assert forall|x: Seq<char>| #[trigger]
                tokens_of(t, owner).contains(x) <==> tokens_of(s, owner).contains(x) || x == id by {
                if ids.contains(x) {
                    let j = choose|j: int| 0 <= j < ids.len() && ids[j] == x;
                    assert(grown[j] == x);
                }
                if grown.contains(x) {
                    let j = choose|j: int| 0 <= j < grown.len() && grown[j] == x;
                    if j < ids.len() {
                        assert(ids[j] == x);
                    }
                }
            }
        }
        assert forall|other: Seq<char>| other != owner implies tokens_of(t, other) == tokens_of(s, other) by {
            if h.contains(other) {
                lemma_position_in_range(h, other);
                assert(position(h, other) != at);
            }
        }
    } else {
        lemma_push_fresh(h, owner);
        assert(index_owners(t) =~= h.push(owner));
        assert(index_owners(t)[s.len() as int] == owner);
        lemma_position(index_owners(t), owner, s.len() as int);
        let one = seq![id];
        assert(one[0] == id);
        assert forall|i: int| 0 <= i < t.len() implies (#[trigger] t[i]).1.no_duplicates() by {
            if i < s.len() {
                assert(t[i] == s[i]);
            }
        }
        assert forall|x: Seq<char>| #[trigger]
            tokens_of(t, owner).contains(x) <==> tokens_of(s, owner).contains(x) || x == id by {
            if one.contains(x) {
                let j = choose|j: int| 0 <= j < one.len() && one[j] == x;
            }
        }
        assert forall|other: Seq<char>| other != owner implies tokens_of(t, other) == tokens_of(s, other) by {
            if h.contains(other) {
                lemma_position_in_range(h, other);
                let j = position(h, other);
                assert(index_owners(t)[j] == other);
                lemma_position(index_owners(t), other, j);
            } else if index_owners(t).contains(other) {
                lemma_position_in_range(index_owners(t), other);
                let j = position(index_owners(t), other);
                assert(h[j] == other);
            }
        }
    }
}

/// What one token less for an owner does to the index.
pub proof fn lemma_taken(s: Seq<(Seq<char>, Seq<Seq<char>>)>, owner: Seq<char>, id: Seq<char>)
    requires
        index_distinct(s),
    ensures
        index_distinct(taken(s, owner, id)),
        forall|x: Seq<char>| #[trigger]
            tokens_of(taken(s, owner, id), owner).contains(x) <==> tokens_of(s, owner).contains(x) && x != id,
        forall|other: Seq<char>| other != owner ==> tokens_of(taken(s, owner, id), other) == tokens_of(s, other),
{
    let t = taken(s, owner, id);
    let h = index_owners(s);
    if h.contains(owner) {
        lemma_position_in_range(h, owner);
        let at = position(h, owner);
        let ids = s[at].1;
        if ids.contains(id) {
            lemma_position_in_range(ids, id);
            lemma_swap_removed(ids, position(ids, id));
            assert(index_owners(t) =~= h);
            assert forall|i: int| 0 <= i < t.len() implies (#[trigger] t[i]).1.no_duplicates() by {
                if i != at {
                    assert(t[i] == s[i]);
                }
            }
            assert forall|other: Seq<char>| other != owner implies tokens_of(t, other) == tokens_of(
                s,
                other,
            ) by {
                if h.contains(other) {
                    lemma_position_in_range(h, other);
                    assert(position(h, other) != at);
                }
            }
        }
    }
}

/// Tokens with different numbers have different identifiers.
pub proof fn lemma_record_ids_distinct(s: NftState)
    requires
        s.wf(),
    ensures
        record_ids(s.tokens).no_duplicates(),
{
    let ids = record_ids(s.tokens);
    assert forall|i: int, j: int| 0 <= i < ids.len() && 0 <= j < ids.len() && i != j implies ids[i]
        != ids[j] by {
        assert(ids[i] == s.tokens[i].token_id);
        assert(ids[j] == s.tokens[j].token_id);
        if ids[i] == ids[j] {
            lemma_decimal_text_injective((i + 1) as nat, (j + 1) as nat);
        }
    }
}

/// A new contract is well formed.
pub proof fn lemma_initial_wf(owner_id: Seq<char>, mint_price: u128)
    ensures
        NftState::initial(owner_id, mint_price).wf(),
{
    let s = NftState::initial(owner_id, mint_price);
    assert(record_ids(s.tokens) =~= Seq::<Seq<char>>::empty());
    assert(index_owners(s.tokens_per_owner) =~= Seq::<Seq<char>>::empty());
}

/// A new token keeps the contract well formed.
pub proof fn lemma_mint_wf(s: NftState, t: TokenRecordModel)
    requires
        s.wf(),
        s.next_token_id < u64::MAX,
        t.token_id == decimal_text(s.next_token_id as nat),
        count_names(t.analytics.geographic_distribution).no_duplicates(),
    ensures
        s.mint_next(t).wf(),
        !s.has_token(t.token_id),
{
    let n = s.mint_next(t);
    let ids = record_ids(s.tokens);
    lemma_record_ids_distinct(s);
    assert(!ids.contains(t.token_id)) by {
        if ids.contains(t.token_id) {
            let j = choose|j: int| 0 <= j < ids.len() && ids[j] == t.token_id;
            assert(s.tokens[j].token_id == decimal_text((j + 1) as nat));
            lemma_decimal_text_injective((j + 1) as nat, s.next_token_id as nat);
        }
    }
    lemma_push_fresh(ids, t.token_id);
    assert(record_ids(n.tokens) =~= ids.push(t.token_id));
    assert(record_ids(n.tokens)[ids.len() as int] == t.token_id);
    lemma_position(record_ids(n.tokens), t.token_id, ids.len() as int);
    lemma_with_token_distinct(s.tokens_per_owner, t.owner_id, t.token_id);
    assert forall|i: int| 0 <= i < n.tokens.len() implies (#[trigger] n.tokens[i]).token_id == decimal_text(
        (i + 1) as nat,
    ) && count_names(n.tokens[i].analytics.geographic_distribution).no_duplicates() by {
        if i < s.tokens.len() {
            assert(n.tokens[i] == s.tokens[i]);
        }
    }
    assert forall|owner: Seq<char>, id: Seq<char>| #[trigger]
        tokens_of(n.tokens_per_owner, owner).contains(id) <==> n.has_token(id) && n.token(id).owner_id
            == owner by {
        assert(tokens_of(s.tokens_per_owner, owner).contains(id) <==> s.has_token(id) && s.token(id).owner_id
            == owner);
        if id != t.token_id {
            if s.has_token(id) {
                lemma_position_in_range(ids, id);
                let j = position(ids, id);
                assert(record_ids(n.tokens)[j] == id);
                lemma_position(record_ids(n.tokens), id, j);
            }
            if n.has_token(id) {
                lemma_position_in_range(record_ids(n.tokens), id);
                let j = position(record_ids(n.tokens), id);
                assert(ids[j] == id);
            }
        }
    }
}

/// A token replaced by one of the same identifier, owner and places keeps the
/// contract well formed.
pub proof fn lemma_with_record_wf(s: NftState, id: Seq<char>, t: TokenRecordModel)
    requires
        s.wf(),
        s.has_token(id),
        t.token_id == id,
        t.owner_id == s.token(id).owner_id,
        count_names(t.analytics.geographic_distribution).no_duplicates(),
    ensures
        s.with_record(id, t).wf(),
        s.with_record(id, t).has_token(id),
        s.with_record(id, t).token(id) == t,
{
    let n = s.with_record(id, t);
    let ids = record_ids(s.tokens);
    lemma_record_ids_distinct(s);
    lemma_position_in_range(ids, id);
    let at = position(ids, id);
    assert(record_ids(n.tokens) =~= ids);
    assert forall|i: int| 0 <= i < n.tokens.len() implies (#[trigger] n.tokens[i]).token_id == decimal_text(
        (i + 1) as nat,
    ) && count_names(n.tokens[i].analytics.geographic_distribution).no_duplicates() by {
        if i != at {
            assert(n.tokens[i] == s.tokens[i]);
        } else {
            assert(s.tokens[i].token_id == decimal_text((i + 1) as nat));
        }
    }
    assert forall|owner: Seq<char>, x: Seq<char>| #[trigger]
        tokens_of(n.tokens_per_owner, owner).contains(x) <==> n.has_token(x) && n.token(x).owner_id
            == owner by {
        assert(tokens_of(s.tokens_per_owner, owner).contains(x) <==> s.has_token(x) && s.token(x).owner_id
            == owner);
        if s.has_token(x) && x != id {
            lemma_position_in_range(ids, x);
            assert(position(ids, x) != at);
        }
    }
}

/// A transfer keeps the contract well formed.
pub proof fn lemma_transfer_wf(s: NftState, sender: Seq<char>, receiver: Seq<char>, id: Seq<char>)
    requires
        s.wf(),
        s.transfer_error(sender, receiver, id) is None,
    ensures
        s.transfer_next(sender, receiver, id).wf(),
        s.transfer_next(sender, receiver, id).has_token(id),
        s.transfer_next(sender, receiver, id).token(id).owner_id == receiver,
{
    let n = s.transfer_next(sender, receiver, id);
    let ids = record_ids(s.tokens);
    lemma_record_ids_distinct(s);
    lemma_position_in_range(ids, id);
    let at = position(ids, id);
    assert(record_ids(n.tokens) =~= ids);
    let mid = taken(s.tokens_per_owner, sender, id);
    lemma_taken(s.tokens_per_owner, sender, id);
    lemma_with_token_distinct(mid, receiver, id);
    assert forall|i: int| 0 <= i < n.tokens.len() implies (#[trigger] n.tokens[i]).token_id == decimal_text(
        (i + 1) as nat,
    ) && count_names(n.tokens[i].analytics.geographic_distribution).no_duplicates() by {
        if i != at {
            assert(n.tokens[i] == s.tokens[i]);
        } else {
            assert(s.tokens[i].token_id == decimal_text((i + 1) as nat));
        }
    }
    assert forall|owner: Seq<char>, x: Seq<char>| #[trigger]
        tokens_of(n.tokens_per_owner, owner).contains(x) <==> n.has_token(x) && n.token(x).owner_id
            == owner by {
        assert(tokens_of(s.tokens_per_owner, owner).contains(x) <==> s.has_token(x) && s.token(x).owner_id
            == owner);
        assert(tokens_of(mid, sender).contains(x) <==> tokens_of(s.tokens_per_owner, sender).contains(x) && x
            != id);
        assert(tokens_of(n.tokens_per_owner, receiver).contains(x) <==> tokens_of(mid, receiver).contains(x)
            || x == id);
        if s.has_token(x) && x != id {
            lemma_position_in_range(ids, x);
            assert(position(ids, x) != at);
        }
    }
}

} // verus!
