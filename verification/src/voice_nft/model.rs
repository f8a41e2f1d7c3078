//! The records of the voice token contract, their textual forms for callers,
//! the contract as a mathematical value, what holds of every such value, and
//! what each call makes of it.

use crate::account::{valid_account_id, AccountId};
use crate::keyed::{
    lemma_position, lemma_position_in_range, lemma_push_fresh, lemma_swap_removed, position,
    swap_removed, Keyed,
};
use crate::text::{clone_opt_string, clone_strings, decimal_text, opt_text, texts};
use vstd::prelude::*;
use vstd::string::*;

verus! {

/// The texts of an optional list of strings.
pub open spec fn opt_texts(v: Option<Vec<String>>) -> Option<Seq<Seq<char>>> {
    match v {
        Some(list) => Some(texts(list@)),
        None => None,
    }
}

/// A copy of an optional list of strings.
pub fn clone_opt_strings(v: &Option<Vec<String>>) -> (r: Option<Vec<String>>)
    ensures
        opt_texts(r) == opt_texts(*v),
{
    match v {
        Some(list) => Some(clone_strings(list)),
        None => None,
    }
}

/// The view of the metadata of a token, in either form.
pub struct MetadataModel {
    pub title: Seq<char>,
    pub description: Option<Seq<char>>,
    pub media: Option<Seq<char>>,
    pub media_hash: Option<Seq<char>>,
    pub copies: Option<u64>,
    pub issued_at: Option<Seq<char>>,
    pub expires_at: Option<Seq<char>>,
    pub starts_at: Option<Seq<char>>,
    pub updated_at: Option<Seq<char>>,
    pub extra: Option<Seq<char>>,
    pub reference: Option<Seq<char>>,
    pub reference_hash: Option<Seq<char>>,
    pub duration: Option<u64>,
    pub voice_type: Option<Seq<char>>,
    pub language: Option<Seq<char>>,
    pub tags: Option<Seq<Seq<char>>>,
}

/// What a token is and holds, as callers give and get it.
#[derive(Debug)]
pub struct VoiceNFTMetadataView {
    pub title: String,
    pub description: Option<String>,
    pub media: Option<String>,
    pub media_hash: Option<String>,
    pub copies: Option<u64>,
    pub issued_at: Option<String>,
    pub expires_at: Option<String>,
    pub starts_at: Option<String>,
    pub updated_at: Option<String>,
    pub extra: Option<String>,
    pub reference: Option<String>,
    pub reference_hash: Option<String>,
    pub duration: Option<u64>,
    pub voice_type: Option<String>,
    pub language: Option<String>,
    pub tags: Option<Vec<String>>,
}

impl View for VoiceNFTMetadataView {
    type V = MetadataModel;

    open spec fn view(&self) -> MetadataModel {
        MetadataModel {
            title: self.title@,
            description: opt_text(self.description),
            media: opt_text(self.media),
            media_hash: opt_text(self.media_hash),
            copies: self.copies,
            issued_at: opt_text(self.issued_at),
            expires_at: opt_text(self.expires_at),
            starts_at: opt_text(self.starts_at),
            updated_at: opt_text(self.updated_at),
            extra: opt_text(self.extra),
            reference: opt_text(self.reference),
            reference_hash: opt_text(self.reference_hash),
            duration: self.duration,
            voice_type: opt_text(self.voice_type),
            language: opt_text(self.language),
            tags: opt_texts(self.tags),
        }
    }
}

/// What a token is and holds. The media is the address of the voice file, the
/// duration is in seconds.
#[derive(Debug)]
pub struct VoiceNFTMetadata {
    pub title: String,
    pub description: Option<String>,
    pub media: Option<String>,
    pub media_hash: Option<String>,
    pub copies: Option<u64>,
    pub issued_at: Option<String>,
    pub expires_at: Option<String>,
    pub starts_at: Option<String>,
    pub updated_at: Option<String>,
    pub extra: Option<String>,
    pub reference: Option<String>,
    pub reference_hash: Option<String>,
    pub duration: Option<u64>,
    pub voice_type: Option<String>,
    pub language: Option<String>,
    pub tags: Option<Vec<String>>,
}

impl View for VoiceNFTMetadata {
    type V = MetadataModel;

    open spec fn view(&self) -> MetadataModel {
        MetadataModel {
            title: self.title@,
            description: opt_text(self.description),
            media: opt_text(self.media),
            media_hash: opt_text(self.media_hash),
            copies: self.copies,
            issued_at: opt_text(self.issued_at),
            expires_at: opt_text(self.expires_at),
            starts_at: opt_text(self.starts_at),
            updated_at: opt_text(self.updated_at),
            extra: opt_text(self.extra),
            reference: opt_text(self.reference),
            reference_hash: opt_text(self.reference_hash),
            duration: self.duration,
            voice_type: opt_text(self.voice_type),
            language: opt_text(self.language),
            tags: opt_texts(self.tags),
        }
    }
}

impl VoiceNFTMetadata {
    /// The metadata in the form for callers.
    pub fn to_view(&self) -> (r: VoiceNFTMetadataView)
        ensures
            r@ == self@,
    {
        VoiceNFTMetadataView {
            title: self.title.clone(),
            description: clone_opt_string(&self.description),
            media: clone_opt_string(&self.media),
            media_hash: clone_opt_string(&self.media_hash),
            copies: self.copies,
            issued_at: clone_opt_string(&self.issued_at),
            expires_at: clone_opt_string(&self.expires_at),
            starts_at: clone_opt_string(&self.starts_at),
            updated_at: clone_opt_string(&self.updated_at),
            extra: clone_opt_string(&self.extra),
            reference: clone_opt_string(&self.reference),
            reference_hash: clone_opt_string(&self.reference_hash),
            duration: self.duration,
            voice_type: clone_opt_string(&self.voice_type),
            language: clone_opt_string(&self.language),
            tags: clone_opt_strings(&self.tags),
        }
    }

    /// The metadata that callers gave.
    pub fn from_view(v: VoiceNFTMetadataView) -> (r: VoiceNFTMetadata)
        ensures
            r@ == v@,
    {
        VoiceNFTMetadata {
            title: v.title,
            description: v.description,
            media: v.media,
            media_hash: v.media_hash,
            copies: v.copies,
            issued_at: v.issued_at,
            expires_at: v.expires_at,
            starts_at: v.starts_at,
            updated_at: v.updated_at,
            extra: v.extra,
            reference: v.reference,
            reference_hash: v.reference_hash,
            duration: v.duration,
            voice_type: v.voice_type,
            language: v.language,
            tags: v.tags,
        }
    }
}

/// The number of an approval under the account that it was given to.
#[derive(Debug)]
pub struct AccountNumber {
    pub account: String,
    pub value: u64,
}

/// The share of a royalty, in basis points, under the account that gets it.
#[derive(Debug)]
pub struct RoyaltyShare {
    pub account: String,
    pub value: u32,
}

/// The view of a list of royalty shares.
pub open spec fn royalty_shares(v: Seq<RoyaltyShare>) -> Seq<(Seq<char>, u32)> {
    v.map_values(|e: RoyaltyShare| (e.account@, e.value))
}

/// The view of an optional list of royalty shares.
pub open spec fn opt_royalty_shares(v: Option<Vec<RoyaltyShare>>) -> Option<Seq<(Seq<char>, u32)>> {
    match v {
        Some(list) => Some(royalty_shares(list@)),
        None => None,
    }
}

/// A copy of a list of royalty shares.
pub fn clone_royalty_shares(v: &Vec<RoyaltyShare>) -> (r: Vec<RoyaltyShare>)
    ensures
        royalty_shares(r@) == royalty_shares(v@),
{
    let mut r: Vec<RoyaltyShare> = Vec::new();
    let mut i: usize = 0;
    while i < v.len()
        invariant
            i <= v.len(),
            r.len() == i,
            forall|j: int| 0 <= j < i ==> r@[j].account@ == v@[j].account@ && r@[j].value == v@[j].value,
        decreases v.len() - i,
    {
        r.push(RoyaltyShare { account: v[i].account.clone(), value: v[i].value });
        i += 1;
    }
    assert(royalty_shares(r@) =~= royalty_shares(v@));
    r
}

/// The view of a list of accounts and numbers.
pub open spec fn account_numbers(v: Seq<AccountNumber>) -> Seq<(Seq<char>, u64)> {
    v.map_values(|e: AccountNumber| (e.account@, e.value))
}

/// A copy of a list of accounts and numbers.
pub fn clone_account_numbers(v: &Vec<AccountNumber>) -> (r: Vec<AccountNumber>)
    ensures
        account_numbers(r@) == account_numbers(v@),
{
    let mut r: Vec<AccountNumber> = Vec::new();
    let mut i: usize = 0;
    while i < v.len()
        invariant
            i <= v.len(),
            r.len() == i,
            forall|j: int| 0 <= j < i ==> r@[j].account@ == v@[j].account@ && r@[j].value == v@[j].value,
        decreases v.len() - i,
    {
        r.push(AccountNumber { account: v[i].account.clone(), value: v[i].value });
        i += 1;
    }
    assert(account_numbers(r@) =~= account_numbers(v@));
    r
}

/// A token.
#[derive(Debug)]
pub struct VoiceNFT {
    pub token_id: String,
    pub owner_id: AccountId,
    pub metadata: VoiceNFTMetadata,
    pub approved_account_ids: Vec<AccountNumber>,
    /// The shares of the royalty, in basis points.
    pub royalty: Option<Vec<RoyaltyShare>>,
    pub created_at: u64,
    pub updated_at: u64,
}

/// The view of a [`VoiceNFT`].
pub struct VoiceNFTModel {
    pub token_id: Seq<char>,
    pub owner_id: Seq<char>,
    pub metadata: MetadataModel,
    pub approved_account_ids: Seq<(Seq<char>, u64)>,
    pub royalty: Option<Seq<(Seq<char>, u32)>>,
    pub created_at: u64,
    pub updated_at: u64,
}

impl View for VoiceNFT {
    type V = VoiceNFTModel;

    open spec fn view(&self) -> VoiceNFTModel {
        VoiceNFTModel {
            token_id: self.token_id@,
            owner_id: self.owner_id@,
            metadata: self.metadata@,
            approved_account_ids: account_numbers(self.approved_account_ids@),
            royalty: opt_royalty_shares(self.royalty),
            created_at: self.created_at,
            updated_at: self.updated_at,
        }
    }
}

impl Keyed for VoiceNFT {
    open spec fn key_text(&self) -> Seq<char> {
        self.token_id@
    }

    fn key(&self) -> (k: &String) {
        &self.token_id
    }
}

/// The views of a list of tokens.
pub open spec fn token_models(v: Seq<VoiceNFT>) -> Seq<VoiceNFTModel> {
    v.map_values(|t: VoiceNFT| t@)
}

/// A token in the textual form: the times in decimal.
#[derive(Debug)]
pub struct VoiceNFTView {
    pub token_id: String,
    pub owner_id: String,
    pub metadata: VoiceNFTMetadataView,
    pub approved_account_ids: Vec<AccountNumber>,
    pub royalty: Option<Vec<RoyaltyShare>>,
    pub created_at: String,
    pub updated_at: String,
}

/// The view of a [`VoiceNFTView`].
pub struct VoiceNFTViewModel {
    pub token_id: Seq<char>,
    pub owner_id: Seq<char>,
    pub metadata: MetadataModel,
    pub approved_account_ids: Seq<(Seq<char>, u64)>,
    pub royalty: Option<Seq<(Seq<char>, u32)>>,
    pub created_at: Seq<char>,
    pub updated_at: Seq<char>,
}

impl View for VoiceNFTView {
    type V = VoiceNFTViewModel;

    open spec fn view(&self) -> VoiceNFTViewModel {
        VoiceNFTViewModel {
            token_id: self.token_id@,
            owner_id: self.owner_id@,
            metadata: self.metadata@,
            approved_account_ids: account_numbers(self.approved_account_ids@),
            royalty: opt_royalty_shares(self.royalty),
            created_at: self.created_at@,
            updated_at: self.updated_at@,
        }
    }
}

/// The views of a list of tokens in the textual form.
pub open spec fn token_view_models(v: Seq<VoiceNFTView>) -> Seq<VoiceNFTViewModel> {
    v.map_values(|t: VoiceNFTView| t@)
}

/// The textual form of a token.
pub open spec fn token_to_view(t: VoiceNFTModel) -> VoiceNFTViewModel {
    VoiceNFTViewModel {
        token_id: t.token_id,
        owner_id: t.owner_id,
        metadata: t.metadata,
        approved_account_ids: t.approved_account_ids,
        royalty: t.royalty,
        created_at: decimal_text(t.created_at as nat),
        updated_at: decimal_text(t.updated_at as nat),
    }
}

/// The view of the metadata of the contract, in either form.
pub struct ContractMetadataModel {
    pub spec: Seq<char>,
    pub name: Seq<char>,
    pub symbol: Seq<char>,
    pub icon: Option<Seq<char>>,
    pub base_uri: Option<Seq<char>>,
    pub reference: Option<Seq<char>>,
    pub reference_hash: Option<Seq<char>>,
}

/// What the contract is called, as callers get it.
#[derive(Debug)]
pub struct ContractMetadataView {
    pub spec: String,
    pub name: String,
    pub symbol: String,
    pub icon: Option<String>,
    pub base_uri: Option<String>,
    pub reference: Option<String>,
    pub reference_hash: Option<String>,
}

impl View for ContractMetadataView {
    type V = ContractMetadataModel;

    open spec fn view(&self) -> ContractMetadataModel {
        ContractMetadataModel {
            spec: self.spec@,
            name: self.name@,
            symbol: self.symbol@,
            icon: opt_text(self.icon),
            base_uri: opt_text(self.base_uri),
            reference: opt_text(self.reference),
            reference_hash: opt_text(self.reference_hash),
        }
    }
}

/// What the contract is called.
#[derive(Debug)]
pub struct ContractMetadata {
    pub spec: String,
    pub name: String,
    pub symbol: String,
    pub icon: Option<String>,
    pub base_uri: Option<String>,
    pub reference: Option<String>,
    pub reference_hash: Option<String>,
}

impl View for ContractMetadata {
    type V = ContractMetadataModel;

    open spec fn view(&self) -> ContractMetadataModel {
        ContractMetadataModel {
            spec: self.spec@,
            name: self.name@,
            symbol: self.symbol@,
            icon: opt_text(self.icon),
            base_uri: opt_text(self.base_uri),
            reference: opt_text(self.reference),
            reference_hash: opt_text(self.reference_hash),
        }
    }
}

/// The tokens of an owner, in the order in which the index is walked.
#[derive(Debug)]
pub struct OwnerTokens {
    pub owner: AccountId,
    pub token_ids: Vec<String>,
}

impl Keyed for OwnerTokens {
    open spec fn key_text(&self) -> Seq<char> {
        self.owner@
    }

    fn key(&self) -> (k: &String) {
        &self.owner
    }
}

/// The view of an index of tokens by owner.
pub open spec fn owner_tokens(v: Seq<OwnerTokens>) -> Seq<(Seq<char>, Seq<Seq<char>>)> {
    v.map_values(|o: OwnerTokens| (o.owner@, texts(o.token_ids@)))
}

/// The account that may transfer a token, under the token.
#[derive(Debug)]
pub struct TokenApproval {
    pub token_id: String,
    pub account_id: AccountId,
}

impl Keyed for TokenApproval {
    open spec fn key_text(&self) -> Seq<char> {
        self.token_id@
    }

    fn key(&self) -> (k: &String) {
        &self.token_id
    }
}

/// The view of a list of approvals: token and account.
pub open spec fn approval_pairs(v: Seq<TokenApproval>) -> Seq<(Seq<char>, Seq<char>)> {
    v.map_values(|a: TokenApproval| (a.token_id@, a.account_id@))
}

/// Why a call on the contract failed.
#[derive(Clone, Copy, Debug, PartialEq, Eq, Structural)]
pub enum NftError {
    /// The caller is not the owner of the contract.
    Unauthorized,
    TokenAlreadyExists,
    InvalidAccountId,
    TokenNotFound,
    /// The caller, or the sender, is not the owner of the token.
    NotTokenOwner,
    CannotTransferToSelf,
    NotApproved,
}

impl NftError {
    /// The short reason shown to the caller.
    pub open spec fn message_text(self) -> Seq<char> {
        match self {
            NftError::Unauthorized => "Only owner can mint"@,
            NftError::TokenAlreadyExists => "Token already exists"@,
            NftError::InvalidAccountId => "Invalid account ID"@,
            NftError::TokenNotFound => "Token not found"@,
            NftError::NotTokenOwner => "Only owner can do this"@,
            NftError::CannotTransferToSelf => "Cannot transfer to self"@,
            NftError::NotApproved => "Not approved to transfer"@,
        }
    }

    /// The short reason shown to the caller.
    pub fn message(self) -> (s: String)
        ensures
            s@ == self.message_text(),
    {
        let text: &str = match self {
            NftError::Unauthorized => "Only owner can mint",
            NftError::TokenAlreadyExists => "Token already exists",
            NftError::InvalidAccountId => "Invalid account ID",
            NftError::TokenNotFound => "Token not found",
            NftError::NotTokenOwner => "Only owner can do this",
            NftError::CannotTransferToSelf => "Cannot transfer to self",
            NftError::NotApproved => "Not approved to transfer",
        };
        String::from_str(text)
    }
}

/// The identifiers of a list of tokens.
pub open spec fn token_ids(s: Seq<VoiceNFTModel>) -> Seq<Seq<char>> {
    s.map_values(|t: VoiceNFTModel| t.token_id)
}

/// The owners of an index.
pub open spec fn index_owners(s: Seq<(Seq<char>, Seq<Seq<char>>)>) -> Seq<Seq<char>> {
    s.map_values(|e: (Seq<char>, Seq<Seq<char>>)| e.0)
}

/// The tokens that the index has for `owner`: none for an owner that it does
/// not hold.
pub open spec fn tokens_of(s: Seq<(Seq<char>, Seq<Seq<char>>)>, owner: Seq<char>) -> Seq<Seq<char>> {
    if index_owners(s).contains(owner) {
        s[position(index_owners(s), owner)].1
    } else {
        Seq::empty()
    }
}

/// The index with `id` among the tokens of `owner`: at the end, where it is new.
pub open spec fn with_token(s: Seq<(Seq<char>, Seq<Seq<char>>)>, owner: Seq<char>, id: Seq<char>) -> Seq<
    (Seq<char>, Seq<Seq<char>>),
> {
    if index_owners(s).contains(owner) {
        let at = position(index_owners(s), owner);
        if s[at].1.contains(id) {
            s
        } else {
            s.update(at, (owner, s[at].1.push(id)))
        }
    } else {
        s.push((owner, seq![id]))
    }
}

/// The index without `id` among the tokens of `owner`: the last token of the
/// owner takes its place, and an owner without tokens leaves the index, the
/// last owner taking its place.
pub open spec fn without_token(s: Seq<(Seq<char>, Seq<Seq<char>>)>, owner: Seq<char>, id: Seq<char>) -> Seq<
    (Seq<char>, Seq<Seq<char>>),
> {
    if index_owners(s).contains(owner) {
        let at = position(index_owners(s), owner);
        let ids = s[at].1;
        let rest = if ids.contains(id) {
            swap_removed(ids, position(ids, id))
        } else {
            ids
        };
        if rest.len() == 0 {
            swap_removed(s, at)
        } else {
            s.update(at, (owner, rest))
        }
    } else {
        s
    }
}

/// No owner is in the index twice, and no owner has a token twice or no token.
pub open spec fn index_ok(s: Seq<(Seq<char>, Seq<Seq<char>>)>) -> bool {
    &&& index_owners(s).no_duplicates()
    &&& forall|i: int| 0 <= i < s.len() ==> (#[trigger] s[i]).1.no_duplicates() && s[i].1.len() > 0
}

/// The tokens of the approvals.
pub open spec fn approved_tokens(s: Seq<(Seq<char>, Seq<char>)>) -> Seq<Seq<char>> {
    s.map_values(|e: (Seq<char>, Seq<char>)| e.0)
}

/// The account that may transfer the token `id`, if there is one.
pub open spec fn approved_for(s: Seq<(Seq<char>, Seq<char>)>, id: Seq<char>) -> Option<Seq<char>> {
    if approved_tokens(s).contains(id) {
        Some(s[position(approved_tokens(s), id)].1)
    } else {
        None
    }
}

/// The approvals with `account` as the one that may transfer the token `id`.
pub open spec fn with_approval(s: Seq<(Seq<char>, Seq<char>)>, id: Seq<char>, account: Seq<char>) -> Seq<
    (Seq<char>, Seq<char>),
> {
    if approved_tokens(s).contains(id) {
        s.update(position(approved_tokens(s), id), (id, account))
    } else {
        s.push((id, account))
    }
}

/// The approvals without one for the token `id`.
pub open spec fn without_approval(s: Seq<(Seq<char>, Seq<char>)>, id: Seq<char>) -> Seq<(Seq<char>, Seq<char>)> {
    if approved_tokens(s).contains(id) {
        swap_removed(s, position(approved_tokens(s), id))
    } else {
        s
    }
}

/// Every account of the list is an account name.
pub open spec fn accounts_valid(s: Seq<(Seq<char>, u32)>) -> bool {
    forall|i: int| 0 <= i < s.len() ==> valid_account_id((#[trigger] s[i]).0)
}

/// The contract as a mathematical value.
#[verifier::ext_equal]
pub struct NftState {
    pub owner_id: Seq<char>,
    pub total_supply: u128,
    /// The tokens, in the order in which they were minted.
    pub tokens: Seq<VoiceNFTModel>,
    pub tokens_by_owner: Seq<(Seq<char>, Seq<Seq<char>>)>,
    pub token_approvals: Seq<(Seq<char>, Seq<char>)>,
    pub operator_approvals: Seq<(Seq<char>, Seq<Seq<char>>)>,
    pub metadata: ContractMetadataModel,
    pub next_token_id: u128,
}

impl NftState {
    /// The contract is well formed: no two tokens share an identifier; the
    /// supply is the number of tokens, and the next number is one more; the
    /// index holds for each owner the tokens that it owns, each once, and no
    /// owner without tokens; and no token has two approvals.
    pub open spec fn wf(self) -> bool {
        &&& token_ids(self.tokens).no_duplicates()
        &&& self.total_supply == self.tokens.len()
        &&& self.next_token_id == self.tokens.len() + 1
        &&& index_ok(self.tokens_by_owner)
        &&& forall|owner: Seq<char>, id: Seq<char>| #[trigger]
            tokens_of(self.tokens_by_owner, owner).contains(id) <==> self.has_token(id) && self.token(
                id,
            ).owner_id == owner
        &&& approved_tokens(self.token_approvals).no_duplicates()
        &&& index_owners(self.operator_approvals).no_duplicates()
    }

    /// There is a token with the identifier `id`.
    pub open spec fn has_token(self, id: Seq<char>) -> bool {
        token_ids(self.tokens).contains(id)
    }

    /// The token with the identifier `id`.
    pub open spec fn token(self, id: Seq<char>) -> VoiceNFTModel {
        self.tokens[position(token_ids(self.tokens), id)]
    }

    /// `operator` may transfer all tokens of `owner`.
    pub open spec fn is_operator(self, owner: Seq<char>, operator: Seq<char>) -> bool {
        tokens_of(self.operator_approvals, owner).contains(operator)
    }

    /// A new contract.
    pub open spec fn initial(owner_id: Seq<char>) -> NftState {
        NftState {
            owner_id,
            total_supply: 0,
            tokens: Seq::empty(),
            tokens_by_owner: Seq::empty(),
            token_approvals: Seq::empty(),
            operator_approvals: Seq::empty(),
            metadata: ContractMetadataModel {
                spec: "nft-1.0.0"@,
                name: "Voice NFT"@,
                symbol: "VNFT"@,
                icon: None,
                base_uri: None,
                reference: None,
                reference_hash: None,
            },
            next_token_id: 1,
        }
    }

    /// Why `nft_mint` fails, if it does.
    pub open spec fn mint_error(self, caller: Seq<char>, id: Seq<char>, royalty: Option<Seq<(Seq<char>, u32)>>) -> Option<
        NftError,
    > {
        if caller != self.owner_id {
            Some(NftError::Unauthorized)
        } else if self.has_token(id) {
            Some(NftError::TokenAlreadyExists)
        } else if royalty is Some && !accounts_valid(royalty->0) {
            Some(NftError::InvalidAccountId)
        } else {
            None
        }
    }

    /// The token that `nft_mint` makes.
    pub open spec fn minted(
        id: Seq<char>,
        receiver: Seq<char>,
        metadata: MetadataModel,
        royalty: Option<Seq<(Seq<char>, u32)>>,
        now: u64,
    ) -> VoiceNFTModel {
        VoiceNFTModel {
            token_id: id,
            owner_id: receiver,
            metadata,
            approved_account_ids: Seq::empty(),
            royalty,
            created_at: now,
            updated_at: now,
        }
    }

    /// The contract after `nft_mint`.
    pub open spec fn mint_next(self, t: VoiceNFTModel) -> NftState {
        NftState {
            tokens: self.tokens.push(t),
            tokens_by_owner: with_token(self.tokens_by_owner, t.owner_id, t.token_id),
            total_supply: (self.total_supply + 1) as u128,
            next_token_id: (self.next_token_id + 1) as u128,
            ..self
        }
    }

    /// Why a transfer of the token `id` from `sender` to `receiver` fails, if it does.
    pub open spec fn transfer_error(self, sender: Seq<char>, receiver: Seq<char>, id: Seq<char>) -> Option<
        NftError,
    > {
        if !self.has_token(id) {
            Some(NftError::TokenNotFound)
        } else if self.token(id).owner_id != sender {
            Some(NftError::NotTokenOwner)
        } else if sender == receiver {
            Some(NftError::CannotTransferToSelf)
        } else {
            None
        }
    }

    /// The contract after a transfer: the token is the receiver's from `now`,
    /// with no approval left; the index has it for the receiver and no more for
    /// the sender.
    pub open spec fn transfer_next(self, sender: Seq<char>, receiver: Seq<char>, id: Seq<char>, now: u64) -> NftState {
        NftState {
            tokens: self.tokens.update(
                position(token_ids(self.tokens), id),
                VoiceNFTModel {
                    owner_id: receiver,
                    updated_at: now,
                    approved_account_ids: Seq::empty(),
                    ..self.token(id)
                },
            ),
            tokens_by_owner: with_token(without_token(self.tokens_by_owner, sender, id), receiver, id),
            token_approvals: without_approval(self.token_approvals, id),
            ..self
        }
    }

    /// Why `nft_transfer_from` fails, if it does.
    pub open spec fn transfer_from_error(
        self,
        caller: Seq<char>,
        sender: Seq<char>,
        receiver: Seq<char>,
        id: Seq<char>,
    ) -> Option<NftError> {
        if !self.has_token(id) {
            Some(NftError::TokenNotFound)
        } else if self.token(id).owner_id != sender {
            Some(NftError::NotTokenOwner)
        } else if !(approved_for(self.token_approvals, id) == Some(caller) || self.is_operator(sender, caller)
            || caller == sender) {
            Some(NftError::NotApproved)
        } else if sender == receiver {
            Some(NftError::CannotTransferToSelf)
        } else {
            None
        }
    }

    /// Why `nft_approve` and `nft_revoke` fail, if they do.
    pub open spec fn approve_error(self, caller: Seq<char>, id: Seq<char>) -> Option<NftError> {
        if !self.has_token(id) {
            Some(NftError::TokenNotFound)
        } else if self.token(id).owner_id != caller {
            Some(NftError::NotTokenOwner)
        } else {
            None
        }
    }
}

/// What one more token for an owner does to the index.
pub proof fn lemma_with_token(s: Seq<(Seq<char>, Seq<Seq<char>>)>, owner: Seq<char>, id: Seq<char>)
    requires
        index_ok(s),
    ensures
        index_ok(with_token(s, owner, id)),
        forall|x: Seq<char>| #[trigger]
            tokens_of(with_token(s, owner, id), owner).contains(x) <==> tokens_of(s, owner).contains(x) || x
                == id,
        forall|other: Seq<char>| other != owner ==> tokens_of(with_token(s, owner, id), other) == tokens_of(s, other),
{
    let t = with_token(s, owner, id);
    let h = index_owners(s);
    if h.contains(owner) {
        lemma_position_in_range(h, owner);
        let at = position(h, owner);
        let ids = s[at].1;
        assert(index_owners(t) =~= h);
        if !ids.contains(id) {
            lemma_push_fresh(ids, id);
            let grown = ids.push(id);
            assert(grown[ids.len() as int] == id);
            assert forall|i: int| 0 <= i < t.len() implies (#[trigger] t[i]).1.no_duplicates() && t[i].1.len()
                > 0 by {
                if i != at {
                    assert(t[i] == s[i]);
                }
            }
            assert forall|x: Seq<char>| #[trigger]
                tokens_of(t, owner).contains(x) <==> tokens_of(s, owner).contains(x) || x == id by {
                if ids.contains(x) {
                    let j = choose|j: int| 0 <= j < ids.len() && ids[j] == x;
                    assert(grown[j] == x);
                }
                if grown.contains(x) {
                    let j = choose|j: int| 0 <= j < grown.len() && grown[j] == x;
                    if j < ids.len() {
                        assert(ids[j] == x);
                    }
                }
            }
        }
        assert forall|other: Seq<char>| other != owner implies tokens_of(t, other) == tokens_of(s, other) by {
            if h.contains(other) {
                lemma_position_in_range(h, other);
                assert(position(h, other) != at);
            }
        }
    } else {
        lemma_push_fresh(h, owner);
        assert(index_owners(t) =~= h.push(owner));
        assert(index_owners(t)[s.len() as int] == owner);
        lemma_position(index_owners(t), owner, s.len() as int);
        let one = seq![id];
        assert(one[0] == id);
        assert forall|i: int| 0 <= i < t.len() implies (#[trigger] t[i]).1.no_duplicates() && t[i].1.len()
            > 0 by {
            if i < s.len() {
                assert(t[i] == s[i]);
            }
        }
        assert forall|x: Seq<char>| #[trigger]
            tokens_of(t, owner).contains(x) <==> tokens_of(s, owner).contains(x) || x == id by {
            if one.contains(x) {
                let j = choose|j: int| 0 <= j < one.len() && one[j] == x;
            }
        }
        assert forall|other: Seq<char>| other != owner implies tokens_of(t, other) == tokens_of(s, other) by {
            if h.contains(other) {
                lemma_position_in_range(h, other);
                let j = position(h, other);
                assert(index_owners(t)[j] == other);
                lemma_position(index_owners(t), other, j);
            } else if index_owners(t).contains(other) {
                lemma_position_in_range(index_owners(t), other);
                let j = position(index_owners(t), other);
                assert(h[j] == other);
            }
        }
    }
}

/// What one token less for an owner does to the index.
pub proof fn lemma_without_token(s: Seq<(Seq<char>, Seq<Seq<char>>)>, owner: Seq<char>, id: Seq<char>)
    requires
        index_ok(s),
    ensures
        index_ok(without_token(s, owner, id)),
        forall|x: Seq<char>| #[trigger]
            tokens_of(without_token(s, owner, id), owner).contains(x) <==> tokens_of(s, owner).contains(x)
                && x != id,
        forall|other: Seq<char>|
            other != owner ==> tokens_of(without_token(s, owner, id), other) == tokens_of(s, other),
{
    let t = without_token(s, owner, id);
    let h = index_owners(s);
    if h.contains(owner) {
        lemma_position_in_range(h, owner);
        let at = position(h, owner);
        let ids = s[at].1;
        let rest = if ids.contains(id) {
            swap_removed(ids, position(ids, id))
        } else {
            ids
        };
        if ids.contains(id) {
            lemma_position_in_range(ids, id);
            lemma_swap_removed(ids, position(ids, id));
        }
        assert(rest.no_duplicates());
        assert forall|x: Seq<char>| rest.contains(x) <==> ids.contains(x) && x != id by {}
        if rest.len() == 0 {
            lemma_swap_removed(h, at);
            assert(index_owners(t) =~= swap_removed(h, at));
            let last = s.len() - 1;
            assert forall|i: int| 0 <= i < t.len() implies (#[trigger] t[i]).1.no_duplicates() && t[i].1.len()
                > 0 by {
                let from = if i == at {
                    last
                } else {
                    i
                };
                assert(t[i] == s[from]);
            }
            assert(!index_owners(t).contains(owner));
            assert forall|x: Seq<char>| #[trigger]
                tokens_of(t, owner).contains(x) <==> tokens_of(s, owner).contains(x) && x != id by {
                if ids.contains(x) && x != id {
                    assert(rest.contains(x));
                }
            }
            assert forall|other: Seq<char>| other != owner implies tokens_of(t, other) == tokens_of(
                s,
                other,
            ) by {
                if h.contains(other) {
                    lemma_position_in_range(h, other);
                    let j = position(h, other);
                    let to = if j == last {
                        at
                    } else {
                        j
                    };
                    assert(index_owners(t)[to] == other);
                    lemma_position(index_owners(t), other, to);
                    assert(t[to] == s[j]);
                }
            }
        } else {
            assert(index_owners(t) =~= h);
            assert forall|i: int| 0 <= i < t.len() implies (#[trigger] t[i]).1.no_duplicates() && t[i].1.len()
                > 0 by {
                if i != at {
                    assert(t[i] == s[i]);
                }
            }
            assert forall|other: Seq<char>| other != owner implies tokens_of(t, other) == tokens_of(
                s,
                other,
            ) by {
                if h.contains(other) {
                    lemma_position_in_range(h, other);
                    assert(position(h, other) != at);
                }
            }
        }
    }
}

/// What an approval more or less does to the approvals.
pub proof fn lemma_approvals(s: Seq<(Seq<char>, Seq<char>)>, id: Seq<char>, account: Seq<char>)
    requires
        approved_tokens(s).no_duplicates(),
    ensures
        approved_tokens(with_approval(s, id, account)).no_duplicates(),
        approved_for(with_approval(s, id, account), id) == Some(account),
        approved_tokens(without_approval(s, id)).no_duplicates(),
        approved_for(without_approval(s, id), id) is None,
{
    let keys = approved_tokens(s);
    let t = with_approval(s, id, account);
    let u = without_approval(s, id);
    if keys.contains(id) {
        lemma_position_in_range(keys, id);
        let at = position(keys, id);
        assert(approved_tokens(t) =~= keys);
        lemma_swap_removed(keys, at);
        assert(approved_tokens(u) =~= swap_removed(keys, at));
    } else {
        lemma_push_fresh(keys, id);
        assert(approved_tokens(t) =~= keys.push(id));
        assert(approved_tokens(t)[s.len() as int] == id);
        lemma_position(approved_tokens(t), id, s.len() as int);
    }
}

/// A new contract is well formed.
pub proof fn lemma_initial_wf(owner_id: Seq<char>)
    ensures
        NftState::initial(owner_id).wf(),
{
    let s = NftState::initial(owner_id);
    assert(token_ids(s.tokens) =~= Seq::<Seq<char>>::empty());
    assert(index_owners(s.tokens_by_owner) =~= Seq::<Seq<char>>::empty());
    assert(approved_tokens(s.token_approvals) =~= Seq::<Seq<char>>::empty());
}

/// A new token keeps the contract well formed.
pub proof fn lemma_mint_wf(s: NftState, t: VoiceNFTModel)
    requires
        s.wf(),
        !s.has_token(t.token_id),
        s.tokens.len() < u128::MAX - 1,
    ensures
        s.mint_next(t).wf(),
        s.mint_next(t).has_token(t.token_id),
        s.mint_next(t).token(t.token_id) == t,
{
    let n = s.mint_next(t);
    let ids = token_ids(s.tokens);
    lemma_push_fresh(ids, t.token_id);
    assert(token_ids(n.tokens) =~= ids.push(t.token_id));
    assert(token_ids(n.tokens)[ids.len() as int] == t.token_id);
    lemma_position(token_ids(n.tokens), t.token_id, ids.len() as int);
    lemma_with_token(s.tokens_by_owner, t.owner_id, t.token_id);
    assert forall|owner: Seq<char>, id: Seq<char>| #[trigger]
        tokens_of(n.tokens_by_owner, owner).contains(id) <==> n.has_token(id) && n.token(id).owner_id
            == owner by {
        assert(tokens_of(s.tokens_by_owner, owner).contains(id) <==> s.has_token(id) && s.token(id).owner_id
            == owner);
        if id != t.token_id {
            if s.has_token(id) {
                lemma_position_in_range(ids, id);
                let j = position(ids, id);
                assert(token_ids(n.tokens)[j] == id);
                lemma_position(token_ids(n.tokens), id, j);
            }
            if n.has_token(id) {
                lemma_position_in_range(token_ids(n.tokens), id);
                let j = position(token_ids(n.tokens), id);
                assert(ids[j] == id);
            }
        } else {
            assert(!tokens_of(s.tokens_by_owner, owner).contains(id));
        }
    }
}

/// A transfer keeps the contract well formed.
pub proof fn lemma_transfer_wf(s: NftState, sender: Seq<char>, receiver: Seq<char>, id: Seq<char>, now: u64)
    requires
        s.wf(),
        s.transfer_error(sender, receiver, id) is None,
    ensures
        s.transfer_next(sender, receiver, id, now).wf(),
        s.transfer_next(sender, receiver, id, now).has_token(id),
        s.transfer_next(sender, receiver, id, now).token(id).owner_id == receiver,
        tokens_of(s.tokens_by_owner, sender).contains(id),
{
    let n = s.transfer_next(sender, receiver, id, now);
    let ids = token_ids(s.tokens);
    lemma_position_in_range(ids, id);
    let at = position(ids, id);
    assert(token_ids(n.tokens) =~= ids);
    assert(tokens_of(s.tokens_by_owner, sender).contains(id) <==> s.has_token(id) && s.token(id).owner_id
        == sender);
    let mid = without_token(s.tokens_by_owner, sender, id);
    lemma_without_token(s.tokens_by_owner, sender, id);
    lemma_with_token(mid, receiver, id);
    lemma_approvals(s.token_approvals, id, id);
    assert forall|owner: Seq<char>, x: Seq<char>| #[trigger]
        tokens_of(n.tokens_by_owner, owner).contains(x) <==> n.has_token(x) && n.token(x).owner_id
            == owner by {
        assert(tokens_of(s.tokens_by_owner, owner).contains(x) <==> s.has_token(x) && s.token(x).owner_id
            == owner);
        assert(tokens_of(mid, sender).contains(x) <==> tokens_of(s.tokens_by_owner, sender).contains(x) && x
            != id);
        assert(tokens_of(n.tokens_by_owner, receiver).contains(x) <==> tokens_of(mid, receiver).contains(x)
            || x == id);
        if s.has_token(x) && x != id {
            lemma_position_in_range(ids, x);
            assert(position(ids, x) != at);
        }
    }
}

} // verus!
