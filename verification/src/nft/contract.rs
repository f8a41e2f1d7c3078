//! The contract itself: the state it keeps and the calls that change it. Every
//! call either succeeds and leaves the contract as its contract says, or fails
//! with the reason and leaves the contract as it was.

use crate::account::AccountId;
use crate::keyed::{
    contains_key, distinct_keys, find, keys_of, lemma_position, lemma_position_in_range,
    lemma_push_fresh, lemma_swap_removed, page, position, swap_removed,
};
use crate::nft::model::{
    fresh_analytics, index_distinct, lemma_initial_wf, lemma_mint_wf, lemma_record_ids_distinct,
    lemma_taken, lemma_transfer_wf, lemma_with_record_wf, lemma_with_token_distinct,
    metadata_models, record_ids, record_metadata, record_models, taken, AIAnalysis, NftError,
    NftState, TokenRecord, TokenRecordModel, VoiceAnalytics, VoiceNFTMetadata,
    VoiceNFTMetadataModel, VoiceNFTMintEvent, VoiceNFTTransferEvent, CREATOR_ROYALTY,
};
use crate::platform::model::{count_names, counted, lemma_counted};
use crate::platform::types::{named_counts, NamedCount};
use crate::text::{clone_strings, decimal_text, opt_text, texts, u64_to_string};
use crate::voice_nft::model::{
    clone_royalty_shares, index_owners, owner_tokens, royalty_shares, tokens_of, with_token,
    OwnerTokens, RoyaltyShare,
};
use vstd::prelude::*;
use vstd::string::*;

verus! {

/// The views of a list of pairs of texts.
pub open spec fn text_pairs(v: Seq<(String, String)>) -> Seq<(Seq<char>, Seq<char>)> {
    v.map_values(|e: (String, String)| (e.0@, e.1@))
}

/// The contract.
pub struct VoiceNFT {
    tokens: Vec<TokenRecord>,
    tokens_per_owner: Vec<OwnerTokens>,
    owner_id: AccountId,
    extra_storage_in_bytes_per_token: u64,
    next_token_id: u64,
    contract_metadata: Vec<(String, String)>,
    approved_minters: Vec<AccountId>,
    mint_price: u128,
    is_minting_enabled: bool,
}

impl View for VoiceNFT {
    type V = NftState;

    closed spec fn view(&self) -> NftState {
        NftState {
            tokens: record_models(self.tokens@),
            tokens_per_owner: owner_tokens(self.tokens_per_owner@),
            owner_id: self.owner_id@,
            extra_storage_in_bytes_per_token: self.extra_storage_in_bytes_per_token,
            next_token_id: self.next_token_id,
            contract_metadata: text_pairs(self.contract_metadata@),
            approved_minters: texts(self.approved_minters@),
            mint_price: self.mint_price,
            is_minting_enabled: self.is_minting_enabled,
        }
    }
}

/// The whole state of a contract as plain records, for keeping it between
/// calls. Not every such value is the state of a contract: see [`NftState::wf`].
#[derive(Debug)]
pub struct NftSnapshot {
    pub tokens: Vec<TokenRecord>,
    pub tokens_per_owner: Vec<OwnerTokens>,
    pub owner_id: AccountId,
    pub extra_storage_in_bytes_per_token: u64,
    pub next_token_id: u64,
    pub contract_metadata: Vec<(String, String)>,
    pub approved_minters: Vec<AccountId>,
    pub mint_price: u128,
    pub is_minting_enabled: bool,
}

impl View for NftSnapshot {
    type V = NftState;

    open spec fn view(&self) -> NftState {
        NftState {
            tokens: record_models(self.tokens@),
            tokens_per_owner: owner_tokens(self.tokens_per_owner@),
            owner_id: self.owner_id@,
            extra_storage_in_bytes_per_token: self.extra_storage_in_bytes_per_token,
            next_token_id: self.next_token_id,
            contract_metadata: text_pairs(self.contract_metadata@),
            approved_minters: texts(self.approved_minters@),
            mint_price: self.mint_price,
            is_minting_enabled: self.is_minting_enabled,
        }
    }
}

/// Puts `id` among the tokens of `owner`.
fn add_token(index: &mut Vec<OwnerTokens>, owner: &AccountId, id: &String)
    requires
        index_distinct(owner_tokens(old(index)@)),
    ensures
        owner_tokens(final(index)@) == with_token(owner_tokens(old(index)@), owner@, id@),
        index_distinct(owner_tokens(final(index)@)),
{
    proof {
        assert(keys_of(index@) =~= index_owners(owner_tokens(index@)));
        lemma_with_token_distinct(owner_tokens(index@), owner@, id@);
    }
    match find(index, owner) {
        Some(i) => {
            proof {
                lemma_position(index_owners(owner_tokens(index@)), owner@, i as int);
                assert(keys_of(index[i as int].token_ids@) =~= texts(index[i as int].token_ids@));
                assert(owner_tokens(index@)[i as int].1 == texts(index[i as int].token_ids@));
            }
            if !contains_key(&index[i].token_ids, id) {
                index[i].token_ids.push(id.clone());
                proof {
                    assert(texts(index[i as int].token_ids@) =~= texts(old(index)[i as int].token_ids@).push(
                        id@,
                    ));
                }
            }
            proof {
                assert(owner_tokens(index@) =~= with_token(owner_tokens(old(index)@), owner@, id@));
            }
        },
        None => {
            let mut ids: Vec<String> = Vec::new();
            ids.push(id.clone());
            assert(texts(ids@) =~= seq![id@]);
            index.push(OwnerTokens { owner: owner.clone(), token_ids: ids });
            proof {
                assert(owner_tokens(index@) =~= with_token(owner_tokens(old(index)@), owner@, id@));
            }
        },
    }
}

/// Takes `id` from among the tokens of `owner`.
fn take_token(index: &mut Vec<OwnerTokens>, owner: &AccountId, id: &String)
    requires
        index_distinct(owner_tokens(old(index)@)),
    ensures
        owner_tokens(final(index)@) == taken(owner_tokens(old(index)@), owner@, id@),
        index_distinct(owner_tokens(final(index)@)),
{
    proof {
        assert(keys_of(index@) =~= index_owners(owner_tokens(index@)));
        lemma_taken(owner_tokens(index@), owner@, id@);
    }
    match find(index, owner) {
        Some(i) => {
            proof {
                lemma_position(index_owners(owner_tokens(index@)), owner@, i as int);
                assert(keys_of(index[i as int].token_ids@) =~= texts(index[i as int].token_ids@));
                assert(owner_tokens(index@)[i as int].1 == texts(index[i as int].token_ids@));
            }
            match find(&index[i].token_ids, id) {
                Some(k) => {
                    proof {
                        lemma_position(texts(index[i as int].token_ids@), id@, k as int);
                    }
                    let _ = index[i].token_ids.swap_remove(k);
                    proof {
                        assert(texts(index[i as int].token_ids@) =~= swap_removed(
                            texts(old(index)[i as int].token_ids@),
                            k as int,
                        ));
                        assert(owner_tokens(index@) =~= taken(owner_tokens(old(index)@), owner@, id@));
                    }
                },
                None => {},
            }
        },
        None => {},
    }
}

/// Whether no owner is in `index` twice and no owner has a token twice.
fn index_is_distinct(index: &Vec<OwnerTokens>) -> (ok: bool)
    ensures
        ok == index_distinct(owner_tokens(index@)),
{
    let ghost table = owner_tokens(index@);
    proof {
        assert(keys_of(index@) =~= index_owners(table));
    }
    if !distinct_keys(index) {
        return false;
    }
    let mut i: usize = 0;
    while i < index.len()
        invariant
            i <= index.len(),
            table == owner_tokens(index@),
            forall|j: int| 0 <= j < i ==> (#[trigger] table[j]).1.no_duplicates(),
        decreases index.len() - i,
    {
        proof {
            assert(keys_of(index[i as int].token_ids@) =~= texts(index[i as int].token_ids@));
        }
        if !distinct_keys(&index[i].token_ids) {
            assert(!table[i as int].1.no_duplicates());
            return false;
        }
        i += 1;
    }
    true
}

impl NftSnapshot {
    /// Whether the state is that of a contract: see [`NftState::wf`].
    pub fn is_well_formed(&self) -> (ok: bool)
        ensures
            ok == self@.wf(),
    {
        let ghost s = self@;
        let ghost ids = record_ids(s.tokens);
        let ghost index = s.tokens_per_owner;
        proof {
            assert(keys_of(self.tokens@) =~= ids);
            assert(keys_of(self.tokens_per_owner@) =~= index_owners(index));
            assert(keys_of(self.approved_minters@) =~= s.approved_minters);
        }
        let n: usize = self.tokens.len();
        if n as u64 >= u64::MAX || self.next_token_id != n as u64 + 1 {
            return false;
        }
        let mut i: usize = 0;
        while i < n
            invariant
                i <= n,
                n == self.tokens.len(),
                n < u64::MAX,
                s == self@,
                forall|j: int|
                    0 <= j < i ==> (#[trigger] s.tokens[j]).token_id == decimal_text((j + 1) as nat)
                        && count_names(s.tokens[j].analytics.geographic_distribution).no_duplicates(),
            decreases n - i,
        {
            let expected = u64_to_string(i as u64 + 1);
            proof {
                assert(keys_of(self.tokens[i as int].analytics.geographic_distribution@) =~= count_names(
                    s.tokens[i as int].analytics.geographic_distribution,
                ));
            }
            if !(self.tokens[i].token_id == expected) || !distinct_keys(
                &self.tokens[i].analytics.geographic_distribution,
            ) {
                assert(!(s.tokens[i as int].token_id == decimal_text((i + 1) as nat) && count_names(
                    s.tokens[i as int].analytics.geographic_distribution,
                ).no_duplicates()));
                return false;
            }
            i += 1;
        }
        if !index_is_distinct(&self.tokens_per_owner) || !distinct_keys(&self.approved_minters) {
            return false;
        }
        proof {
            assert forall|a: int, b: int| 0 <= a < ids.len() && 0 <= b < ids.len() && a != b implies ids[a]
                != ids[b] by {
                assert(ids[a] == s.tokens[a].token_id && ids[b] == s.tokens[b].token_id);
                if ids[a] == ids[b] {
                    crate::text::lemma_decimal_text_injective((a + 1) as nat, (b + 1) as nat);
                }
            }
        }
        // Each token that the index has for an owner is a token of that owner.
        let mut o: usize = 0;
        while o < self.tokens_per_owner.len()
            invariant
                o <= self.tokens_per_owner.len(),
                s == self@,
                ids == record_ids(s.tokens),
                index == s.tokens_per_owner,
                ids.no_duplicates(),
                index_distinct(index),
                keys_of(self.tokens@) == ids,
                forall|a: int, b: int|
                    0 <= a < o && 0 <= b < index[a].1.len() ==> s.has_token(#[trigger] index[a].1[b])
                        && s.token(index[a].1[b]).owner_id == index[a].0,
            decreases self.tokens_per_owner.len() - o,
        {
            let entry = &self.tokens_per_owner[o];
            let mut k: usize = 0;
            while k < entry.token_ids.len()
                invariant
                    k <= entry.token_ids.len(),
                    o < self.tokens_per_owner.len(),
                    entry == &self.tokens_per_owner[o as int],
                    s == self@,
                    ids == record_ids(s.tokens),
                    index == s.tokens_per_owner,
                    ids.no_duplicates(),
                    index_distinct(index),
                    keys_of(self.tokens@) == ids,
                    forall|b: int|
                        0 <= b < k ==> s.has_token(#[trigger] index[o as int].1[b]) && s.token(
                            index[o as int].1[b],
                        ).owner_id == index[o as int].0,
                decreases entry.token_ids.len() - k,
            {
                let ghost id = index[o as int].1[k as int];
                assert(id == entry.token_ids@[k as int]@);
                let found = find(&self.tokens, &entry.token_ids[k]);
                let agrees: bool = match found {
                    Some(t) => {
                        proof {
                            lemma_position(ids, id, t as int);
                        }
                        self.tokens[t].owner_id == entry.owner
                    },
                    None => false,
                };
                if !agrees {
                    proof {
                        let owner = index[o as int].0;
                        assert(index_owners(index)[o as int] == owner);
                        lemma_position(index_owners(index), owner, o as int);
                        assert(tokens_of(index, owner).contains(id));
                        assert(!(s.has_token(id) && s.token(id).owner_id == owner));
                    }
                    return false;
                }
                k += 1;
            }
            o += 1;
        }
        // Each token is in the index under its owner.
        let mut t: usize = 0;
        while t < n
            invariant
                t <= n,
                n == self.tokens.len(),
                s == self@,
                ids == record_ids(s.tokens),
                index == s.tokens_per_owner,
                ids.no_duplicates(),
                index_distinct(index),
                keys_of(self.tokens_per_owner@) == index_owners(index),
                forall|j: int|
                    0 <= j < t ==> tokens_of(index, (#[trigger] s.tokens[j]).owner_id).contains(
                        s.tokens[j].token_id,
                    ),
            decreases n - t,
        {
            let listed: bool = match find(&self.tokens_per_owner, &self.tokens[t].owner_id) {
                Some(e) => {
                    proof {
                        lemma_position(index_owners(index), s.tokens[t as int].owner_id, e as int);
                        assert(keys_of(self.tokens_per_owner[e as int].token_ids@) =~= index[e as int].1);
                    }
                    contains_key(&self.tokens_per_owner[e].token_ids, &self.tokens[t].token_id)
                },
                None => false,
            };
            if !listed {
                proof {
                    let id = s.tokens[t as int].token_id;
                    let owner = s.tokens[t as int].owner_id;
                    assert(ids[t as int] == id);
                    lemma_position(ids, id, t as int);
                    assert(s.has_token(id) && s.token(id).owner_id == owner);
                    assert(!tokens_of(index, owner).contains(id));
                }
                return false;
            }
            t += 1;
        }
        proof {
            assert forall|owner: Seq<char>, id: Seq<char>| #[trigger]
                tokens_of(index, owner).contains(id) <==> s.has_token(id) && s.token(id).owner_id
                    == owner by {
                if tokens_of(index, owner).contains(id) {
                    lemma_position_in_range(index_owners(index), owner);
                    let a = position(index_owners(index), owner);
                    let b = choose|b: int| 0 <= b < index[a].1.len() && index[a].1[b] == id;
                    assert(s.has_token(index[a].1[b]));
                }
                if s.has_token(id) && s.token(id).owner_id == owner {
                    lemma_position_in_range(ids, id);
                    let j = position(ids, id);
                    assert(s.tokens[j].token_id == id);
                }
            }
        }
        true
    }
}

impl VoiceNFT {
    /// The contract is well formed: see [`NftState::wf`].
    pub open spec fn wf(&self) -> bool {
        self@.wf()
    }

    proof fn lemma_keys(&self)
        requires
            self.wf(),
        ensures
            keys_of(self.tokens@) == record_ids(self@.tokens),
            record_ids(self@.tokens).no_duplicates(),
            keys_of(self.tokens_per_owner@) == index_owners(self@.tokens_per_owner),
            keys_of(self.approved_minters@) == self@.approved_minters,
            self.tokens@.len() == self@.tokens.len(),
    {
        assert(keys_of(self.tokens@) =~= record_ids(self@.tokens));
        assert(keys_of(self.tokens_per_owner@) =~= index_owners(self@.tokens_per_owner));
        assert(keys_of(self.approved_minters@) =~= self@.approved_minters);
        lemma_record_ids_distinct(self@);
    }

    /// The state of the contract as plain records.
    pub fn into_snapshot(self) -> (s: NftSnapshot)
        ensures
            s@ == self@,
    {
        NftSnapshot {
            tokens: self.tokens,
            tokens_per_owner: self.tokens_per_owner,
            owner_id: self.owner_id,
            extra_storage_in_bytes_per_token: self.extra_storage_in_bytes_per_token,
            next_token_id: self.next_token_id,
            contract_metadata: self.contract_metadata,
            approved_minters: self.approved_minters,
            mint_price: self.mint_price,
            is_minting_enabled: self.is_minting_enabled,
        }
    }

    /// The contract with the state `s`, where that state is well formed;
    /// nothing where it is not.
    pub fn from_snapshot(s: NftSnapshot) -> (r: Option<Self>)
        ensures
            match r {
                Some(c) => s@.wf() && c@ == s@ && c.wf(),
                None => !s@.wf(),
            },
    {
        if !s.is_well_formed() {
            return None;
        }
        Some(
            VoiceNFT {
                tokens: s.tokens,
                tokens_per_owner: s.tokens_per_owner,
                owner_id: s.owner_id,
                extra_storage_in_bytes_per_token: s.extra_storage_in_bytes_per_token,
                next_token_id: s.next_token_id,
                contract_metadata: s.contract_metadata,
                approved_minters: s.approved_minters,
                mint_price: s.mint_price,
                is_minting_enabled: s.is_minting_enabled,
            },
        )
    }

    /// A new contract, owned by `owner_id`, with the given price of a mint.
    pub fn new(owner_id: AccountId, mint_price: u128) -> (c: Self)
        ensures
            c@ == NftState::initial(owner_id@, mint_price),
            c.wf(),
    {
        let mut approved_minters: Vec<AccountId> = Vec::new();
        approved_minters.push(owner_id.clone());
        let c = VoiceNFT {
            tokens: Vec::new(),
            tokens_per_owner: Vec::new(),
            owner_id,
            extra_storage_in_bytes_per_token: 0,
            next_token_id: 1,
            contract_metadata: Vec::new(),
            approved_minters,
            mint_price,
            is_minting_enabled: true,
        };
        proof {
            let m = NftState::initial(owner_id@, mint_price);
            assert(c@.tokens =~= m.tokens);
            assert(c@.tokens_per_owner =~= m.tokens_per_owner);
            assert(c@.contract_metadata =~= m.contract_metadata);
            assert(c@.approved_minters =~= m.approved_minters);
            assert(c@ =~= m);
            lemma_initial_wf(owner_id@, mint_price);
        }
        c
    }

    /// The owner of the contract.
    pub fn owner_id(&self) -> (r: AccountId)
        ensures
            r@ == self@.owner_id,
    {
        self.owner_id.clone()
    }

    /// Mints a token with the given metadata for `receiver_id`, numbered with the
    /// next number, and hands back the notification, which names the token. An
    /// approved minter may, and anyone with a deposit of the price of a mint.
    ///
    /// Fails with `MintingDisabled`, else with `NotAuthorizedMinter`, else with
    /// `ArithmeticOverflow` where the next number would leave its range.
    pub fn nft_mint(
        &mut self,
        caller: &AccountId,
        receiver_id: AccountId,
        token_metadata: VoiceNFTMetadata,
        attached_deposit: u128,
        now: u64,
    ) -> (r: Result<VoiceNFTMintEvent, NftError>)
        requires
            old(self).wf(),
        ensures
            final(self).wf(),
            match r {
                Ok(event) => old(self)@.mint_error(caller@, attached_deposit) is None && final(self)@
                    == old(self)@.mint_next(old(self)@.minted(receiver_id@, token_metadata@, now))
                    && event.owner_id@ == receiver_id@ && texts(event.token_ids@) == seq![
                    decimal_text(old(self)@.next_token_id as nat),
                ] && event.memo is None,
                Err(e) => old(self)@.mint_error(caller@, attached_deposit) == Some(e) && final(self)@
                    == old(self)@,
            },
    {
        if !self.is_minting_enabled {
            return Err(NftError::MintingDisabled);
        }
        proof {
            self.lemma_keys();
        }
        if !(contains_key(&self.approved_minters, caller) || attached_deposit >= self.mint_price) {
            return Err(NftError::NotAuthorizedMinter);
        }
        if self.next_token_id == u64::MAX {
            return Err(NftError::ArithmeticOverflow);
        }
        let token_id = u64_to_string(self.next_token_id);
        let ghost t = old(self)@.minted(receiver_id@, token_metadata@, now);
        let mut metadata = token_metadata;
        metadata.created_at = now;
        metadata.play_count = 0;
        metadata.like_count = 0;
        let mut royalties: Vec<RoyaltyShare> = Vec::new();
        royalties.push(RoyaltyShare { account: metadata.creator.clone(), value: CREATOR_ROYALTY });
        assert(royalty_shares(royalties@) =~= seq![(token_metadata@.creator, CREATOR_ROYALTY)]);
        let record = TokenRecord {
            token_id: token_id.clone(),
            metadata,
            owner_id: receiver_id.clone(),
            next_approval_id: 1,
            royalties,
            analytics: VoiceAnalytics {
                total_plays: 0,
                unique_listeners: 0,
                total_earnings: 0,
                geographic_distribution: Vec::new(),
                device_types: Vec::new(),
                listening_duration: Vec::new(),
                peak_listening_times: Vec::new(),
                user_ratings: Vec::new(),
                comments_count: 0,
                shares_count: 0,
                bookmarks_count: 0,
            },
        };
        proof {
            assert(record@.analytics.geographic_distribution =~= fresh_analytics().geographic_distribution);
            assert(record@.analytics.device_types =~= fresh_analytics().device_types);
            assert(record@.analytics =~= fresh_analytics());
            assert(record@ == t);
            assert(count_names(t.analytics.geographic_distribution) =~= Seq::<Seq<char>>::empty());
            lemma_mint_wf(self@, t);
        }
        self.tokens.push(record);
        add_token(&mut self.tokens_per_owner, &receiver_id, &token_id);
        self.next_token_id = self.next_token_id + 1;
        proof {
            assert(self@.tokens =~= old(self)@.tokens.push(t));
            assert(self@ =~= old(self)@.mint_next(t));
        }
        let mut token_ids: Vec<String> = Vec::new();
        token_ids.push(token_id);
        assert(texts(token_ids@) =~= seq![decimal_text(old(self)@.next_token_id as nat)]);
        Ok(VoiceNFTMintEvent { owner_id: receiver_id, token_ids, memo: None })
    }

    /// Moves the token `token_id` from `sender_id`, its owner, to `receiver_id`.
    fn internal_transfer(
        &mut self,
        sender_id: &AccountId,
        receiver_id: &AccountId,
        token_id: &String,
        approval_id: Option<u64>,
        memo: Option<String>,
    ) -> (r: Result<VoiceNFTTransferEvent, NftError>)
        requires
            old(self).wf(),
        ensures
            final(self).wf(),
            match r {
                Ok(event) => old(self)@.transfer_error(sender_id@, receiver_id@, token_id@) is None
                    && final(self)@ == old(self)@.transfer_next(sender_id@, receiver_id@, token_id@)
                    && event.old_owner_id@ == sender_id@ && event.new_owner_id@ == receiver_id@ && texts(
                    event.token_ids@,
                ) == seq![token_id@] && event.authorized_id is None && opt_text(event.memo) == opt_text(
                    memo,
                ),
                Err(e) => old(self)@.transfer_error(sender_id@, receiver_id@, token_id@) == Some(e)
                    && final(self)@ == old(self)@,
            },
    {
        proof {
            self.lemma_keys();
        }
        let at: usize = match find(&self.tokens, token_id) {
            Some(i) => i,
            None => {
                return Err(NftError::TokenNotFound);
            },
        };
        proof {
            lemma_position(record_ids(self@.tokens), token_id@, at as int);
        }
        if !(self.tokens[at].owner_id == *sender_id) {
            return Err(NftError::NotTokenOwner);
        }
        if *sender_id == *receiver_id {
            return Err(NftError::CannotTransferToSelf);
        }
        proof {
            lemma_transfer_wf(self@, sender_id@, receiver_id@, token_id@);
            lemma_taken(self@.tokens_per_owner, sender_id@, token_id@);
        }
        self.tokens[at].owner_id = receiver_id.clone();
        take_token(&mut self.tokens_per_owner, sender_id, token_id);
        add_token(&mut self.tokens_per_owner, receiver_id, token_id);
        proof {
            let n = old(self)@.transfer_next(sender_id@, receiver_id@, token_id@);
            assert(self@.tokens =~= n.tokens);
            assert(self@ =~= n);
        }
        let mut token_ids: Vec<String> = Vec::new();
        token_ids.push(token_id.clone());
        assert(texts(token_ids@) =~= seq![token_id@]);
        Ok(
            VoiceNFTTransferEvent {
                old_owner_id: sender_id.clone(),
                new_owner_id: receiver_id.clone(),
                token_ids,
                authorized_id: None,
                memo,
            },
        )
    }

    /// Moves the token `token_id` from `sender`, its owner, to `receiver_id`, and
    /// hands back the notification.
    ///
    /// Fails with `TokenNotFound`, else with `NotTokenOwner`, else with
    /// `CannotTransferToSelf`.
    pub fn nft_transfer(&mut self, sender: &AccountId, receiver_id: AccountId, token_id: String, memo: Option<String>) -> (r:
        Result<VoiceNFTTransferEvent, NftError>)
        requires
            old(self).wf(),
        ensures
            final(self).wf(),
            match r {
                Ok(event) => old(self)@.transfer_error(sender@, receiver_id@, token_id@) is None && final(self)@ == old(self)@.transfer_next(sender@, receiver_id@, token_id@) && event.old_owner_id@
                    == sender@ && event.new_owner_id@ == receiver_id@ && texts(event.token_ids@) == seq![
                    token_id@,
                ] && event.authorized_id is None && opt_text(event.memo) == opt_text(memo),
                Err(e) => old(self)@.transfer_error(sender@, receiver_id@, token_id@) == Some(e) && final(self)@ == old(self)@,
            },
    {
        self.internal_transfer(sender, &receiver_id, &token_id, None, memo)
    }

    /// Moves the token as `nft_transfer` does; the message for the receiver is
    /// not passed on.
    pub fn nft_transfer_call(
        &mut self,
        sender: &AccountId,
        receiver_id: AccountId,
        token_id: String,
        memo: Option<String>,
        msg: String,
    ) -> (r: Result<VoiceNFTTransferEvent, NftError>)
        requires
            old(self).wf(),
        ensures
            final(self).wf(),
            match r {
                Ok(event) => old(self)@.transfer_error(sender@, receiver_id@, token_id@) is None && final(self)@ == old(self)@.transfer_next(sender@, receiver_id@, token_id@) && event.old_owner_id@
                    == sender@ && event.new_owner_id@ == receiver_id@ && texts(event.token_ids@) == seq![
                    token_id@,
                ] && event.authorized_id is None && opt_text(event.memo) == opt_text(memo),
                Err(e) => old(self)@.transfer_error(sender@, receiver_id@, token_id@) == Some(e) && final(self)@ == old(self)@,
            },
    {
        self.internal_transfer(sender, &receiver_id, &token_id, None, memo)
    }

    /// The metadata of the token `token_id`, if there is one.
    pub fn nft_token(&self, token_id: String) -> (r: Option<VoiceNFTMetadata>)
        requires
            self.wf(),
        ensures
            match r {
                Some(m) => self@.has_token(token_id@) && m@ == self@.token(token_id@).metadata,
                None => !self@.has_token(token_id@),
            },
    {
        proof {
            self.lemma_keys();
        }
        match find(&self.tokens, &token_id) {
            Some(i) => {
                proof {
                    lemma_position(record_ids(self@.tokens), token_id@, i as int);
                }
                Some(self.tokens[i].metadata.clone())
            },
            None => None,
        }
    }

    /// The owner of the token `token_id`, if there is one.
    pub fn nft_owner(&self, token_id: String) -> (r: Option<AccountId>)
        requires
            self.wf(),
        ensures
            match r {
                Some(o) => self@.has_token(token_id@) && o@ == self@.token(token_id@).owner_id,
                None => !self@.has_token(token_id@),
            },
    {
        proof {
            self.lemma_keys();
        }
        match find(&self.tokens, &token_id) {
            Some(i) => {
                proof {
                    lemma_position(record_ids(self@.tokens), token_id@, i as int);
                }
                Some(self.tokens[i].owner_id.clone())
            },
            None => None,
        }
    }

    /// The number of tokens.
    pub fn nft_total_supply(&self) -> (r: u128)
        ensures
            r == self@.tokens.len(),
    {
        assert(self.tokens@.len() == record_models(self.tokens@).len());
        self.tokens.len() as u128
    }

    /// The metadata of the tokens from place `from_index` on (from the first
    /// where none is given), `limit` of them at most (50 where none is given),
    /// in the order of their numbers.
    pub fn nft_tokens(&self, from_index: Option<u128>, limit: Option<u64>) -> (r: Vec<VoiceNFTMetadata>)
        ensures
            metadata_models(r@) == page(
                record_metadata(self@.tokens),
                from_index.unwrap_or(0) as nat,
                limit.unwrap_or(50) as nat,
            ),
    {
        let n: usize = self.tokens.len();
        let from: u128 = match from_index {
            Some(v) => v,
            None => 0,
        };
        let most: u64 = match limit {
            Some(v) => v,
            None => 50,
        };
        let mut r: Vec<VoiceNFTMetadata> = Vec::new();
        let ghost all = record_metadata(record_models(self.tokens@));
        if from >= n as u128 {
            assert(metadata_models(r@) =~= Seq::<VoiceNFTMetadataModel>::empty());
            return r;
        }
        let start: usize = from as usize;
        let end: usize = if most as u128 >= (n - start) as u128 {
            n
        } else {
            start + most as usize
        };
        let mut i: usize = start;
        assert(metadata_models(r@) =~= all.subrange(start as int, i as int));
        while i < end
            invariant
                start <= i <= end <= n,
                n == self.tokens.len(),
                all == record_metadata(record_models(self.tokens@)),
                metadata_models(r@) == all.subrange(start as int, i as int),
            decreases end - i,
        {
            let ghost before = metadata_models(r@);
            r.push(self.tokens[i].metadata.clone());
            assert(metadata_models(r@) =~= before.push(all[i as int]));
            assert(before.push(all[i as int]) =~= all.subrange(start as int, i + 1));
            i += 1;
        }
        r
    }

    /// The metadata of the tokens of `account_id` from place `from_index` of
    /// its tokens on (from the first where none is given), `limit` of them at
    /// most (50 where none is given), in the order in which the index is walked.
    pub fn nft_tokens_for_owner(&self, account_id: AccountId, from_index: Option<u128>, limit: Option<u64>) -> (r:
        Vec<VoiceNFTMetadata>)
        requires
            self.wf(),
        ensures
            metadata_models(r@) == page(
                tokens_of(self@.tokens_per_owner, account_id@),
                from_index.unwrap_or(0) as nat,
                limit.unwrap_or(50) as nat,
            ).map_values(|id: Seq<char>| self@.token(id).metadata),
    {
        proof {
            self.lemma_keys();
        }
        let ghost owned = tokens_of(self@.tokens_per_owner, account_id@);
        let ghost shown = owned.map_values(|id: Seq<char>| self@.token(id).metadata);
        let mut r: Vec<VoiceNFTMetadata> = Vec::new();
        let entry: usize = match find(&self.tokens_per_owner, &account_id) {
            Some(i) => i,
            None => {
                assert(metadata_models(r@) =~= Seq::<Seq<char>>::empty().map_values(
                    |id: Seq<char>| self@.token(id).metadata,
                ));
                return r;
            },
        };
        proof {
            lemma_position(index_owners(self@.tokens_per_owner), account_id@, entry as int);
        }
        let ids = &self.tokens_per_owner[entry].token_ids;
        assert(texts(ids@) == owned);
        let n: usize = ids.len();
        let from: u128 = match from_index {
            Some(v) => v,
            None => 0,
        };
        let most: u64 = match limit {
            Some(v) => v,
            None => 50,
        };
        if from >= n as u128 {
            assert(metadata_models(r@) =~= Seq::<Seq<char>>::empty().map_values(
                |id: Seq<char>| self@.token(id).metadata,
            ));
            return r;
        }
        let start: usize = from as usize;
        let end: usize = if most as u128 >= (n - start) as u128 {
            n
        } else {
            start + most as usize
        };
        let mut i: usize = start;
        assert(metadata_models(r@) =~= shown.subrange(start as int, i as int));
        while i < end
            invariant
                start <= i <= end <= n,
                n == ids.len(),
                self.wf(),
                texts(ids@) == owned,
                owned == tokens_of(self@.tokens_per_owner, account_id@),
                shown == owned.map_values(|id: Seq<char>| self@.token(id).metadata),
                keys_of(self.tokens@) == record_ids(self@.tokens),
                record_ids(self@.tokens).no_duplicates(),
                metadata_models(r@) == shown.subrange(start as int, i as int),
            decreases end - i,
        {
            let ghost before = metadata_models(r@);
            let ghost id = owned[i as int];
            assert(owned.contains(id));
            assert(self@.has_token(id));
            match find(&self.tokens, &ids[i]) {
                Some(t) => {
                    proof {
                        lemma_position(record_ids(self@.tokens), id, t as int);
                    }
                    r.push(self.tokens[t].metadata.clone());
                },
                None => {},
            }
            assert(metadata_models(r@) =~= before.push(shown[i as int]));
            assert(before.push(shown[i as int]) =~= shown.subrange(start as int, i + 1));
            i += 1;
        }
        assert(shown.subrange(start as int, end as int) =~= owned.subrange(start as int, end as int).map_values(
            |id: Seq<char>| self@.token(id).metadata,
        ));
        r
    }

    /// The number of tokens of `account_id`.
    pub fn nft_supply_for_owner(&self, account_id: AccountId) -> (r: u128)
        requires
            self.wf(),
        ensures
            r == tokens_of(self@.tokens_per_owner, account_id@).len(),
    {
        proof {
            self.lemma_keys();
        }
        match find(&self.tokens_per_owner, &account_id) {
            Some(i) => {
                proof {
                    lemma_position(index_owners(self@.tokens_per_owner), account_id@, i as int);
                }
                let n: usize = self.tokens_per_owner[i].token_ids.len();
                assert(n == texts(self.tokens_per_owner[i as int].token_ids@).len());
                n as u128
            },
            None => 0,
        }
    }

    /// Records one play of the token `token_id` of `duration` seconds at `now`,
    /// from `location` where given. Only the owner of the contract may.
    ///
    /// Fails with `Unauthorized`, else with `TokenNotFound`, else with
    /// `ArithmeticOverflow` where a count would leave its range.
    pub fn record_play(
        &mut self,
        caller: &AccountId,
        token_id: String,
        listener: AccountId,
        duration: u64,
        location: Option<String>,
        now: u64,
    ) -> (r: Result<(), NftError>)
        requires
            old(self).wf(),
        ensures
            final(self).wf(),
            match r {
                Ok(_) => old(self)@.play_error(caller@, token_id@, opt_text(location)) is None && final(self)@ == old(self)@.with_record(
                    token_id@,
                    NftState::played(old(self)@.token(token_id@), duration, opt_text(location), now),
                ),
                Err(e) => old(self)@.play_error(caller@, token_id@, opt_text(location)) == Some(e) && final(self)@ == old(self)@,
            },
    {
        if !(*caller == self.owner_id) {
            return Err(NftError::Unauthorized);
        }
        proof {
            self.lemma_keys();
        }
        let at: usize = match find(&self.tokens, &token_id) {
            Some(i) => i,
            None => {
                return Err(NftError::TokenNotFound);
            },
        };
        proof {
            lemma_position(record_ids(self@.tokens), token_id@, at as int);
        }
        let ghost before = old(self)@.token(token_id@);
        let ghost places = before.analytics.geographic_distribution;
        proof {
            assert(keys_of(self.tokens[at as int].analytics.geographic_distribution@) =~= count_names(places));
        }
        if self.tokens[at].analytics.total_plays == u64::MAX {
            return Err(NftError::ArithmeticOverflow);
        }
        let slot: Option<usize> = match &location {
            Some(place) => {
                let found = find(&self.tokens[at].analytics.geographic_distribution, place);
                match found {
                    Some(k) => {
                        proof {
                            lemma_position(count_names(places), place@, k as int);
                        }
                        if self.tokens[at].analytics.geographic_distribution[k].count == u64::MAX {
                            return Err(NftError::ArithmeticOverflow);
                        }
                    },
                    None => {},
                }
                found
            },
            None => None,
        };
        if self.tokens[at].metadata.play_count == u64::MAX {
            return Err(NftError::ArithmeticOverflow);
        }
        let ghost after = NftState::played(before, duration, opt_text(location), now);
        proof {
            if location is Some {
                lemma_counted(places, location->0@);
            }
            lemma_with_record_wf(self@, token_id@, after);
        }
        self.tokens[at].analytics.total_plays = self.tokens[at].analytics.total_plays + 1;
        self.tokens[at].analytics.listening_duration.push(duration);
        self.tokens[at].analytics.peak_listening_times.push(now);
        match location {
            Some(place) => {
                match slot {
                    Some(k) => {
                        self.tokens[at].analytics.geographic_distribution[k].count =
                            self.tokens[at].analytics.geographic_distribution[k].count + 1;
                    },
                    None => {
                        self.tokens[at].analytics.geographic_distribution.push(
                            NamedCount { name: place, count: 1 },
                        );
                    },
                }
                proof {
                    assert(named_counts(self.tokens[at as int].analytics.geographic_distribution@) =~= counted(
                        places,
                        place@,
                    ));
                }
            },
            None => {},
        }
        self.tokens[at].metadata.play_count = self.tokens[at].metadata.play_count + 1;
        proof {
            assert(self.tokens@[at as int]@.analytics =~= after.analytics);
            assert(self.tokens@[at as int]@ == after);
            assert(self@.tokens =~= old(self)@.with_record(token_id@, after).tokens);
            assert(self@ =~= old(self)@.with_record(token_id@, after));
        }
        Ok(())
    }

    /// Counts one more like of the token `token_id`.
    ///
    /// Fails with `TokenNotFound`, else with `ArithmeticOverflow` where the count
    /// would leave its range.
    pub fn like_nft(&mut self, token_id: String) -> (r: Result<(), NftError>)
        requires
            old(self).wf(),
        ensures
            final(self).wf(),
            match r {
                Ok(_) => old(self)@.has_token(token_id@) && old(self)@.token(token_id@).metadata.like_count
                    < u64::MAX && final(self)@ == old(self)@.with_record(
                    token_id@,
                    NftState::liked(old(self)@.token(token_id@)),
                ),
                Err(e) => final(self)@ == old(self)@ && if !old(self)@.has_token(token_id@) {
                    e == NftError::TokenNotFound
                } else {
                    e == NftError::ArithmeticOverflow && old(self)@.token(token_id@).metadata.like_count
                        == u64::MAX
                },
            },
    {
        proof {
            self.lemma_keys();
        }
        let at: usize = match find(&self.tokens, &token_id) {
            Some(i) => i,
            None => {
                return Err(NftError::TokenNotFound);
            },
        };
        proof {
            lemma_position(record_ids(self@.tokens), token_id@, at as int);
        }
        if self.tokens[at].metadata.like_count == u64::MAX {
            return Err(NftError::ArithmeticOverflow);
        }
        let ghost after = NftState::liked(old(self)@.token(token_id@));
        proof {
            assert(old(self)@.tokens[at as int].token_id == decimal_text((at + 1) as nat));
            lemma_with_record_wf(self@, token_id@, after);
        }
        self.tokens[at].metadata.like_count = self.tokens[at].metadata.like_count + 1;
        proof {
            assert(self@.tokens =~= old(self)@.with_record(token_id@, after).tokens);
            assert(self@ =~= old(self)@.with_record(token_id@, after));
        }
        Ok(())
    }

    /// Puts the analysis on the token `token_id`. Only the owner of the contract may.
    ///
    /// Fails with `Unauthorized`, else with `TokenNotFound`.
    pub fn update_ai_analysis(&mut self, caller: &AccountId, token_id: String, ai_analysis: AIAnalysis) -> (r:
        Result<(), NftError>)
        requires
            old(self).wf(),
        ensures
            final(self).wf(),
            match r {
                Ok(_) => caller@ == old(self)@.owner_id && old(self)@.has_token(token_id@) && final(self)@
                    == old(self)@.with_record(
                    token_id@,
                    TokenRecordModel {
                        metadata: VoiceNFTMetadataModel {
                            ai_analysis: Some(ai_analysis@),
                            ..old(self)@.token(token_id@).metadata
                        },
                        ..old(self)@.token(token_id@)
                    },
                ),
                Err(e) => final(self)@ == old(self)@ && if caller@ != old(self)@.owner_id {
                    e == NftError::Unauthorized
                } else {
                    e == NftError::TokenNotFound && !old(self)@.has_token(token_id@)
                },
            },
    {
        if !(*caller == self.owner_id) {
            return Err(NftError::Unauthorized);
        }
        proof {
            self.lemma_keys();
        }
        let at: usize = match find(&self.tokens, &token_id) {
            Some(i) => i,
            None => {
                return Err(NftError::TokenNotFound);
            },
        };
        proof {
            lemma_position(record_ids(self@.tokens), token_id@, at as int);
        }
        let ghost before = old(self)@.token(token_id@);
        let ghost after = TokenRecordModel {
            metadata: VoiceNFTMetadataModel { ai_analysis: Some(ai_analysis@), ..before.metadata },
            ..before
        };
        proof {
            lemma_with_record_wf(self@, token_id@, after);
        }
        self.tokens[at].metadata.ai_analysis = Some(ai_analysis);
        proof {
            assert(self@.tokens =~= old(self)@.with_record(token_id@, after).tokens);
            assert(self@ =~= old(self)@.with_record(token_id@, after));
        }
        Ok(())
    }

    /// What is known of the plays of the token `token_id`, if there is one.
    pub fn get_analytics(&self, token_id: String) -> (r: Option<VoiceAnalytics>)
        requires
            self.wf(),
        ensures
            match r {
                Some(a) => self@.has_token(token_id@) && a@ == self@.token(token_id@).analytics,
                None => !self@.has_token(token_id@),
            },
    {
        proof {
            self.lemma_keys();
        }
        match find(&self.tokens, &token_id) {
            Some(i) => {
                proof {
                    lemma_position(record_ids(self@.tokens), token_id@, i as int);
                }
                Some(self.tokens[i].analytics.clone())
            },
            None => None,
        }
    }

    /// The shares of the royalty of the token `token_id`, if there is one.
    pub fn get_royalties(&self, token_id: String) -> (r: Option<Vec<RoyaltyShare>>)
        requires
            self.wf(),
        ensures
            match r {
                Some(shares) => self@.has_token(token_id@) && royalty_shares(shares@) == self@.token(
                    token_id@,
                ).royalties,
                None => !self@.has_token(token_id@),
            },
    {
        proof {
            self.lemma_keys();
        }
        match find(&self.tokens, &token_id) {
            Some(i) => {
                proof {
                    lemma_position(record_ids(self@.tokens), token_id@, i as int);
                }
                Some(clone_royalty_shares(&self.tokens[i].royalties))
            },
            None => None,
        }
    }

    /// Replaces the shares of the royalty of the token `token_id`. The owner of
    /// the token may, and the owner of the contract.
    ///
    /// Fails with `TokenNotFound`, else with `Unauthorized`.
    pub fn set_royalties(&mut self, caller: &AccountId, token_id: String, royalties: Vec<RoyaltyShare>) -> (r:
        Result<(), NftError>)
        requires
            old(self).wf(),
        ensures
            final(self).wf(),
            match r {
                Ok(_) => old(self)@.has_token(token_id@) && (caller@ == old(self)@.token(token_id@).owner_id
                    || caller@ == old(self)@.owner_id) && final(self)@ == old(self)@.with_record(
                    token_id@,
                    TokenRecordModel {
                        royalties: royalty_shares(royalties@),
                        ..old(self)@.token(token_id@)
                    },
                ),
                Err(e) => final(self)@ == old(self)@ && if !old(self)@.has_token(token_id@) {
                    e == NftError::TokenNotFound
                } else {
                    e == NftError::Unauthorized && caller@ != old(self)@.token(token_id@).owner_id && caller@
                        != old(self)@.owner_id
                },
            },
    {
        proof {
            self.lemma_keys();
        }
        let at: usize = match find(&self.tokens, &token_id) {
            Some(i) => i,
            None => {
                return Err(NftError::TokenNotFound);
            },
        };
        proof {
            lemma_position(record_ids(self@.tokens), token_id@, at as int);
        }
        if !(*caller == self.tokens[at].owner_id || *caller == self.owner_id) {
            return Err(NftError::Unauthorized);
        }
        let ghost after = TokenRecordModel {
            royalties: royalty_shares(royalties@),
            ..old(self)@.token(token_id@)
        };
        proof {
            lemma_with_record_wf(self@, token_id@, after);
        }
        self.tokens[at].royalties = royalties;
        proof {
            assert(self@.tokens =~= old(self)@.with_record(token_id@, after).tokens);
            assert(self@ =~= old(self)@.with_record(token_id@, after));
        }
        Ok(())
    }

    /// Sets the price of a mint. Only the owner may.
    pub fn set_mint_price(&mut self, caller: &AccountId, price: u128) -> (r: Result<(), NftError>)
        ensures
            match r {
                Ok(_) => caller@ == old(self)@.owner_id && final(self)@ == (NftState {
                    mint_price: price,
                    ..old(self)@
                }),
                Err(e) => e == NftError::Unauthorized && caller@ != old(self)@.owner_id && final(self)@
                    == old(self)@,
            },
    {
        if !(*caller == self.owner_id) {
            return Err(NftError::Unauthorized);
        }
        self.mint_price = price;
        proof {
            assert(self@ =~= (NftState { mint_price: price, ..old(self)@ }));
        }
        Ok(())
    }

    /// Enables minting where it is disabled, and disables it where it is
    /// enabled. Only the owner may.
    pub fn toggle_minting(&mut self, caller: &AccountId) -> (r: Result<(), NftError>)
        ensures
            match r {
                Ok(_) => caller@ == old(self)@.owner_id && final(self)@ == (NftState {
                    is_minting_enabled: !old(self)@.is_minting_enabled,
                    ..old(self)@
                }),
                Err(e) => e == NftError::Unauthorized && caller@ != old(self)@.owner_id && final(self)@
                    == old(self)@,
            },
    {
        if !(*caller == self.owner_id) {
            return Err(NftError::Unauthorized);
        }
        self.is_minting_enabled = !self.is_minting_enabled;
        proof {
            assert(self@ =~= (NftState {
                is_minting_enabled: !old(self)@.is_minting_enabled,
                ..old(self)@
            }));
        }
        Ok(())
    }

    /// Puts `minter` among the approved minters. Only the owner may.
    pub fn add_approved_minter(&mut self, caller: &AccountId, minter: AccountId) -> (r: Result<(), NftError>)
        requires
            old(self).wf(),
        ensures
            final(self).wf(),
            match r {
                Ok(_) => caller@ == old(self)@.owner_id && final(self)@ == old(self)@.with_minter(minter@),
                Err(e) => e == NftError::Unauthorized && caller@ != old(self)@.owner_id && final(self)@
                    == old(self)@,
            },
    {
        if !(*caller == self.owner_id) {
            return Err(NftError::Unauthorized);
        }
        proof {
            self.lemma_keys();
        }
        if !contains_key(&self.approved_minters, &minter) {
            proof {
                lemma_push_fresh(self@.approved_minters, minter@);
            }
            self.approved_minters.push(minter);
            proof {
                assert(self@.approved_minters =~= old(self)@.approved_minters.push(minter@));
                assert(self@ =~= old(self)@.with_minter(minter@));
            }
        }
        Ok(())
    }

    /// Takes `minter` from among the approved minters. Only the owner may.
    pub fn remove_approved_minter(&mut self, caller: &AccountId, minter: AccountId) -> (r: Result<
        (),
        NftError,
    >)
        requires
            old(self).wf(),
        ensures
            final(self).wf(),
            match r {
                Ok(_) => caller@ == old(self)@.owner_id && final(self)@ == old(self)@.without_minter(minter@),
                Err(e) => e == NftError::Unauthorized && caller@ != old(self)@.owner_id && final(self)@
                    == old(self)@,
            },
    {
        if !(*caller == self.owner_id) {
            return Err(NftError::Unauthorized);
        }
        proof {
            self.lemma_keys();
        }
        match find(&self.approved_minters, &minter) {
            Some(i) => {
                proof {
                    lemma_position(self@.approved_minters, minter@, i as int);
                    lemma_swap_removed(self@.approved_minters, i as int);
                }
                let _ = self.approved_minters.swap_remove(i);
                proof {
                    assert(self@.approved_minters =~= swap_removed(old(self)@.approved_minters, i as int));
                    assert(self@ =~= old(self)@.without_minter(minter@));
                }
            },
            None => {},
        }
        Ok(())
    }

    /// The metadata of the contract: keys and values.
    pub fn get_contract_metadata(&self) -> (r: Vec<(String, String)>)
        ensures
            text_pairs(r@) == self@.contract_metadata,
    {
        let mut r: Vec<(String, String)> = Vec::new();
        let mut i: usize = 0;
        while i < self.contract_metadata.len()
            invariant
                i <= self.contract_metadata.len(),
                text_pairs(r@) == text_pairs(self.contract_metadata@).subrange(0, i as int),
            decreases self.contract_metadata.len() - i,
        {
            let ghost before = text_pairs(r@);
            r.push((self.contract_metadata[i].0.clone(), self.contract_metadata[i].1.clone()));
            assert(text_pairs(r@) =~= before.push(text_pairs(self.contract_metadata@)[i as int]));
            assert(text_pairs(r@) =~= text_pairs(self.contract_metadata@).subrange(0, i + 1));
            i += 1;
        }
        assert(text_pairs(self.contract_metadata@).subrange(0, i as int) =~= text_pairs(
            self.contract_metadata@,
        ));
        r
    }

    /// The approved minters, in the order in which they are walked.
    pub fn get_approved_minters(&self) -> (r: Vec<AccountId>)
        ensures
            texts(r@) == self@.approved_minters,
    {
        clone_strings(&self.approved_minters)
    }

    /// The price of a mint.
    pub fn get_mint_price(&self) -> (r: u128)
        ensures
            r == self@.mint_price,
    {
        self.mint_price
    }

    /// Whether minting is enabled.
    pub fn is_minting_enabled(&self) -> (r: bool)
        ensures
            r == self@.is_minting_enabled,
    {
        self.is_minting_enabled
    }
}

} // verus!
