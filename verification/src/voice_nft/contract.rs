//! The voice token contract itself: the state it keeps and the calls that
//! change it. Every call either succeeds and leaves the contract as its
//! contract says, or fails with the reason and leaves the contract as it was.

use crate::account::{account_id_is_valid, AccountId};
use crate::keyed::{
    contains_key, distinct_keys, find, keys_of, lemma_position, lemma_position_in_range, page,
    position, swap_removed,
};
use crate::text::{clone_opt_string, decimal_text, texts, u128_to_string, u64_to_string};
use crate::voice_nft::model::{
    accounts_valid, approval_pairs, approved_for, approved_tokens, clone_account_numbers,
    clone_royalty_shares, index_ok, index_owners, lemma_approvals, lemma_initial_wf, lemma_mint_wf,
    lemma_transfer_wf, lemma_with_token, lemma_without_token, opt_royalty_shares, owner_tokens,
    royalty_shares, token_ids, token_models, token_to_view, token_view_models, tokens_of,
    with_approval, with_token, without_approval, without_token, ContractMetadata,
    ContractMetadataView, NftError, NftState, OwnerTokens, RoyaltyShare, TokenApproval, VoiceNFT,
    VoiceNFTMetadata, VoiceNFTMetadataView, VoiceNFTModel, VoiceNFTView,
};
use vstd::prelude::*;
use vstd::string::*;

verus! {

/// The contract.
pub struct VoiceNFTContract {
    owner_id: AccountId,
    total_supply: u128,
    tokens: Vec<VoiceNFT>,
    tokens_by_owner: Vec<OwnerTokens>,
    token_approvals: Vec<TokenApproval>,
    operator_approvals: Vec<OwnerTokens>,
    metadata: ContractMetadata,
    next_token_id: u128,
}

impl View for VoiceNFTContract {
    type V = NftState;

    closed spec fn view(&self) -> NftState {
        NftState {
            owner_id: self.owner_id@,
            total_supply: self.total_supply,
            tokens: token_models(self.tokens@),
            tokens_by_owner: owner_tokens(self.tokens_by_owner@),
            token_approvals: approval_pairs(self.token_approvals@),
            operator_approvals: owner_tokens(self.operator_approvals@),
            metadata: self.metadata@,
            next_token_id: self.next_token_id,
        }
    }
}

/// The whole state of a contract as plain records, for keeping it between
/// calls. Not every such value is the state of a contract: see [`NftState::wf`].
#[derive(Debug)]
pub struct NftSnapshot {
    pub owner_id: AccountId,
    pub total_supply: u128,
    pub tokens: Vec<VoiceNFT>,
    pub tokens_by_owner: Vec<OwnerTokens>,
    pub token_approvals: Vec<TokenApproval>,
    pub operator_approvals: Vec<OwnerTokens>,
    pub metadata: ContractMetadata,
    pub next_token_id: u128,
}

impl View for NftSnapshot {
    type V = NftState;

    open spec fn view(&self) -> NftState {
        NftState {
            owner_id: self.owner_id@,
            total_supply: self.total_supply,
            tokens: token_models(self.tokens@),
            tokens_by_owner: owner_tokens(self.tokens_by_owner@),
            token_approvals: approval_pairs(self.token_approvals@),
            operator_approvals: owner_tokens(self.operator_approvals@),
            metadata: self.metadata@,
            next_token_id: self.next_token_id,
        }
    }
}

/// Whether every account of the list is an account name.
fn royalty_is_valid(royalty: &Vec<RoyaltyShare>) -> (ok: bool)
    ensures
        ok == accounts_valid(royalty_shares(royalty@)),
{
    let ghost shares = royalty_shares(royalty@);
    let mut i: usize = 0;
    while i < royalty.len()
        invariant
            i <= royalty.len(),
            shares == royalty_shares(royalty@),
            forall|j: int| 0 <= j < i ==> crate::account::valid_account_id((#[trigger] shares[j]).0),
        decreases royalty.len() - i,
    {
        if !account_id_is_valid(royalty[i].account.as_str()) {
            assert(!crate::account::valid_account_id(shares[i as int].0));
            return false;
        }
        i += 1;
    }
    true
}

/// Puts `id` among the tokens of `owner`.
fn add_token(index: &mut Vec<OwnerTokens>, owner: &AccountId, id: &String)
    requires
        index_ok(owner_tokens(old(index)@)),
    ensures
        owner_tokens(final(index)@) == with_token(owner_tokens(old(index)@), owner@, id@),
        index_ok(owner_tokens(final(index)@)),
{
    proof {
        assert(keys_of(index@) =~= index_owners(owner_tokens(index@)));
        lemma_with_token(owner_tokens(index@), owner@, id@);
    }
    match find(index, owner) {
        Some(i) => {
            proof {
                lemma_position(index_owners(owner_tokens(index@)), owner@, i as int);
                assert(keys_of(index[i as int].token_ids@) =~= texts(index[i as int].token_ids@));
                assert(owner_tokens(index@)[i as int].1 == texts(index[i as int].token_ids@));
            }
            if !contains_key(&index[i].token_ids, id) {
                index[i].token_ids.push(id.clone());
                proof {
                    assert(texts(index[i as int].token_ids@) =~= texts(old(index)[i as int].token_ids@).push(
                        id@,
                    ));
                }
            }
            proof {
                assert(owner_tokens(index@) =~= with_token(owner_tokens(old(index)@), owner@, id@));
            }
        },
        None => {
            let mut ids: Vec<String> = Vec::new();
            ids.push(id.clone());
            assert(texts(ids@) =~= seq![id@]);
            index.push(OwnerTokens { owner: owner.clone(), token_ids: ids });
            proof {
                assert(owner_tokens(index@) =~= with_token(owner_tokens(old(index)@), owner@, id@));
            }
        },
    }
}

/// Takes `id` from among the tokens of `owner`.
fn remove_token(index: &mut Vec<OwnerTokens>, owner: &AccountId, id: &String)
    requires
        index_ok(owner_tokens(old(index)@)),
    ensures
        owner_tokens(final(index)@) == without_token(owner_tokens(old(index)@), owner@, id@),
        index_ok(owner_tokens(final(index)@)),
{
    proof {
        assert(keys_of(index@) =~= index_owners(owner_tokens(index@)));
        lemma_without_token(owner_tokens(index@), owner@, id@);
    }
    match find(index, owner) {
        Some(i) => {
            proof {
                lemma_position(index_owners(owner_tokens(index@)), owner@, i as int);
                assert(keys_of(index[i as int].token_ids@) =~= texts(index[i as int].token_ids@));
                assert(owner_tokens(index@)[i as int].1 == texts(index[i as int].token_ids@));
            }
            match find(&index[i].token_ids, id) {
                Some(k) => {
                    proof {
                        lemma_position(texts(index[i as int].token_ids@), id@, k as int);
                    }
                    let _ = index[i].token_ids.swap_remove(k);
                    proof {
                        assert(texts(index[i as int].token_ids@) =~= swap_removed(
                            texts(old(index)[i as int].token_ids@),
                            k as int,
                        ));
                    }
                },
                None => {},
            }
            if index[i].token_ids.len() == 0 {
                let _ = index.swap_remove(i);
                proof {
                    assert(owner_tokens(index@) =~= without_token(owner_tokens(old(index)@), owner@, id@));
                }
            } else {
                proof {
                    assert(owner_tokens(index@) =~= without_token(owner_tokens(old(index)@), owner@, id@));
                }
            }
        },
        None => {},
    }
}

/// Whether no owner is in `index` twice and no owner has a token twice or none.
fn index_in_order(index: &Vec<OwnerTokens>) -> (ok: bool)
    ensures
        ok == index_ok(owner_tokens(index@)),
{
    let ghost table = owner_tokens(index@);
    proof {
        assert(keys_of(index@) =~= index_owners(table));
    }
    if !distinct_keys(index) {
        return false;
    }
    let mut i: usize = 0;
    while i < index.len()
        invariant
            i <= index.len(),
            table == owner_tokens(index@),
            forall|j: int| 0 <= j < i ==> (#[trigger] table[j]).1.no_duplicates() && table[j].1.len() > 0,
        decreases index.len() - i,
    {
        proof {
            assert(keys_of(index[i as int].token_ids@) =~= texts(index[i as int].token_ids@));
        }
        if index[i].token_ids.len() == 0 || !distinct_keys(&index[i].token_ids) {
            assert(!(table[i as int].1.no_duplicates() && table[i as int].1.len() > 0));
            return false;
        }
        i += 1;
    }
    true
}

impl NftSnapshot {
    /// Whether the state is that of a contract: see [`NftState::wf`].
    pub fn is_well_formed(&self) -> (ok: bool)
        ensures
            ok == self@.wf(),
    {
        let ghost s = self@;
        let ghost ids = token_ids(s.tokens);
        let ghost index = s.tokens_by_owner;
        proof {
            assert(keys_of(self.tokens@) =~= ids);
            assert(keys_of(self.tokens_by_owner@) =~= index_owners(index));
            assert(keys_of(self.token_approvals@) =~= approved_tokens(s.token_approvals));
            assert(keys_of(self.operator_approvals@) =~= index_owners(s.operator_approvals));
        }
        let n: usize = self.tokens.len();
        if !distinct_keys(&self.tokens) || self.total_supply != n as u128 || self.next_token_id != n as u128
            + 1 || !index_in_order(&self.tokens_by_owner) || !distinct_keys(&self.token_approvals)
            || !distinct_keys(&self.operator_approvals) {
            return false;
        }
        // Each token that the index has for an owner is a token of that owner.
        let mut o: usize = 0;
        while o < self.tokens_by_owner.len()
            invariant
                o <= self.tokens_by_owner.len(),
                s == self@,
                ids == token_ids(s.tokens),
                index == s.tokens_by_owner,
                ids.no_duplicates(),
                index_ok(index),
                keys_of(self.tokens@) == ids,
                forall|a: int, b: int|
                    0 <= a < o && 0 <= b < index[a].1.len() ==> s.has_token(#[trigger] index[a].1[b])
                        && s.token(index[a].1[b]).owner_id == index[a].0,
            decreases self.tokens_by_owner.len() - o,
        {
            let entry = &self.tokens_by_owner[o];
            let mut k: usize = 0;
            while k < entry.token_ids.len()
                invariant
                    k <= entry.token_ids.len(),
                    o < self.tokens_by_owner.len(),
                    entry == &self.tokens_by_owner[o as int],
                    s == self@,
                    ids == token_ids(s.tokens),
                    index == s.tokens_by_owner,
                    ids.no_duplicates(),
                    index_ok(index),
                    keys_of(self.tokens@) == ids,
                    forall|b: int|
                        0 <= b < k ==> s.has_token(#[trigger] index[o as int].1[b]) && s.token(
                            index[o as int].1[b],
                        ).owner_id == index[o as int].0,
                decreases entry.token_ids.len() - k,
            {
                let ghost id = index[o as int].1[k as int];
                assert(id == entry.token_ids@[k as int]@);
                let found = find(&self.tokens, &entry.token_ids[k]);
                let agrees: bool = match found {
                    Some(t) => {
                        proof {
                            lemma_position(ids, id, t as int);
                        }
                        self.tokens[t].owner_id == entry.owner
                    },
                    None => false,
                };
                if !agrees {
                    proof {
                        let owner = index[o as int].0;
                        assert(index_owners(index)[o as int] == owner);
                        lemma_position(index_owners(index), owner, o as int);
                        assert(tokens_of(index, owner).contains(id));
                        assert(!(s.has_token(id) && s.token(id).owner_id == owner));
                    }
                    return false;
                }
                k += 1;
            }
            o += 1;
        }
        // Each token is in the index under its owner.
        let mut t: usize = 0;
        while t < n
            invariant
                t <= n,
                n == self.tokens.len(),
                s == self@,
                ids == token_ids(s.tokens),
                index == s.tokens_by_owner,
                ids.no_duplicates(),
                index_ok(index),
                keys_of(self.tokens_by_owner@) == index_owners(index),
                forall|j: int|
                    0 <= j < t ==> tokens_of(index, (#[trigger] s.tokens[j]).owner_id).contains(
                        s.tokens[j].token_id,
                    ),
            decreases n - t,
        {
            let listed: bool = match find(&self.tokens_by_owner, &self.tokens[t].owner_id) {
                Some(e) => {
                    proof {
                        lemma_position(index_owners(index), s.tokens[t as int].owner_id, e as int);
                        assert(keys_of(self.tokens_by_owner[e as int].token_ids@) =~= index[e as int].1);
                    }
                    contains_key(&self.tokens_by_owner[e].token_ids, &self.tokens[t].token_id)
                },
                None => false,
            };
            if !listed {
                proof {
                    let id = s.tokens[t as int].token_id;
                    let owner = s.tokens[t as int].owner_id;
                    assert(ids[t as int] == id);
                    lemma_position(ids, id, t as int);
                    assert(s.has_token(id) && s.token(id).owner_id == owner);
                    assert(!tokens_of(index, owner).contains(id));
                }
                return false;
            }
            t += 1;
        }
        proof {
            assert forall|owner: Seq<char>, id: Seq<char>| #[trigger]
                tokens_of(index, owner).contains(id) <==> s.has_token(id) && s.token(id).owner_id
                    == owner by {
                if tokens_of(index, owner).contains(id) {
                    lemma_position_in_range(index_owners(index), owner);
                    let a = position(index_owners(index), owner);
                    let b = choose|b: int| 0 <= b < index[a].1.len() && index[a].1[b] == id;
                    assert(s.has_token(index[a].1[b]));
                }
                if s.has_token(id) && s.token(id).owner_id == owner {
                    lemma_position_in_range(ids, id);
                    let j = position(ids, id);
                    assert(s.tokens[j].token_id == id);
                }
            }
        }
        true
    }
}

impl VoiceNFTContract {
    /// The contract is well formed: see [`NftState::wf`].
    pub open spec fn wf(&self) -> bool {
        self@.wf()
    }

    proof fn lemma_keys(&self)
        ensures
            keys_of(self.tokens@) == token_ids(self@.tokens),
            keys_of(self.tokens_by_owner@) == index_owners(self@.tokens_by_owner),
            keys_of(self.token_approvals@) == approved_tokens(self@.token_approvals),
            keys_of(self.operator_approvals@) == index_owners(self@.operator_approvals),
            self.tokens@.len() == self@.tokens.len(),
    {
        assert(keys_of(self.tokens@) =~= token_ids(self@.tokens));
        assert(keys_of(self.tokens_by_owner@) =~= index_owners(self@.tokens_by_owner));
        assert(keys_of(self.token_approvals@) =~= approved_tokens(self@.token_approvals));
        assert(keys_of(self.operator_approvals@) =~= index_owners(self@.operator_approvals));
    }

    /// The state of the contract as plain records.
    pub fn into_snapshot(self) -> (s: NftSnapshot)
        ensures
            s@ == self@,
    {
        NftSnapshot {
            owner_id: self.owner_id,
            total_supply: self.total_supply,
            tokens: self.tokens,
            tokens_by_owner: self.tokens_by_owner,
            token_approvals: self.token_approvals,
            operator_approvals: self.operator_approvals,
            metadata: self.metadata,
            next_token_id: self.next_token_id,
        }
    }

    /// The contract with the state `s`, where that state is well formed;
    /// nothing where it is not.
    pub fn from_snapshot(s: NftSnapshot) -> (r: Option<Self>)
        ensures
            match r {
                Some(c) => s@.wf() && c@ == s@ && c.wf(),
                None => !s@.wf(),
            },
    {
        if !s.is_well_formed() {
            return None;
        }
        Some(
            VoiceNFTContract {
                owner_id: s.owner_id,
                total_supply: s.total_supply,
                tokens: s.tokens,
                tokens_by_owner: s.tokens_by_owner,
                token_approvals: s.token_approvals,
                operator_approvals: s.operator_approvals,
                metadata: s.metadata,
                next_token_id: s.next_token_id,
            },
        )
    }

    /// A new contract, owned by `owner_id`.
    pub fn new(owner_id: AccountId) -> (c: Self)
        ensures
            c@ == NftState::initial(owner_id@),
            c.wf(),
    {
        let c = VoiceNFTContract {
            owner_id,
            total_supply: 0,
            tokens: Vec::new(),
            tokens_by_owner: Vec::new(),
            token_approvals: Vec::new(),
            operator_approvals: Vec::new(),
            metadata: ContractMetadata {
                spec: String::from_str("nft-1.0.0"),
                name: String::from_str("Voice NFT"),
                symbol: String::from_str("VNFT"),
                icon: None,
                base_uri: None,
                reference: None,
                reference_hash: None,
            },
            next_token_id: 1,
        };
        proof {
            let m = NftState::initial(owner_id@);
            assert(c@.tokens =~= m.tokens);
            assert(c@.tokens_by_owner =~= m.tokens_by_owner);
            assert(c@.token_approvals =~= m.token_approvals);
            assert(c@.operator_approvals =~= m.operator_approvals);
            assert(c@ =~= m);
            lemma_initial_wf(owner_id@);
        }
        c
    }

    /// The owner of the contract.
    pub fn owner_id(&self) -> (r: AccountId)
        ensures
            r@ == self@.owner_id,
    {
        self.owner_id.clone()
    }

    /// The textual form of a token.
    pub fn token_to_view(&self, token: &VoiceNFT) -> (r: VoiceNFTView)
        ensures
            r@ == token_to_view(token@),
    {
        VoiceNFTView {
            token_id: token.token_id.clone(),
            owner_id: token.owner_id.clone(),
            metadata: token.metadata.to_view(),
            approved_account_ids: clone_account_numbers(&token.approved_account_ids),
            royalty: match &token.royalty {
                Some(shares) => Some(clone_royalty_shares(shares)),
                None => None,
            },
            created_at: u64_to_string(token.created_at),
            updated_at: u64_to_string(token.updated_at),
        }
    }

    /// Mints the token `token_id` for `receiver_id`, and hands it back in the
    /// textual form. Only the owner of the contract may.
    ///
    /// Fails with `Unauthorized`, else with `TokenAlreadyExists`, else with
    /// `InvalidAccountId` where an account of the royalty is no account name.
    pub fn nft_mint(
        &mut self,
        caller: &AccountId,
        token_id: String,
        receiver_id: AccountId,
        metadata: VoiceNFTMetadataView,
        royalty: Option<Vec<RoyaltyShare>>,
        now: u64,
    ) -> (r: Result<VoiceNFTView, NftError>)
        requires
            old(self).wf(),
        ensures
            final(self).wf(),
            match r {
                Ok(view) => {
                    let t = NftState::minted(
                        token_id@,
                        receiver_id@,
                        metadata@,
                        opt_royalty_shares(royalty),
                        now,
                    );
                    &&& old(self)@.mint_error(caller@, token_id@, opt_royalty_shares(royalty)) is None
                    &&& final(self)@ == old(self)@.mint_next(t)
                    &&& view@ == token_to_view(t)
                },
                Err(e) => old(self)@.mint_error(caller@, token_id@, opt_royalty_shares(royalty)) == Some(e)
                    && final(self)@ == old(self)@,
            },
    {
        if !(*caller == self.owner_id) {
            return Err(NftError::Unauthorized);
        }
        proof {
            self.lemma_keys();
        }
        if contains_key(&self.tokens, &token_id) {
            return Err(NftError::TokenAlreadyExists);
        }
        match &royalty {
            Some(shares) => {
                if !royalty_is_valid(shares) {
                    return Err(NftError::InvalidAccountId);
                }
            },
            None => {},
        }
        let count: usize = self.tokens.len();
        let token = VoiceNFT {
            token_id: token_id.clone(),
            owner_id: receiver_id.clone(),
            metadata: VoiceNFTMetadata::from_view(metadata),
            approved_account_ids: Vec::new(),
            royalty,
            created_at: now,
            updated_at: now,
        };
        let ghost t = NftState::minted(token_id@, receiver_id@, metadata@, opt_royalty_shares(royalty), now);
        proof {
            assert(token@.approved_account_ids =~= t.approved_account_ids);
            assert(token@ == t);
            lemma_mint_wf(self@, t);
        }
        let view = self.token_to_view(&token);
        self.tokens.push(token);
        add_token(&mut self.tokens_by_owner, &receiver_id, &token_id);
        self.total_supply = self.total_supply + 1;
        self.next_token_id = self.next_token_id + 1;
        proof {
            assert(self@.tokens =~= old(self)@.tokens.push(t));
            assert(self@ =~= old(self)@.mint_next(t));
        }
        Ok(view)
    }

    /// Moves the token `token_id` from `sender_id`, its owner, to `receiver_id`.
    fn internal_transfer(&mut self, sender_id: &AccountId, receiver_id: &AccountId, token_id: &String, memo: Option<String>, now: u64) -> (r:
        Result<(), NftError>)
        requires
            old(self).wf(),
        ensures
            final(self).wf(),
            match r {
                Ok(_) => old(self)@.transfer_error(sender_id@, receiver_id@, token_id@) is None && final(self)@ == old(self)@.transfer_next(sender_id@, receiver_id@, token_id@, now),
                Err(e) => old(self)@.transfer_error(sender_id@, receiver_id@, token_id@) == Some(e)
                    && final(self)@ == old(self)@,
            },
    {
        proof {
            self.lemma_keys();
        }
        let at: usize = match find(&self.tokens, token_id) {
            Some(i) => i,
            None => {
                return Err(NftError::TokenNotFound);
            },
        };
        proof {
            lemma_position(token_ids(self@.tokens), token_id@, at as int);
        }
        if !(self.tokens[at].owner_id == *sender_id) {
            return Err(NftError::NotTokenOwner);
        }
        if *sender_id == *receiver_id {
            return Err(NftError::CannotTransferToSelf);
        }
        proof {
            lemma_transfer_wf(self@, sender_id@, receiver_id@, token_id@, now);
            lemma_without_token(self@.tokens_by_owner, sender_id@, token_id@);
        }
        remove_token(&mut self.tokens_by_owner, sender_id, token_id);
        add_token(&mut self.tokens_by_owner, receiver_id, token_id);
        self.tokens[at].owner_id = receiver_id.clone();
        self.tokens[at].updated_at = now;
        self.tokens[at].approved_account_ids = Vec::new();
        match find(&self.token_approvals, token_id) {
            Some(i) => {
                proof {
                    lemma_position(approved_tokens(old(self)@.token_approvals), token_id@, i as int);
                }
                let _ = self.token_approvals.swap_remove(i);
                proof {
                    assert(self@.token_approvals =~= swap_removed(old(self)@.token_approvals, i as int));
                }
            },
            None => {},
        }
        proof {
            let n = old(self)@.transfer_next(sender_id@, receiver_id@, token_id@, now);
            assert(self.tokens@[at as int]@.approved_account_ids =~= Seq::<(Seq<char>, u64)>::empty());
            assert(self@.tokens =~= n.tokens);
            assert(self@ =~= n);
        }
        Ok(())
    }

    /// Moves the token `token_id` from `sender`, its owner, to `receiver_id`;
    /// the approval of the token lapses.
    ///
    /// Fails with `TokenNotFound`, else with `NotTokenOwner`, else with
    /// `CannotTransferToSelf`.
    pub fn nft_transfer(&mut self, sender: &AccountId, receiver_id: AccountId, token_id: String, memo: Option<String>, now: u64) -> (r:
        Result<(), NftError>)
        requires
            old(self).wf(),
        ensures
            final(self).wf(),
            match r {
                Ok(_) => old(self)@.transfer_error(sender@, receiver_id@, token_id@) is None && final(self)@ == old(self)@.transfer_next(sender@, receiver_id@, token_id@, now),
                Err(e) => old(self)@.transfer_error(sender@, receiver_id@, token_id@) == Some(e) && final(self)@ == old(self)@,
            },
    {
        self.internal_transfer(sender, &receiver_id, &token_id, memo, now)
    }

    /// Moves the token `token_id` from `sender_id`, its owner, to `receiver_id`
    /// on behalf of `predecessor_id`: the account approved for the token, an
    /// operator of the owner, or the owner.
    fn internal_transfer_from(
        &mut self,
        sender_id: &AccountId,
        receiver_id: &AccountId,
        token_id: &String,
        predecessor_id: &AccountId,
        memo: Option<String>,
        now: u64,
    ) -> (r: Result<(), NftError>)
        requires
            old(self).wf(),
        ensures
            final(self).wf(),
            match r {
                Ok(_) => old(self)@.transfer_from_error(predecessor_id@, sender_id@, receiver_id@, token_id@)
                    is None && final(self)@ == old(self)@.transfer_next(
                    sender_id@,
                    receiver_id@,
                    token_id@,
                    now,
                ),
                Err(e) => old(self)@.transfer_from_error(
                    predecessor_id@,
                    sender_id@,
                    receiver_id@,
                    token_id@,
                ) == Some(e) && final(self)@ == old(self)@,
            },
    {
        proof {
            self.lemma_keys();
        }
        let at: usize = match find(&self.tokens, token_id) {
            Some(i) => i,
            None => {
                return Err(NftError::TokenNotFound);
            },
        };
        proof {
            lemma_position(token_ids(self@.tokens), token_id@, at as int);
        }
        if !(self.tokens[at].owner_id == *sender_id) {
            return Err(NftError::NotTokenOwner);
        }
        let approved: bool = match find(&self.token_approvals, token_id) {
            Some(i) => {
                proof {
                    lemma_position(approved_tokens(self@.token_approvals), token_id@, i as int);
                }
                self.token_approvals[i].account_id == *predecessor_id
            },
            None => false,
        };
        let operator_approved: bool = match find(&self.operator_approvals, sender_id) {
            Some(i) => {
                proof {
                    lemma_position(index_owners(self@.operator_approvals), sender_id@, i as int);
                    assert(keys_of(self.operator_approvals[i as int].token_ids@) =~= texts(
                        self.operator_approvals[i as int].token_ids@,
                    ));
                }
                contains_key(&self.operator_approvals[i].token_ids, predecessor_id)
            },
            None => {
                assert(!Seq::<Seq<char>>::empty().contains(predecessor_id@));
                false
            },
        };
        if !(approved || operator_approved || *predecessor_id == *sender_id) {
            return Err(NftError::NotApproved);
        }
        self.internal_transfer(sender_id, receiver_id, token_id, memo, now)
    }

    /// Moves the token `token_id` from `sender_id`, its owner, to `receiver_id`
    /// on behalf of `caller`: the account approved for the token, an operator of
    /// the owner, or the owner.
    ///
    /// Fails with `TokenNotFound`, else with `NotTokenOwner` where the sender is
    /// not the owner, else with `NotApproved`, else with `CannotTransferToSelf`.
    pub fn nft_transfer_from(
        &mut self,
        caller: &AccountId,
        sender_id: AccountId,
        receiver_id: AccountId,
        token_id: String,
        memo: Option<String>,
        now: u64,
    ) -> (r: Result<(), NftError>)
        requires
            old(self).wf(),
        ensures
            final(self).wf(),
            match r {
                Ok(_) => old(self)@.transfer_from_error(caller@, sender_id@, receiver_id@, token_id@)
                    is None && final(self)@ == old(self)@.transfer_next(
                    sender_id@,
                    receiver_id@,
                    token_id@,
                    now,
                ),
                Err(e) => old(self)@.transfer_from_error(caller@, sender_id@, receiver_id@, token_id@)
                    == Some(e) && final(self)@ == old(self)@,
            },
    {
        self.internal_transfer_from(&sender_id, &receiver_id, &token_id, caller, memo, now)
    }

    /// Lets `account_id` transfer the token `token_id`, in place of the account
    /// that could before. Only the owner of the token may.
    ///
    /// Fails with `TokenNotFound`, else with `NotTokenOwner`.
    pub fn nft_approve(&mut self, caller: &AccountId, token_id: String, account_id: AccountId) -> (r: Result<
        (),
        NftError,
    >)
        requires
            old(self).wf(),
        ensures
            final(self).wf(),
            match r {
                Ok(_) => old(self)@.approve_error(caller@, token_id@) is None && final(self)@ == (NftState {
                    token_approvals: with_approval(old(self)@.token_approvals, token_id@, account_id@),
                    ..old(self)@
                }) && approved_for(final(self)@.token_approvals, token_id@) == Some(account_id@),
                Err(e) => old(self)@.approve_error(caller@, token_id@) == Some(e) && final(self)@ == old(self)@,
            },
    {
        proof {
            self.lemma_keys();
        }
        let at: usize = match find(&self.tokens, &token_id) {
            Some(i) => i,
            None => {
                return Err(NftError::TokenNotFound);
            },
        };
        proof {
            lemma_position(token_ids(self@.tokens), token_id@, at as int);
        }
        if !(self.tokens[at].owner_id == *caller) {
            return Err(NftError::NotTokenOwner);
        }
        proof {
            lemma_approvals(self@.token_approvals, token_id@, account_id@);
        }
        match find(&self.token_approvals, &token_id) {
            Some(i) => {
                proof {
                    lemma_position(approved_tokens(self@.token_approvals), token_id@, i as int);
                }
                self.token_approvals[i].account_id = account_id;
            },
            None => {
                self.token_approvals.push(TokenApproval { token_id, account_id });
            },
        }
        proof {
            assert(self@.token_approvals =~= with_approval(
                old(self)@.token_approvals,
                token_id@,
                account_id@,
            ));
            assert(self@ =~= (NftState {
                token_approvals: with_approval(old(self)@.token_approvals, token_id@, account_id@),
                ..old(self)@
            }));
        }
        Ok(())
    }

    /// Takes back the approval of the token `token_id`. Only the owner of the
    /// token may.
    ///
    /// Fails with `TokenNotFound`, else with `NotTokenOwner`.
    pub fn nft_revoke(&mut self, caller: &AccountId, token_id: String) -> (r: Result<(), NftError>)
        requires
            old(self).wf(),
        ensures
            final(self).wf(),
            match r {
                Ok(_) => old(self)@.approve_error(caller@, token_id@) is None && final(self)@ == (NftState {
                    token_approvals: without_approval(old(self)@.token_approvals, token_id@),
                    ..old(self)@
                }) && approved_for(final(self)@.token_approvals, token_id@) is None,
                Err(e) => old(self)@.approve_error(caller@, token_id@) == Some(e) && final(self)@ == old(self)@,
            },
    {
        proof {
            self.lemma_keys();
        }
        let at: usize = match find(&self.tokens, &token_id) {
            Some(i) => i,
            None => {
                return Err(NftError::TokenNotFound);
            },
        };
        proof {
            lemma_position(token_ids(self@.tokens), token_id@, at as int);
        }
        if !(self.tokens[at].owner_id == *caller) {
            return Err(NftError::NotTokenOwner);
        }
        proof {
            lemma_approvals(self@.token_approvals, token_id@, token_id@);
        }
        match find(&self.token_approvals, &token_id) {
            Some(i) => {
                proof {
                    lemma_position(approved_tokens(self@.token_approvals), token_id@, i as int);
                }
                let _ = self.token_approvals.swap_remove(i);
                proof {
                    assert(self@.token_approvals =~= swap_removed(old(self)@.token_approvals, i as int));
                }
            },
            None => {},
        }
        proof {
            assert(self@ =~= (NftState {
                token_approvals: without_approval(old(self)@.token_approvals, token_id@),
                ..old(self)@
            }));
        }
        Ok(())
    }

    /// The account that may transfer the token `token_id`, if there is one.
    pub fn nft_approved_account(&self, token_id: String) -> (r: Option<AccountId>)
        requires
            self.wf(),
        ensures
            crate::text::opt_text(r) == approved_for(self@.token_approvals, token_id@),
    {
        proof {
            self.lemma_keys();
        }
        match find(&self.token_approvals, &token_id) {
            Some(i) => {
                proof {
                    lemma_position(approved_tokens(self@.token_approvals), token_id@, i as int);
                }
                Some(self.token_approvals[i].account_id.clone())
            },
            None => None,
        }
    }

    /// The token `token_id` in the textual form, if there is one.
    pub fn nft_token(&self, token_id: String) -> (r: Option<VoiceNFTView>)
        requires
            self.wf(),
        ensures
            match r {
                Some(v) => self@.has_token(token_id@) && v@ == token_to_view(self@.token(token_id@)),
                None => !self@.has_token(token_id@),
            },
    {
        proof {
            self.lemma_keys();
        }
        match find(&self.tokens, &token_id) {
            Some(i) => {
                proof {
                    lemma_position(token_ids(self@.tokens), token_id@, i as int);
                }
                Some(self.token_to_view(&self.tokens[i]))
            },
            None => None,
        }
    }

    /// The tokens of `account_id` in the textual form from place `from_index` of
    /// its tokens on (from the first where none is given), `limit` of them at
    /// most (50 where none is given), in the order in which the index is walked.
    pub fn nft_tokens_for_owner(&self, account_id: AccountId, from_index: Option<u128>, limit: Option<u64>) -> (r:
        Vec<VoiceNFTView>)
        requires
            self.wf(),
        ensures
            token_view_models(r@) == page(
                tokens_of(self@.tokens_by_owner, account_id@),
                from_index.unwrap_or(0) as nat,
                limit.unwrap_or(50) as nat,
            ).map_values(|id: Seq<char>| token_to_view(self@.token(id))),
    {
        proof {
            self.lemma_keys();
        }
        let ghost owned = tokens_of(self@.tokens_by_owner, account_id@);
        let ghost shown = owned.map_values(|id: Seq<char>| token_to_view(self@.token(id)));
        let mut r: Vec<VoiceNFTView> = Vec::new();
        let entry: usize = match find(&self.tokens_by_owner, &account_id) {
            Some(i) => i,
            None => {
                assert(token_view_models(r@) =~= Seq::<Seq<char>>::empty().map_values(
                    |id: Seq<char>| token_to_view(self@.token(id)),
                ));
                return r;
            },
        };
        proof {
            lemma_position(index_owners(self@.tokens_by_owner), account_id@, entry as int);
        }
        let ids = &self.tokens_by_owner[entry].token_ids;
        assert(texts(ids@) == owned);
        let n: usize = ids.len();
        let from: u128 = match from_index {
            Some(v) => v,
            None => 0,
        };
        let most: u64 = match limit {
            Some(v) => v,
            None => 50,
        };
        if from >= n as u128 {
            assert(token_view_models(r@) =~= Seq::<Seq<char>>::empty().map_values(
                |id: Seq<char>| token_to_view(self@.token(id)),
            ));
            return r;
        }
        let start: usize = from as usize;
        let end: usize = if most as u128 >= (n - start) as u128 {
            n
        } else {
            start + most as usize
        };
        let mut i: usize = start;
        assert(token_view_models(r@) =~= shown.subrange(start as int, i as int));
        while i < end
            invariant
                start <= i <= end <= n,
                n == ids.len(),
                self.wf(),
                texts(ids@) == owned,
                owned == tokens_of(self@.tokens_by_owner, account_id@),
                shown == owned.map_values(|id: Seq<char>| token_to_view(self@.token(id))),
                keys_of(self.tokens@) == token_ids(self@.tokens),
                token_view_models(r@) == shown.subrange(start as int, i as int),
            decreases end - i,
        {
            let ghost before = token_view_models(r@);
            let ghost id = owned[i as int];
            assert(owned.contains(id));
            assert(self@.has_token(id));
            match find(&self.tokens, &ids[i]) {
                Some(t) => {
                    proof {
                        lemma_position(token_ids(self@.tokens), id, t as int);
                    }
                    r.push(self.token_to_view(&self.tokens[t]));
                },
                None => {},
            }
            assert(token_view_models(r@) =~= before.push(shown[i as int]));
            assert(before.push(shown[i as int]) =~= shown.subrange(start as int, i + 1));
            i += 1;
        }
        assert(shown.subrange(start as int, end as int) =~= owned.subrange(start as int, end as int).map_values(
            |id: Seq<char>| token_to_view(self@.token(id)),
        ));
        r
    }

    /// The number of tokens, in decimal.
    pub fn nft_total_supply(&self) -> (r: String)
        ensures
            r@ == decimal_text(self@.total_supply as nat),
    {
        u128_to_string(self.total_supply)
    }

    /// What the contract is called.
    pub fn nft_metadata(&self) -> (r: ContractMetadataView)
        ensures
            r@ == self@.metadata,
    {
        ContractMetadataView {
            spec: self.metadata.spec.clone(),
            name: self.metadata.name.clone(),
            symbol: self.metadata.symbol.clone(),
            icon: clone_opt_string(&self.metadata.icon),
            base_uri: clone_opt_string(&self.metadata.base_uri),
            reference: clone_opt_string(&self.metadata.reference),
            reference_hash: clone_opt_string(&self.metadata.reference_hash),
        }
    }

    /// The tokens in the textual form from place `from_index` on (from the first
    /// where none is given), `limit` of them at most (50 where none is given),
    /// in the order in which they were minted.
    pub fn nft_tokens(&self, from_index: Option<u128>, limit: Option<u64>) -> (r: Vec<VoiceNFTView>)
        ensures
            token_view_models(r@) == page(
                self@.tokens,
                from_index.unwrap_or(0) as nat,
                limit.unwrap_or(50) as nat,
            ).map_values(|t: VoiceNFTModel| token_to_view(t)),
    {
        let n: usize = self.tokens.len();
        let from: u128 = match from_index {
            Some(v) => v,
            None => 0,
        };
        let most: u64 = match limit {
            Some(v) => v,
            None => 50,
        };
        let mut r: Vec<VoiceNFTView> = Vec::new();
        let ghost all = token_models(self.tokens@);
        let ghost shown = all.map_values(|t: VoiceNFTModel| token_to_view(t));
        if from >= n as u128 {
            assert(token_view_models(r@) =~= Seq::<VoiceNFTModel>::empty().map_values(
                |t: VoiceNFTModel| token_to_view(t),
            ));
            return r;
        }
        let start: usize = from as usize;
        let end: usize = if most as u128 >= (n - start) as u128 {
            n
        } else {
            start + most as usize
        };
        let mut i: usize = start;
        assert(token_view_models(r@) =~= shown.subrange(start as int, i as int));
        while i < end
            invariant
                start <= i <= end <= n,
                n == self.tokens.len(),
                all == token_models(self.tokens@),
                shown == all.map_values(|t: VoiceNFTModel| token_to_view(t)),
                token_view_models(r@) == shown.subrange(start as int, i as int),
            decreases end - i,
        {
            let ghost before = token_view_models(r@);
            r.push(self.token_to_view(&self.tokens[i]));
            assert(token_view_models(r@) =~= before.push(shown[i as int]));
            assert(before.push(shown[i as int]) =~= shown.subrange(start as int, i + 1));
            i += 1;
        }
        assert(shown.subrange(start as int, end as int) =~= all.subrange(start as int, end as int).map_values(
            |t: VoiceNFTModel| token_to_view(t),
        ));
        r
    }

    /// The number of tokens of `account_id`, in decimal.
    pub fn nft_supply_for_owner(&self, account_id: AccountId) -> (r: String)
        requires
            self.wf(),
        ensures
            r@ == decimal_text(tokens_of(self@.tokens_by_owner, account_id@).len()),
    {
        proof {
            self.lemma_keys();
        }
        match find(&self.tokens_by_owner, &account_id) {
            Some(i) => {
                proof {
                    lemma_position(index_owners(self@.tokens_by_owner), account_id@, i as int);
                }
                let n: usize = self.tokens_by_owner[i].token_ids.len();
                assert(n == texts(self.tokens_by_owner[i as int].token_ids@).len());
                u128_to_string(n as u128)
            },
            None => u128_to_string(0),
        }
    }
}

/// Each token is in the index under its owner and under no other account.
pub proof fn law_index_tells_ownership(s: NftState, owner: Seq<char>, id: Seq<char>)
    requires
        s.wf(),
    ensures
        tokens_of(s.tokens_by_owner, owner).contains(id) <==> s.has_token(id) && s.token(id).owner_id == owner,
{
}

} // verus!
