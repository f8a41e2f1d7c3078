use voice_contracts::voice_nft::contract::VoiceNFTContract;
use voice_contracts::voice_nft::model::{NftError, OwnerTokens, RoyaltyShare, VoiceNFTMetadataView};

fn accounts(i: usize) -> String {
    ["alice", "bob", "charlie", "danny", "eugene", "fargo"][i].to_string()
}

fn metadata(title: &str) -> VoiceNFTMetadataView {
    VoiceNFTMetadataView {
        title: title.to_string(),
        description: Some("A voice".to_string()),
        media: Some("QmVoice".to_string()),
        media_hash: None,
        copies: Some(1),
        issued_at: None,
        expires_at: None,
        starts_at: None,
        updated_at: None,
        extra: None,
        reference: None,
        reference_hash: None,
        duration: Some(120),
        voice_type: Some("speech".to_string()),
        language: Some("en".to_string()),
        tags: Some(vec!["a".to_string(), "b".to_string()]),
    }
}

/// A contract of alice with the tokens v1 and v2 of bob and v3 of charlie.
fn minted() -> VoiceNFTContract {
    let mut c = VoiceNFTContract::new(accounts(0));
    c.nft_mint(&accounts(0), "v1".into(), accounts(1), metadata("one"), None, 10).unwrap();
    c.nft_mint(&accounts(0), "v2".into(), accounts(1), metadata("two"), None, 11).unwrap();
    c.nft_mint(&accounts(0), "v3".into(), accounts(2), metadata("three"), None, 12).unwrap();
    c
}

fn ids(tokens: Vec<voice_contracts::voice_nft::model::VoiceNFTView>) -> Vec<String> {
    tokens.into_iter().map(|t| t.token_id).collect()
}

#[test]
fn new_voice_token_contract_is_empty() {
    let c = VoiceNFTContract::new(accounts(0));
    assert_eq!(c.owner_id(), accounts(0));
    assert_eq!(c.nft_total_supply(), "0");
    assert!(c.nft_tokens(None, None).is_empty());
    assert!(c.nft_token("v1".into()).is_none());
    assert_eq!(c.nft_supply_for_owner(accounts(0)), "0");
    let m = c.nft_metadata();
    assert_eq!((m.spec.as_str(), m.name.as_str(), m.symbol.as_str()), ("nft-1.0.0", "Voice NFT", "VNFT"));
    assert!(m.icon.is_none() && m.base_uri.is_none() && m.reference.is_none() && m.reference_hash.is_none());
    let s = c.into_snapshot();
    assert_eq!(s.next_token_id, 1);
}

#[test]
fn minting_is_the_owners_and_once_per_identifier() {
    let mut c = VoiceNFTContract::new(accounts(0));
    assert_eq!(
        c.nft_mint(&accounts(1), "v1".into(), accounts(1), metadata("x"), None, 1).unwrap_err(),
        NftError::Unauthorized
    );
    let royalty = vec![
        RoyaltyShare { account: "bob".to_string(), value: 700 },
        RoyaltyShare { account: "studio.near".to_string(), value: 300 },
    ];
    let view = c.nft_mint(&accounts(0), "v1".into(), accounts(1), metadata("one"), Some(royalty), 77).unwrap();
    assert_eq!(view.token_id, "v1");
    assert_eq!(view.owner_id, accounts(1));
    assert_eq!(view.metadata.title, "one");
    assert_eq!(view.metadata.description, Some("A voice".to_string()));
    assert_eq!(view.metadata.duration, Some(120));
    assert_eq!(view.metadata.tags, Some(vec!["a".to_string(), "b".to_string()]));
    assert!(view.approved_account_ids.is_empty());
    let shares: Vec<(String, u32)> = view.royalty.unwrap().into_iter().map(|s| (s.account, s.value)).collect();
    assert_eq!(shares, vec![("bob".to_string(), 700), ("studio.near".to_string(), 300)]);
    assert_eq!((view.created_at.as_str(), view.updated_at.as_str()), ("77", "77"));
    assert_eq!(
        c.nft_mint(&accounts(0), "v1".into(), accounts(2), metadata("x"), None, 1).unwrap_err(),
        NftError::TokenAlreadyExists
    );
    let bad = vec![
        RoyaltyShare { account: "bob".to_string(), value: 1 },
        RoyaltyShare { account: "Bob".to_string(), value: 1 },
    ];
    assert_eq!(
        c.nft_mint(&accounts(0), "v2".into(), accounts(2), metadata("x"), Some(bad), 1).unwrap_err(),
        NftError::InvalidAccountId
    );
    assert_eq!(c.nft_total_supply(), "1");
    assert_eq!(c.nft_token("v1".into()).unwrap().metadata.title, "one");
    assert!(c.nft_token("v2".into()).is_none());
    assert_eq!(c.into_snapshot().next_token_id, 2);
}

#[test]
fn tokens_are_listed_in_the_order_of_minting_and_by_owner() {
    let c = minted();
    assert_eq!(c.nft_total_supply(), "3");
    assert_eq!(ids(c.nft_tokens(None, None)), vec!["v1", "v2", "v3"]);
    assert_eq!(ids(c.nft_tokens(Some(1), Some(1))), vec!["v2"]);
    assert_eq!(ids(c.nft_tokens(Some(3), None)), Vec::<String>::new());
    assert_eq!(ids(c.nft_tokens(None, Some(0))), Vec::<String>::new());
    assert_eq!(ids(c.nft_tokens_for_owner(accounts(1), None, None)), vec!["v1", "v2"]);
    assert_eq!(ids(c.nft_tokens_for_owner(accounts(1), Some(1), None)), vec!["v2"]);
    assert_eq!(ids(c.nft_tokens_for_owner(accounts(1), None, Some(1))), vec!["v1"]);
    assert_eq!(ids(c.nft_tokens_for_owner(accounts(2), None, None)), vec!["v3"]);
    assert_eq!(ids(c.nft_tokens_for_owner(accounts(3), None, None)), Vec::<String>::new());
    assert_eq!(c.nft_supply_for_owner(accounts(1)), "2");
    assert_eq!(c.nft_supply_for_owner(accounts(2)), "1");
    assert_eq!(c.nft_supply_for_owner(accounts(3)), "0");
}

#[test]
fn transfers_move_a_token_between_owners() {
    let mut c = minted();
    assert_eq!(c.nft_transfer(&accounts(1), accounts(2), "v9".into(), None, 20), Err(NftError::TokenNotFound));
    assert_eq!(c.nft_transfer(&accounts(2), accounts(3), "v1".into(), None, 20), Err(NftError::NotTokenOwner));
    assert_eq!(
        c.nft_transfer(&accounts(1), accounts(1), "v1".into(), None, 20),
        Err(NftError::CannotTransferToSelf)
    );
    c.nft_approve(&accounts(1), "v1".into(), accounts(4)).unwrap();
    c.nft_transfer(&accounts(1), accounts(2), "v1".into(), Some("gift".into()), 20).unwrap();
    let t = c.nft_token("v1".into()).unwrap();
    assert_eq!(t.owner_id, accounts(2));
    assert_eq!((t.created_at.as_str(), t.updated_at.as_str()), ("10", "20"));
    assert!(c.nft_approved_account("v1".into()).is_none());
    assert_eq!(ids(c.nft_tokens_for_owner(accounts(1), None, None)), vec!["v2"]);
    assert_eq!(ids(c.nft_tokens_for_owner(accounts(2), None, None)), vec!["v3", "v1"]);
    // The last token of an owner takes the owner out of the index.
    c.nft_transfer(&accounts(1), accounts(3), "v2".into(), None, 21).unwrap();
    assert_eq!(c.nft_supply_for_owner(accounts(1)), "0");
    let s = c.into_snapshot();
    let owners: Vec<&str> = s.tokens_by_owner.iter().map(|o| o.owner.as_str()).collect();
    assert_eq!(owners, vec!["charlie", "danny"]);
    assert!(s.is_well_formed());
    let mut c = VoiceNFTContract::from_snapshot(s).unwrap();
    // The first of three goes: the last takes its place.
    c.nft_transfer(&accounts(2), accounts(1), "v3".into(), None, 22).unwrap();
    assert_eq!(ids(c.nft_tokens_for_owner(accounts(2), None, None)), vec!["v1"]);
    assert_eq!(ids(c.nft_tokens(None, None)), vec!["v1", "v2", "v3"]);
    assert_eq!(c.nft_total_supply(), "3");
}

#[test]
fn approvals_let_another_account_transfer() {
    let mut c = minted();
    assert_eq!(c.nft_approve(&accounts(1), "v9".into(), accounts(4)), Err(NftError::TokenNotFound));
    assert_eq!(c.nft_approve(&accounts(2), "v1".into(), accounts(4)), Err(NftError::NotTokenOwner));
    assert_eq!(c.nft_revoke(&accounts(2), "v1".into()), Err(NftError::NotTokenOwner));
    assert_eq!(c.nft_revoke(&accounts(2), "v9".into()), Err(NftError::TokenNotFound));
    c.nft_approve(&accounts(1), "v1".into(), accounts(4)).unwrap();
    c.nft_approve(&accounts(1), "v2".into(), accounts(4)).unwrap();
    c.nft_approve(&accounts(1), "v1".into(), accounts(5)).unwrap();
    assert_eq!(c.nft_approved_account("v1".into()), Some(accounts(5)));
    assert_eq!(c.nft_approved_account("v2".into()), Some(accounts(4)));
    assert_eq!(c.nft_approved_account("v3".into()), None);

    let from = |c: &mut VoiceNFTContract, caller: usize, sender: usize, receiver: usize, id: &str| {
        c.nft_transfer_from(&accounts(caller), accounts(sender), accounts(receiver), id.to_string(), None, 30)
    };
    assert_eq!(from(&mut c, 4, 1, 3, "v9"), Err(NftError::TokenNotFound));
    assert_eq!(from(&mut c, 4, 2, 3, "v1"), Err(NftError::NotTokenOwner));
    assert_eq!(from(&mut c, 4, 1, 3, "v1"), Err(NftError::NotApproved));
    assert_eq!(from(&mut c, 5, 1, 1, "v1"), Err(NftError::CannotTransferToSelf));
    assert_eq!(from(&mut c, 3, 1, 1, "v1"), Err(NftError::NotApproved));
    assert_eq!(from(&mut c, 5, 1, 3, "v1"), Ok(()));
    assert_eq!(c.nft_token("v1".into()).unwrap().owner_id, accounts(3));
    assert_eq!(c.nft_approved_account("v1".into()), None);
    assert_eq!(c.nft_approved_account("v2".into()), Some(accounts(4)));
    assert_eq!(from(&mut c, 5, 3, 1, "v1"), Err(NftError::NotApproved));
    // The owner needs no approval.
    assert_eq!(from(&mut c, 3, 3, 1, "v1"), Ok(()));
    c.nft_revoke(&accounts(1), "v2".into()).unwrap();
    c.nft_revoke(&accounts(1), "v2".into()).unwrap();
    assert_eq!(from(&mut c, 4, 1, 3, "v2"), Err(NftError::NotApproved));
}

#[test]
fn operators_transfer_for_their_owner() {
    let mut s = minted().into_snapshot();
    s.operator_approvals.push(OwnerTokens { owner: accounts(1), token_ids: vec![accounts(5)] });
    let mut c = VoiceNFTContract::from_snapshot(s).unwrap();
    assert_eq!(
        c.nft_transfer_from(&accounts(5), accounts(2), accounts(3), "v3".into(), None, 1),
        Err(NftError::NotApproved)
    );
    assert_eq!(c.nft_transfer_from(&accounts(5), accounts(1), accounts(3), "v2".into(), None, 1), Ok(()));
    assert_eq!(c.nft_token("v2".into()).unwrap().owner_id, accounts(3));
}

#[test]
fn a_voice_token_state_with_a_wrong_index_is_refused() {
    let fresh = || {
        let mut c = minted();
        c.nft_approve(&accounts(1), "v1".into(), accounts(4)).unwrap();
        c.into_snapshot()
    };
    assert!(VoiceNFTContract::from_snapshot(fresh()).is_some());
    let mut s = fresh();
    s.tokens[0].owner_id = accounts(2);
    assert!(VoiceNFTContract::from_snapshot(s).is_none());
    let mut s = fresh();
    s.tokens_by_owner[0].token_ids.pop();
    assert!(VoiceNFTContract::from_snapshot(s).is_none());
    let mut s = fresh();
    s.tokens_by_owner[1].token_ids.push("v4".to_string());
    assert!(VoiceNFTContract::from_snapshot(s).is_none());
    let mut s = fresh();
    s.tokens_by_owner.push(OwnerTokens { owner: accounts(5), token_ids: vec![] });
    assert!(VoiceNFTContract::from_snapshot(s).is_none());
    let mut s = fresh();
    s.total_supply = 2;
    assert!(VoiceNFTContract::from_snapshot(s).is_none());
    let mut s = fresh();
    s.next_token_id = 3;
    assert!(VoiceNFTContract::from_snapshot(s).is_none());
    let mut s = fresh();
    s.tokens[2].token_id = "v1".to_string();
    assert!(VoiceNFTContract::from_snapshot(s).is_none());
}

#[test]
fn voice_token_reasons_are_short_texts() {
    assert_eq!(NftError::Unauthorized.message(), "Only owner can mint");
    assert_eq!(NftError::TokenAlreadyExists.message(), "Token already exists");
    assert_eq!(NftError::InvalidAccountId.message(), "Invalid account ID");
    assert_eq!(NftError::TokenNotFound.message(), "Token not found");
    assert_eq!(NftError::NotTokenOwner.message(), "Only owner can do this");
    assert_eq!(NftError::CannotTransferToSelf.message(), "Cannot transfer to self");
    assert_eq!(NftError::NotApproved.message(), "Not approved to transfer");
}
