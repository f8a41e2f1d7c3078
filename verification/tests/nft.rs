use voice_contracts::nft::contract::VoiceNFT;
use voice_contracts::nft::model::{
    AIAnalysis, AccessRequirements, NftError, VoiceNFTMetadata, CREATOR_ROYALTY,
};
use voice_contracts::voice_nft::model::RoyaltyShare;

fn accounts(i: usize) -> String {
    ["alice", "bob", "charlie", "danny", "eugene", "fargo"][i].to_string()
}

const PRICE: u128 = 1_000_000_000_000_000_000_000_000;

fn metadata(title: &str, creator: usize) -> VoiceNFTMetadata {
    VoiceNFTMetadata {
        title: title.to_string(),
        description: "A test voice NFT".to_string(),
        media: "QmTest".to_string(),
        media_hash: None,
        copies: Some(1),
        issued_at: None,
        expires_at: None,
        starts_at: None,
        updated_at: None,
        extra: None,
        reference: None,
        reference_hash: None,
        duration: 120,
        file_size: 1024,
        audio_format: "mp3".to_string(),
        sample_rate: 44100,
        bit_rate: 128,
        creator: accounts(creator),
        category: "music".to_string(),
        tags: vec!["test".to_string()],
        ai_analysis: None,
        access_requirements: AccessRequirements {
            access_type: "public".to_string(),
            min_tokens: None,
            required_nfts: None,
            whitelist: None,
            price: None,
        },
        created_at: 0,
        play_count: 0,
        like_count: 0,
    }
}

#[test]
fn test_nft_mint() {
    let mut contract = VoiceNFT::new(accounts(1), 1_000_000_000_000_000_000_000_000);

    let metadata = VoiceNFTMetadata {
        title: "Test Voice".to_string(),
        description: "A test voice NFT".to_string(),
        media: "QmTest".to_string(),
        media_hash: None,
        copies: Some(1),
        issued_at: None,
        expires_at: None,
        starts_at: None,
        updated_at: None,
        extra: None,
        reference: None,
        reference_hash: None,
        duration: 120,
        file_size: 1024,
        audio_format: "mp3".to_string(),
        sample_rate: 44100,
        bit_rate: 128,
        creator: accounts(1),
        category: "music".to_string(),
        tags: vec!["test".to_string()],
        ai_analysis: None,
        access_requirements: AccessRequirements {
            access_type: "public".to_string(),
            min_tokens: None,
            required_nfts: None,
            whitelist: None,
            price: None,
        },
        created_at: 0,
        play_count: 0,
        like_count: 0,
    };

    let minted = contract
        .nft_mint(&accounts(1), accounts(2), metadata, 1_000_000_000_000_000_000_000_000, 0)
        .unwrap();
    let token_id = minted.token_ids[0].clone();

    assert_eq!(token_id, "1");
    assert_eq!(contract.nft_supply_for_owner(accounts(2)), 1);

    let token = contract.nft_token(token_id).unwrap();
    assert_eq!(token.title, "Test Voice");
}

#[test]
fn new_contract_has_its_owner_as_the_one_minter() {
    let c = VoiceNFT::new(accounts(0), PRICE);
    assert_eq!(c.owner_id(), accounts(0));
    assert_eq!(c.get_mint_price(), PRICE);
    assert!(c.is_minting_enabled());
    assert_eq!(c.get_approved_minters(), vec![accounts(0)]);
    assert!(c.get_contract_metadata().is_empty());
    assert_eq!(c.nft_total_supply(), 0);
    assert!(c.nft_tokens(None, None).is_empty());
    assert!(c.nft_token("1".into()).is_none());
    assert_eq!(c.nft_supply_for_owner(accounts(0)), 0);
    assert_eq!(CREATOR_ROYALTY, 1000);
}

#[test]
fn mints_are_numbered_and_start_without_plays() {
    let mut c = VoiceNFT::new(accounts(0), PRICE);
    let mut given = metadata("one", 3);
    given.created_at = 5;
    given.play_count = 6;
    given.like_count = 7;
    let event = c.nft_mint(&accounts(0), accounts(1), given, 0, 99).unwrap();
    assert_eq!(event.owner_id, accounts(1));
    assert_eq!(event.token_ids, vec!["1"]);
    assert!(event.memo.is_none());
    for n in 2..=12u32 {
        let event = c.nft_mint(&accounts(5), accounts(2), metadata("more", 3), PRICE, 100).unwrap();
        assert_eq!(event.token_ids, vec![n.to_string()]);
    }
    let m = c.nft_token("1".into()).unwrap();
    assert_eq!((m.created_at, m.play_count, m.like_count), (99, 0, 0));
    assert_eq!(m.creator, accounts(3));
    assert_eq!((m.duration, m.file_size, m.sample_rate, m.bit_rate), (120, 1024, 44100, 128));
    assert_eq!(m.audio_format, "mp3");
    assert_eq!(m.tags, vec!["test".to_string()]);
    assert_eq!(m.access_requirements.access_type, "public");
    assert_eq!(c.nft_owner("1".into()), Some(accounts(1)));
    assert_eq!(c.nft_owner("12".into()), Some(accounts(2)));
    assert_eq!(c.nft_owner("13".into()), None);
    assert_eq!(c.nft_owner("01".into()), None);
    assert_eq!(c.nft_total_supply(), 12);
    assert_eq!(c.nft_supply_for_owner(accounts(2)), 11);
    let shares: Vec<(String, u32)> =
        c.get_royalties("1".into()).unwrap().into_iter().map(|s| (s.account, s.value)).collect();
    assert_eq!(shares, vec![(accounts(3), 1000)]);
    let a = c.get_analytics("1".into()).unwrap();
    assert_eq!((a.total_plays, a.unique_listeners, a.total_earnings), (0, 0, 0));
    assert!(a.geographic_distribution.is_empty() && a.listening_duration.is_empty());
    let titles: Vec<String> = c.nft_tokens(Some(0), Some(2)).into_iter().map(|m| m.title).collect();
    assert_eq!(titles, vec!["one", "more"]);
    assert_eq!(c.nft_tokens(Some(10), None).len(), 2);
    assert_eq!(c.nft_tokens(None, None).len(), 12);
    assert_eq!(c.into_snapshot().next_token_id, 13);
}

#[test]
fn minting_needs_a_minter_or_the_price() {
    let mut c = VoiceNFT::new(accounts(0), PRICE);
    let mint = |c: &mut VoiceNFT, caller: usize, deposit: u128| {
        c.nft_mint(&accounts(caller), accounts(2), metadata("x", 1), deposit, 0).map(|e| e.token_ids)
    };
    assert_eq!(mint(&mut c, 1, PRICE - 1), Err(NftError::NotAuthorizedMinter));
    assert_eq!(mint(&mut c, 1, PRICE), Ok(vec!["1".to_string()]));
    assert_eq!(c.add_approved_minter(&accounts(1), accounts(1)), Err(NftError::Unauthorized));
    c.add_approved_minter(&accounts(0), accounts(1)).unwrap();
    c.add_approved_minter(&accounts(0), accounts(2)).unwrap();
    c.add_approved_minter(&accounts(0), accounts(1)).unwrap();
    assert_eq!(c.get_approved_minters(), vec![accounts(0), accounts(1), accounts(2)]);
    assert_eq!(mint(&mut c, 1, 0), Ok(vec!["2".to_string()]));
    assert_eq!(c.remove_approved_minter(&accounts(1), accounts(0)), Err(NftError::Unauthorized));
    c.remove_approved_minter(&accounts(0), accounts(0)).unwrap();
    c.remove_approved_minter(&accounts(0), accounts(4)).unwrap();
    assert_eq!(c.get_approved_minters(), vec![accounts(2), accounts(1)]);
    assert_eq!(mint(&mut c, 0, 0), Err(NftError::NotAuthorizedMinter));
    assert_eq!(c.set_mint_price(&accounts(1), 0), Err(NftError::Unauthorized));
    c.set_mint_price(&accounts(0), 0).unwrap();
    assert_eq!(mint(&mut c, 5, 0), Ok(vec!["3".to_string()]));
    assert_eq!(c.toggle_minting(&accounts(1)), Err(NftError::Unauthorized));
    c.toggle_minting(&accounts(0)).unwrap();
    assert!(!c.is_minting_enabled());
    assert_eq!(mint(&mut c, 1, PRICE), Err(NftError::MintingDisabled));
    c.toggle_minting(&accounts(0)).unwrap();
    assert_eq!(mint(&mut c, 1, 0), Ok(vec!["4".to_string()]));
}

#[test]
fn transfers_change_the_owner_and_the_index() {
    let mut c = VoiceNFT::new(accounts(0), PRICE);
    for _ in 0..3 {
        c.nft_mint(&accounts(0), accounts(1), metadata("t", 1), 0, 0).unwrap();
    }
    assert_eq!(c.nft_transfer(&accounts(1), accounts(2), "9".into(), None).unwrap_err(), NftError::TokenNotFound);
    assert_eq!(c.nft_transfer(&accounts(2), accounts(3), "1".into(), None).unwrap_err(), NftError::NotTokenOwner);
    assert_eq!(
        c.nft_transfer(&accounts(1), accounts(1), "1".into(), None).unwrap_err(),
        NftError::CannotTransferToSelf
    );
    let event = c.nft_transfer(&accounts(1), accounts(2), "1".into(), Some("gift".into())).unwrap();
    assert_eq!(event.old_owner_id, accounts(1));
    assert_eq!(event.new_owner_id, accounts(2));
    assert_eq!(event.token_ids, vec!["1"]);
    assert!(event.authorized_id.is_none());
    assert_eq!(event.memo, Some("gift".to_string()));
    assert_eq!(c.nft_owner("1".into()), Some(accounts(2)));
    assert_eq!(c.nft_supply_for_owner(accounts(1)), 2);
    assert_eq!(c.nft_supply_for_owner(accounts(2)), 1);
    c.nft_transfer_call(&accounts(1), accounts(2), "2".into(), None, "msg".into()).unwrap();
    c.nft_transfer(&accounts(1), accounts(2), "3".into(), None).unwrap();
    // An owner without tokens stays in the index.
    assert_eq!(c.nft_supply_for_owner(accounts(1)), 0);
    assert!(c.nft_tokens_for_owner(accounts(1), None, None).is_empty());
    assert_eq!(c.nft_tokens_for_owner(accounts(2), None, None).len(), 3);
    assert_eq!(c.nft_tokens_for_owner(accounts(2), Some(1), Some(1)).len(), 1);
    assert_eq!(c.nft_tokens_for_owner(accounts(2), Some(3), None).len(), 0);
    let s = c.into_snapshot();
    assert_eq!(s.tokens_per_owner.len(), 2);
    assert!(s.tokens_per_owner[0].token_ids.is_empty());
    assert_eq!(s.tokens_per_owner[1].token_ids, vec!["1", "2", "3"]);
    assert!(s.is_well_formed());
    assert_eq!(VoiceNFT::from_snapshot(s).unwrap().nft_total_supply(), 3);
}

#[test]
fn plays_and_likes_are_counted() {
    let mut c = VoiceNFT::new(accounts(0), PRICE);
    c.nft_mint(&accounts(0), accounts(1), metadata("t", 1), 0, 0).unwrap();
    let play = |c: &mut VoiceNFT, caller: usize, id: &str, duration: u64, place: Option<&str>, now: u64| {
        c.record_play(&accounts(caller), id.to_string(), accounts(5), duration, place.map(str::to_string), now)
    };
    assert_eq!(play(&mut c, 1, "1", 10, None, 1), Err(NftError::Unauthorized));
    assert_eq!(play(&mut c, 1, "7", 10, None, 1), Err(NftError::Unauthorized));
    assert_eq!(play(&mut c, 0, "7", 10, None, 1), Err(NftError::TokenNotFound));
    play(&mut c, 0, "1", 10, Some("US"), 100).unwrap();
    play(&mut c, 0, "1", 20, None, 200).unwrap();
    play(&mut c, 0, "1", 30, Some("DE"), 300).unwrap();
    play(&mut c, 0, "1", 40, Some("US"), 400).unwrap();
    let a = c.get_analytics("1".into()).unwrap();
    assert_eq!(a.total_plays, 4);
    assert_eq!(a.listening_duration, vec![10, 20, 30, 40]);
    assert_eq!(a.peak_listening_times, vec![100, 200, 300, 400]);
    let places: Vec<(String, u64)> = a.geographic_distribution.into_iter().map(|p| (p.name, p.count)).collect();
    assert_eq!(places, vec![("US".to_string(), 2), ("DE".to_string(), 1)]);
    assert_eq!(c.nft_token("1".into()).unwrap().play_count, 4);
    assert!(c.get_analytics("2".into()).is_none());

    assert_eq!(c.like_nft("2".into()), Err(NftError::TokenNotFound));
    c.like_nft("1".into()).unwrap();
    c.like_nft("1".into()).unwrap();
    assert_eq!(c.nft_token("1".into()).unwrap().like_count, 2);
    assert_eq!(c.nft_token("1".into()).unwrap().play_count, 4);

    let mut s = c.into_snapshot();
    s.tokens[0].metadata.like_count = u64::MAX;
    s.tokens[0].metadata.play_count = u64::MAX;
    let mut c = VoiceNFT::from_snapshot(s).unwrap();
    assert_eq!(c.like_nft("1".into()), Err(NftError::ArithmeticOverflow));
    assert_eq!(play(&mut c, 0, "1", 1, None, 1), Err(NftError::ArithmeticOverflow));
    assert_eq!(c.get_analytics("1".into()).unwrap().total_plays, 4);
}

#[test]
fn analysis_and_royalties_are_set_by_those_who_may() {
    let mut c = VoiceNFT::new(accounts(0), PRICE);
    c.nft_mint(&accounts(0), accounts(1), metadata("t", 3), 0, 0).unwrap();
    let analysis = || AIAnalysis {
        transcription: "hello".to_string(),
        language: "en".to_string(),
        sentiment: "positive".to_string(),
        emotion: "joy".to_string(),
        topics: vec!["greeting".to_string()],
        keywords: vec!["hello".to_string()],
        quality_score: 90,
        authenticity_score: 80,
        content_rating: "G".to_string(),
        analysis_version: "1".to_string(),
        processed_at: 55,
    };
    assert_eq!(c.update_ai_analysis(&accounts(1), "1".into(), analysis()), Err(NftError::Unauthorized));
    assert_eq!(c.update_ai_analysis(&accounts(0), "2".into(), analysis()), Err(NftError::TokenNotFound));
    c.update_ai_analysis(&accounts(0), "1".into(), analysis()).unwrap();
    let a = c.nft_token("1".into()).unwrap().ai_analysis.unwrap();
    assert_eq!(a.transcription, "hello");
    assert_eq!((a.quality_score, a.authenticity_score, a.processed_at), (90, 80, 55));
    assert_eq!(a.keywords, vec!["hello".to_string()]);

    let shares = |v: u32| vec![RoyaltyShare { account: accounts(4), value: v }];
    assert_eq!(c.set_royalties(&accounts(1), "2".into(), shares(1)), Err(NftError::TokenNotFound));
    assert_eq!(c.set_royalties(&accounts(3), "1".into(), shares(1)), Err(NftError::Unauthorized));
    c.set_royalties(&accounts(1), "1".into(), shares(250)).unwrap();
    assert_eq!(c.get_royalties("1".into()).unwrap()[0].value, 250);
    c.set_royalties(&accounts(0), "1".into(), vec![]).unwrap();
    assert!(c.get_royalties("1".into()).unwrap().is_empty());
    assert!(c.get_royalties("2".into()).is_none());
}

#[test]
fn a_contract_state_with_wrong_numbers_is_refused() {
    let fresh = || {
        let mut c = VoiceNFT::new(accounts(0), PRICE);
        c.nft_mint(&accounts(0), accounts(1), metadata("a", 1), 0, 0).unwrap();
        c.nft_mint(&accounts(0), accounts(2), metadata("b", 1), 0, 0).unwrap();
        c.record_play(&accounts(0), "1".into(), accounts(5), 1, Some("US".into()), 1).unwrap();
        c.record_play(&accounts(0), "1".into(), accounts(5), 1, Some("DE".into()), 1).unwrap();
        c.into_snapshot()
    };
    assert!(VoiceNFT::from_snapshot(fresh()).is_some());
    let mut s = fresh();
    s.tokens[1].token_id = "3".to_string();
    assert!(VoiceNFT::from_snapshot(s).is_none());
    let mut s = fresh();
    s.next_token_id = 2;
    assert!(VoiceNFT::from_snapshot(s).is_none());
    let mut s = fresh();
    s.tokens[0].owner_id = accounts(2);
    assert!(VoiceNFT::from_snapshot(s).is_none());
    let mut s = fresh();
    s.tokens_per_owner[0].token_ids.push("2".to_string());
    assert!(VoiceNFT::from_snapshot(s).is_none());
    let mut s = fresh();
    s.tokens_per_owner[0].token_ids.clear();
    assert!(VoiceNFT::from_snapshot(s).is_none());
    let mut s = fresh();
    s.approved_minters.push(accounts(0));
    assert!(VoiceNFT::from_snapshot(s).is_none());
    let mut s = fresh();
    s.tokens[0].analytics.geographic_distribution[1].name = "US".to_string();
    assert!(VoiceNFT::from_snapshot(s).is_none());
    let mut s = fresh();
    s.contract_metadata.push(("k".to_string(), "v".to_string()));
    let c = VoiceNFT::from_snapshot(s).unwrap();
    assert_eq!(c.get_contract_metadata(), vec![("k".to_string(), "v".to_string())]);
}

#[test]
fn contract_reasons_are_short_texts() {
    assert_eq!(NftError::MintingDisabled.message(), "Minting is disabled");
    assert_eq!(NftError::NotAuthorizedMinter.message(), "Insufficient deposit or not authorized minter");
    assert_eq!(NftError::Unauthorized.message(), "Not authorized");
    assert_eq!(NftError::TokenNotFound.message(), "Token not found");
    assert_eq!(NftError::NotTokenOwner.message(), "Sender must be token owner");
    assert_eq!(NftError::CannotTransferToSelf.message(), "Cannot transfer to self");
    assert_eq!(NftError::ArithmeticOverflow.message(), "Arithmetic overflow");
}
