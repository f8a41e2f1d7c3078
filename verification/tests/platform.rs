use voice_contracts::platform::contract::VoiceOrchestrator;
use voice_contracts::platform::types::{AIAnalysis, AccessType, PlatformError, VoiceNFTMetadata};

const NOW: u64 = 9_000;

fn accounts(i: usize) -> String {
    ["alice", "bob", "charlie", "danny", "eugene", "fargo"][i].to_string()
}

#[test]
fn test_contract_initialization() {
    let contract = VoiceOrchestrator::new(accounts(1), NOW);
    assert_eq!(contract.get_owner(), accounts(1));
    assert_eq!(contract.get_version(), "1.0.0");
    assert!(!contract.is_paused());
    assert_eq!(contract.get_user_count(), 0);
}

#[test]
fn test_user_profile_creation() {
    let mut contract = VoiceOrchestrator::new(accounts(1), NOW);
    contract
        .create_user_profile(
            accounts(1),
            Some("Test User".to_string()),
            Some("Test bio".to_string()),
            Some("QmTest".to_string()),
            NOW,
        )
        .unwrap();

    assert_eq!(contract.get_user_count(), 1);
    let profile = contract.get_user_profile(accounts(1)).unwrap();
    assert_eq!(profile.display_name, Some("Test User".to_string()));
    assert_eq!(profile.bio, Some("Test bio".to_string()));
    assert!(!profile.verified);
}

#[test]
fn test_contract_address_management() {
    let mut contract = VoiceOrchestrator::new(accounts(1), NOW);
    contract.set_contract_address(&accounts(1), "voice_token".to_string(), accounts(2)).unwrap();

    assert!(contract.is_contract_deployed("voice_token".to_string()));
    let addresses = contract.get_contract_addresses();
    assert_eq!(addresses.voice_token, Some(accounts(2)));
}

#[test]
fn test_analytics_recording() {
    let mut contract = VoiceOrchestrator::new(accounts(1), NOW);
    contract
        .record_voice_play(&accounts(1), "token-1".to_string(), accounts(2), Some("US".to_string()), 120, NOW)
        .unwrap();

    let analytics = contract.get_voice_analytics("token-1".to_string()).unwrap();
    assert_eq!(analytics.total_plays, 1);
    let us = analytics.geographic_data.iter().find(|c| c.name == "US").map(|c| c.count);
    assert_eq!(us, Some(1));
    assert_eq!(contract.get_total_plays(), 1);
}

#[test]
fn new_contract_is_empty() {
    let contract = VoiceOrchestrator::new(accounts(0), NOW);
    assert_eq!(contract.get_deployed_at(), NOW);
    let stats = contract.get_platform_stats();
    assert_eq!(stats.last_updated, NOW);
    assert_eq!((stats.total_voice_nfts, stats.total_users, stats.total_plays), (0, 0, 0));
    assert_eq!((stats.total_volume, stats.dao_members, stats.active_proposals), (0, 0, 0));
    assert_eq!(contract.get_total_volume(), 0);
    let addresses = contract.get_contract_addresses();
    assert!(addresses.voice_token.is_none() && addresses.voice_nft.is_none());
    assert!(addresses.marketplace.is_none() && addresses.dao.is_none());
    for name in ["voice_token", "voice_nft", "marketplace", "dao", "other", ""] {
        assert!(!contract.is_contract_deployed(name.to_string()));
    }
    assert!(contract.get_user_profile(accounts(0)).is_none());
    assert!(contract.get_voice_analytics("token-1".to_string()).is_none());
}

#[test]
fn addresses_are_set_by_the_owner_under_four_names() {
    let mut contract = VoiceOrchestrator::new(accounts(0), NOW);
    assert_eq!(
        contract.set_contract_address(&accounts(1), "dao".to_string(), accounts(2)),
        Err(PlatformError::Unauthorized)
    );
    assert_eq!(
        contract.set_contract_address(&accounts(1), "nothing".to_string(), accounts(2)),
        Err(PlatformError::Unauthorized)
    );
    assert_eq!(
        contract.set_contract_address(&accounts(0), "nothing".to_string(), accounts(2)),
        Err(PlatformError::InvalidContractType)
    );
    for (i, name) in ["voice_token", "voice_nft", "marketplace", "dao"].into_iter().enumerate() {
        assert!(!contract.is_contract_deployed(name.to_string()));
        contract.set_contract_address(&accounts(0), name.to_string(), accounts(i + 1)).unwrap();
        assert!(contract.is_contract_deployed(name.to_string()));
    }
    let addresses = contract.get_contract_addresses();
    assert_eq!(addresses.voice_token, Some(accounts(1)));
    assert_eq!(addresses.voice_nft, Some(accounts(2)));
    assert_eq!(addresses.marketplace, Some(accounts(3)));
    assert_eq!(addresses.dao, Some(accounts(4)));
    contract.set_contract_address(&accounts(0), "dao".to_string(), accounts(5)).unwrap();
    assert_eq!(contract.get_contract_addresses().dao, Some(accounts(5)));
    assert_eq!(contract.get_contract_addresses().marketplace, Some(accounts(3)));
}

#[test]
fn profiles_are_made_replaced_updated_and_verified() {
    let mut contract = VoiceOrchestrator::new(accounts(0), NOW);
    contract.create_user_profile(accounts(1), None, Some("bio".to_string()), None, NOW + 1).unwrap();
    contract.create_user_profile(accounts(2), Some("C".to_string()), None, None, NOW + 2).unwrap();
    assert_eq!(contract.get_platform_stats().last_updated, NOW + 2);
    let bob = contract.get_user_profile(accounts(1)).unwrap();
    assert_eq!(bob.account_id, accounts(1));
    assert_eq!((bob.display_name, bob.bio, bob.avatar_ipfs), (None, Some("bio".to_string()), None));
    assert_eq!((bob.total_voice_nfts, bob.total_earnings, bob.reputation_score), (0, 0, 0));
    assert_eq!(bob.joined_at, NOW + 1);

    assert_eq!(
        contract.update_user_profile(accounts(3), Some("D".to_string()), None, None),
        Err(PlatformError::ProfileNotFound)
    );
    contract.update_user_profile(accounts(1), Some("Bob".to_string()), None, Some("Qm".to_string())).unwrap();
    let bob = contract.get_user_profile(accounts(1)).unwrap();
    assert_eq!(bob.display_name, Some("Bob".to_string()));
    assert_eq!(bob.bio, Some("bio".to_string()));
    assert_eq!(bob.avatar_ipfs, Some("Qm".to_string()));

    assert_eq!(contract.verify_user(&accounts(1), accounts(1)), Err(PlatformError::Unauthorized));
    contract.verify_user(&accounts(0), accounts(1)).unwrap();
    contract.verify_user(&accounts(0), accounts(4)).unwrap();
    assert!(contract.get_user_profile(accounts(1)).unwrap().verified);
    assert!(!contract.get_user_profile(accounts(2)).unwrap().verified);
    assert!(contract.get_user_profile(accounts(4)).is_none());

    // A second profile of one account replaces the first; the count goes up all the same.
    contract.create_user_profile(accounts(1), None, None, None, NOW + 9).unwrap();
    let bob = contract.get_user_profile(accounts(1)).unwrap();
    assert_eq!((bob.display_name, bob.bio, bob.verified, bob.joined_at), (None, None, false, NOW + 9));
    assert_eq!(contract.get_user_count(), 3);
    assert_eq!(contract.get_user_profile(accounts(2)).unwrap().display_name, Some("C".to_string()));
}

#[test]
fn plays_are_counted_by_token_and_country() {
    let mut contract = VoiceOrchestrator::new(accounts(0), NOW);
    let play = |c: &mut VoiceOrchestrator, caller: usize, token: &str, country: Option<&str>, now: u64| {
        c.record_voice_play(&accounts(caller), token.to_string(), accounts(5), country.map(str::to_string), 60, now)
    };
    assert_eq!(play(&mut contract, 1, "t1", None, NOW), Err(PlatformError::Unauthorized));
    contract.set_contract_address(&accounts(0), "voice_nft".to_string(), accounts(1)).unwrap();
    contract.set_contract_address(&accounts(0), "marketplace".to_string(), accounts(2)).unwrap();
    assert_eq!(play(&mut contract, 2, "t1", None, NOW), Err(PlatformError::Unauthorized));
    play(&mut contract, 1, "t1", Some("US"), NOW + 1).unwrap();
    play(&mut contract, 0, "t1", Some("DE"), NOW + 2).unwrap();
    play(&mut contract, 0, "t1", Some("US"), NOW + 3).unwrap();
    play(&mut contract, 0, "t1", None, NOW + 4).unwrap();
    play(&mut contract, 0, "t2", Some("US"), NOW + 5).unwrap();
    let t1 = contract.get_voice_analytics("t1".to_string()).unwrap();
    assert_eq!(t1.token_id, "t1");
    assert_eq!(t1.total_plays, 4);
    assert_eq!(t1.unique_listeners, 0);
    assert_eq!(t1.earnings, 0);
    let counts: Vec<(String, u64)> = t1.geographic_data.into_iter().map(|c| (c.name, c.count)).collect();
    assert_eq!(counts, vec![("US".to_string(), 2), ("DE".to_string(), 1)]);
    assert!(t1.sentiment_breakdown.is_empty());
    assert_eq!(contract.get_voice_analytics("t2".to_string()).unwrap().total_plays, 1);
    assert_eq!(contract.get_total_plays(), 5);
    assert_eq!(contract.get_platform_stats().last_updated, NOW + 5);
}

#[test]
fn earnings_add_to_the_token_and_the_volume() {
    let mut contract = VoiceOrchestrator::new(accounts(0), NOW);
    contract.record_voice_play(&accounts(0), "t1".to_string(), accounts(5), None, 1, NOW).unwrap();
    assert_eq!(
        contract.update_nft_earnings(&accounts(2), "t1".to_string(), 5, NOW),
        Err(PlatformError::Unauthorized)
    );
    contract.set_contract_address(&accounts(0), "marketplace".to_string(), accounts(2)).unwrap();
    contract.update_nft_earnings(&accounts(2), "t1".to_string(), 5, NOW + 1).unwrap();
    contract.update_nft_earnings(&accounts(0), "t1".to_string(), 7, NOW + 2).unwrap();
    assert_eq!(contract.get_voice_analytics("t1".to_string()).unwrap().earnings, 12);
    assert_eq!(contract.get_total_volume(), 12);
    assert_eq!(contract.get_platform_stats().last_updated, NOW + 2);
    // A token without figures: nothing changes, not even the time.
    contract.update_nft_earnings(&accounts(0), "t9".to_string(), 100, NOW + 3).unwrap();
    assert_eq!(contract.get_total_volume(), 12);
    assert_eq!(contract.get_platform_stats().last_updated, NOW + 2);
    assert!(contract.get_voice_analytics("t9".to_string()).is_none());
    assert_eq!(
        contract.update_nft_earnings(&accounts(0), "t1".to_string(), u128::MAX, NOW),
        Err(PlatformError::ArithmeticOverflow)
    );
    assert_eq!(contract.get_total_volume(), 12);
}

#[test]
fn stats_are_set_where_given() {
    let mut contract = VoiceOrchestrator::new(accounts(0), NOW);
    assert_eq!(
        contract.update_platform_stats(&accounts(1), Some(1), None, None, NOW),
        Err(PlatformError::Unauthorized)
    );
    contract.update_platform_stats(&accounts(0), Some(10), None, Some(3), NOW + 1).unwrap();
    let stats = contract.get_platform_stats();
    assert_eq!((stats.total_voice_nfts, stats.dao_members, stats.active_proposals), (10, 0, 3));
    contract.update_platform_stats(&accounts(0), None, Some(8), None, NOW + 2).unwrap();
    let stats = contract.get_platform_stats();
    assert_eq!((stats.total_voice_nfts, stats.dao_members, stats.active_proposals), (10, 8, 3));
    assert_eq!(stats.last_updated, NOW + 2);
}

#[test]
fn questions_to_other_contracts_need_their_address() {
    let mut contract = VoiceOrchestrator::new(accounts(0), NOW);
    assert_eq!(
        contract.cross_contract_voice_balance(accounts(3)).unwrap_err(),
        PlatformError::ContractNotSet
    );
    assert_eq!(contract.cross_contract_nft_count(accounts(3)).unwrap_err(), PlatformError::ContractNotSet);
    contract.set_contract_address(&accounts(0), "voice_token".to_string(), accounts(1)).unwrap();
    contract.set_contract_address(&accounts(0), "voice_nft".to_string(), accounts(2)).unwrap();
    let q = contract.cross_contract_voice_balance(accounts(3)).unwrap();
    assert_eq!((q.contract, q.method.as_str(), q.account_id), (accounts(1), "ft_balance_of", accounts(3)));
    let q = contract.cross_contract_nft_count(accounts(4)).unwrap();
    assert_eq!(
        (q.contract, q.method.as_str(), q.account_id),
        (accounts(2), "nft_supply_for_owner", accounts(4))
    );
}

#[test]
fn administration_is_the_owners() {
    let mut contract = VoiceOrchestrator::new(accounts(0), NOW);
    assert_eq!(contract.pause_platform(&accounts(1)), Err(PlatformError::Unauthorized));
    assert_eq!(contract.unpause_platform(&accounts(1)), Err(PlatformError::Unauthorized));
    assert_eq!(contract.transfer_ownership(&accounts(1), accounts(1)), Err(PlatformError::Unauthorized));
    assert_eq!(contract.update_version(&accounts(1), "2".to_string()), Err(PlatformError::Unauthorized));
    contract.pause_platform(&accounts(0)).unwrap();
    assert!(contract.is_paused());
    contract.unpause_platform(&accounts(0)).unwrap();
    assert!(!contract.is_paused());
    contract.update_version(&accounts(0), "1.1.0".to_string()).unwrap();
    assert_eq!(contract.get_version(), "1.1.0");
    contract.transfer_ownership(&accounts(0), accounts(1)).unwrap();
    assert_eq!(contract.get_owner(), accounts(1));
    assert_eq!(contract.pause_platform(&accounts(0)), Err(PlatformError::Unauthorized));
    contract.pause_platform(&accounts(1)).unwrap();
}

#[test]
fn summary_lists_seven_keys() {
    let mut contract = VoiceOrchestrator::new(accounts(0), NOW);
    contract.create_user_profile(accounts(1), None, None, None, NOW).unwrap();
    contract.record_voice_play(&accounts(0), "t".to_string(), accounts(1), None, 1, NOW).unwrap();
    contract.update_nft_earnings(&accounts(0), "t".to_string(), 1_000_000_000_000_000_000_000_000, NOW).unwrap();
    contract.update_platform_stats(&accounts(0), Some(12), None, None, NOW).unwrap();
    contract.pause_platform(&accounts(0)).unwrap();
    let summary = contract.get_contract_summary();
    let expected = [
        ("owner", "alice"),
        ("version", "1.0.0"),
        ("paused", "true"),
        ("total_users", "1"),
        ("total_nfts", "12"),
        ("total_plays", "1"),
        ("total_volume", "1000000000000000000000000"),
    ];
    assert_eq!(summary.len(), expected.len());
    for ((key, value), (k, v)) in summary.iter().zip(expected) {
        assert_eq!((key.as_str(), value.as_str()), (k, v));
    }
}

#[test]
fn token_records_hold_their_parts() {
    let analysis = AIAnalysis {
        transcription: "hello".to_string(),
        sentiment: "positive".to_string(),
        topics: vec!["greeting".to_string()],
        insights: vec![],
        quality_score: 90,
        authenticity_score: 80,
    };
    let copy = analysis.clone();
    assert_eq!(copy.transcription, "hello");
    assert_eq!(copy.topics, vec!["greeting".to_string()]);
    assert_eq!((copy.quality_score, copy.authenticity_score), (90, 80));
    let metadata = VoiceNFTMetadata {
        title: "t".to_string(),
        description: "d".to_string(),
        creator: accounts(0),
        category: "music".to_string(),
        duration: 120,
        file_size: 1024,
        ipfs_hash: "Qm".to_string(),
        audio_ipfs_hash: "Qa".to_string(),
        tags: vec![],
        ai_analysis: Some(analysis),
        access_type: AccessType::TokenGated { min_tokens: 5 },
        created_at: NOW,
    };
    assert_eq!(metadata.access_type, AccessType::TokenGated { min_tokens: 5 });
    assert_ne!(metadata.access_type, AccessType::Public);
    assert_ne!(AccessType::DAOOnly, AccessType::Public);
}

#[test]
fn platform_reasons_are_short_texts() {
    assert_eq!(PlatformError::Unauthorized.message(), "Not authorized");
    assert_eq!(PlatformError::InvalidContractType.message(), "Invalid contract type");
    assert_eq!(PlatformError::ProfileNotFound.message(), "User profile not found");
    assert_eq!(PlatformError::ContractNotSet.message(), "Contract not set");
    assert_eq!(PlatformError::ArithmeticOverflow.message(), "Arithmetic overflow");
}

#[test]
fn a_platform_state_with_an_account_twice_is_refused() {
    let fresh = || {
        let mut c = VoiceOrchestrator::new(accounts(0), NOW);
        c.create_user_profile(accounts(1), None, None, None, NOW).unwrap();
        c.create_user_profile(accounts(2), None, None, None, NOW).unwrap();
        c.record_voice_play(&accounts(0), "t".to_string(), accounts(1), Some("US".to_string()), 1, NOW).unwrap();
        c.record_voice_play(&accounts(0), "t".to_string(), accounts(1), Some("DE".to_string()), 1, NOW).unwrap();
        c.into_snapshot()
    };
    let s = fresh();
    assert!(s.is_well_formed());
    let back = VoiceOrchestrator::from_snapshot(s).unwrap();
    assert_eq!(back.get_total_plays(), 2);
    let mut s = fresh();
    s.user_profiles[1].account_id = accounts(1);
    assert!(VoiceOrchestrator::from_snapshot(s).is_none());
    let mut s = fresh();
    s.voice_analytics[0].geographic_data[1].name = "US".to_string();
    assert!(VoiceOrchestrator::from_snapshot(s).is_none());
    let mut s = fresh();
    let twin = s.voice_analytics[0].clone();
    s.voice_analytics.push(twin);
    assert!(VoiceOrchestrator::from_snapshot(s).is_none());
}
