use voice_contracts::orchestrator::contract::Orchestrator;
use voice_contracts::orchestrator::model::{ContractRegistryView, OrchestratorError};

fn accounts(i: usize) -> String {
    ["alice", "bob", "charlie", "danny", "eugene", "fargo"][i].to_string()
}

/// An orchestrator of alice, with bob, charlie, danny and eugene as the token, the
/// voice token, the marketplace and the organisation contract.
fn orchestrator() -> Orchestrator {
    Orchestrator::new(accounts(0), accounts(1), accounts(2), accounts(3), accounts(4))
}

fn registry(names: [&str; 4]) -> ContractRegistryView {
    ContractRegistryView {
        voice_token_contract: names[0].to_string(),
        voice_nft_contract: names[1].to_string(),
        marketplace_contract: names[2].to_string(),
        dao_contract: names[3].to_string(),
    }
}

#[test]
fn new_orchestrator_is_empty() {
    let o = orchestrator();
    assert_eq!(o.owner_id(), accounts(0));
    let r = o.get_contract_registry();
    assert_eq!(
        (r.voice_token_contract, r.voice_nft_contract, r.marketplace_contract, r.dao_contract),
        (accounts(1), accounts(2), accounts(3), accounts(4))
    );
    let stats = o.get_platform_stats();
    assert_eq!(stats.total_voice_tokens_minted, "0");
    assert_eq!(stats.total_voice_nfts_minted, "0");
    assert_eq!(stats.total_marketplace_transactions, "0");
    assert_eq!(stats.total_dao_proposals, "0");
    assert_eq!(stats.total_active_users, "0");
    assert_eq!(stats.platform_revenue, "0");
    assert_eq!(o.get_total_operations(), "0");
    assert!(o.get_operations(None, None).is_empty());
    assert!(o.get_active_users(None, None).is_empty());
    assert!(o.get_user_activity(accounts(0)).is_none());
    assert!(o.get_platform_config("anything".to_string()).is_none());
    assert_eq!(o.get_revenue_by_contract(accounts(3)), "0");
    assert!(!o.is_paused());
}

#[test]
fn registry_is_replaced_by_the_owner_with_account_names() {
    let mut o = orchestrator();
    let good = ["token.near", "nft.near", "market.near", "dao.near"];
    assert_eq!(
        o.update_contract_registry(&accounts(1), registry(good)),
        Err(OrchestratorError::Unauthorized)
    );
    assert_eq!(
        o.update_contract_registry(&accounts(1), registry(["X", "X", "X", "X"])),
        Err(OrchestratorError::Unauthorized)
    );
    let cases = [
        (["Token", "n", "m", "d"], OrchestratorError::InvalidVoiceTokenContract),
        (["token.near", "n", "m", "d"], OrchestratorError::InvalidVoiceNftContract),
        (["token.near", "nft.near", "market..near", "d"], OrchestratorError::InvalidMarketplaceContract),
        (["token.near", "nft.near", "market.near", "dao.near."], OrchestratorError::InvalidDaoContract),
    ];
    for (names, error) in cases {
        assert_eq!(o.update_contract_registry(&accounts(0), registry(names)), Err(error));
    }
    assert_eq!(o.get_contract_registry().dao_contract, accounts(4));
    o.update_contract_registry(&accounts(0), registry(good)).unwrap();
    let r = o.get_contract_registry();
    assert_eq!(r.voice_token_contract, "token.near");
    assert_eq!(r.voice_nft_contract, "nft.near");
    assert_eq!(r.marketplace_contract, "market.near");
    assert_eq!(r.dao_contract, "dao.near");
    // The contracts of the old registry may report no more.
    assert_eq!(
        o.record_user_activity(&accounts(1), accounts(5), "dao_vote".to_string(), 0, 1),
        Err(OrchestratorError::Unauthorized)
    );
    o.record_user_activity(&"dao.near".to_string(), accounts(5), "dao_vote".to_string(), 0, 1).unwrap();
}

#[test]
fn activities_count_by_kind() {
    let mut o = orchestrator();
    let mut record = |caller: usize, who: usize, kind: &str, value: u128, now: u64| {
        o.record_user_activity(&accounts(caller), accounts(who), kind.to_string(), value, now)
    };
    assert_eq!(record(5, 5, "dao_vote", 0, 1), Err(OrchestratorError::Unauthorized));
    record(1, 5, "voice_token_transaction", 700, 10).unwrap();
    record(2, 5, "voice_nft_mint", 99, 11).unwrap();
    record(2, 5, "voice_nft_mint", 99, 12).unwrap();
    record(3, 5, "marketplace_transaction", 99, 13).unwrap();
    record(4, 5, "dao_vote", 99, 14).unwrap();
    record(0, 5, "something else", 99, 15).unwrap();
    record(0, 3, "", 1, 16).unwrap();
    let a = o.get_user_activity(accounts(5)).unwrap();
    assert_eq!(a.account_id, accounts(5));
    assert_eq!(a.voice_tokens_balance, "700");
    assert_eq!(a.voice_nfts_owned, "2");
    assert_eq!(a.marketplace_transactions, "1");
    assert_eq!(a.dao_participation, "1");
    assert_eq!(a.reputation_score, "40");
    assert_eq!(a.last_activity, "15");
    let b = o.get_user_activity(accounts(3)).unwrap();
    assert_eq!(
        (b.voice_tokens_balance.as_str(), b.reputation_score.as_str(), b.last_activity.as_str()),
        ("0", "0", "16")
    );
    assert_eq!(o.get_active_users(None, None), vec![accounts(5), accounts(3)]);
    assert_eq!(o.get_active_users(Some(1), Some(5)), vec![accounts(3)]);
    assert_eq!(o.get_active_users(Some(2), None), Vec::<String>::new());
    assert_eq!(o.get_active_users(None, Some(1)), vec![accounts(5)]);
    assert_eq!(o.get_platform_stats().total_active_users, "2");
}

#[test]
fn statistics_add_up_and_revenue_is_booked_by_contract() {
    let mut o = orchestrator();
    let mut update = |caller: usize, kind: &str, value: u128| {
        o.update_platform_stats(&accounts(caller), kind.to_string(), value)
    };
    assert_eq!(update(5, "dao_proposals", 1), Err(OrchestratorError::Unauthorized));
    update(1, "voice_tokens_minted", 1_000).unwrap();
    update(1, "voice_tokens_minted", 1).unwrap();
    update(2, "voice_nfts_minted", 3).unwrap();
    update(3, "marketplace_transactions", 4).unwrap();
    update(4, "dao_proposals", 5).unwrap();
    update(3, "platform_revenue", 60).unwrap();
    update(3, "platform_revenue", 40).unwrap();
    update(0, "platform_revenue", 7).unwrap();
    update(0, "unknown", 7).unwrap();
    assert_eq!(update(3, "platform_revenue", u128::MAX), Err(OrchestratorError::ArithmeticOverflow));
    assert_eq!(update(3, "dao_proposals", u128::MAX), Err(OrchestratorError::ArithmeticOverflow));
    update(2, "platform_revenue", u128::MAX - 107).unwrap();
    let stats = o.get_platform_stats();
    assert_eq!(stats.total_voice_tokens_minted, "1001");
    assert_eq!(stats.total_voice_nfts_minted, "3");
    assert_eq!(stats.total_marketplace_transactions, "4");
    assert_eq!(stats.total_dao_proposals, "5");
    assert_eq!(stats.platform_revenue, u128::MAX.to_string());
    assert_eq!(o.get_revenue_by_contract(accounts(3)), "100");
    assert_eq!(o.get_revenue_by_contract(accounts(0)), "7");
    assert_eq!(o.get_revenue_by_contract(accounts(2)), (u128::MAX - 107).to_string());
    assert_eq!(o.get_revenue_by_contract(accounts(1)), "0");
}

#[test]
fn operations_are_logged_in_order() {
    let mut o = orchestrator();
    assert_eq!(
        o.execute_cross_contract_call(&accounts(1), accounts(2), "m".into(), "{}".into(), 0, 1, 5).unwrap_err(),
        OrchestratorError::Unauthorized
    );
    let call = o
        .execute_cross_contract_call(&accounts(0), accounts(2), "nft_mint".into(), "{\"a\":1}".into(), 9, 30, 5)
        .unwrap();
    assert_eq!(call.target_contract, accounts(2));
    assert_eq!(call.method_name, "nft_mint");
    assert_eq!(call.args, "{\"a\":1}");
    assert_eq!((call.deposit, call.gas), (9, 30));

    let recipients = vec![accounts(3), accounts(4)];
    let ids = vec!["t1".to_string(), "t2".to_string()];
    let metadatas = vec!["{}".to_string(), "{}".to_string()];
    assert_eq!(
        o.batch_mint_voice_nfts(&accounts(1), recipients.clone(), vec![], vec![], 6),
        Err(OrchestratorError::Unauthorized)
    );
    assert_eq!(
        o.batch_mint_voice_nfts(&accounts(1), vec!["Not An Account".to_string()], vec![], vec![], 6),
        Err(OrchestratorError::InvalidRecipient)
    );
    assert_eq!(
        o.batch_mint_voice_nfts(&accounts(0), recipients.clone(), vec!["t1".to_string()], vec![], 6),
        Err(OrchestratorError::TokenIdsLengthMismatch)
    );
    assert_eq!(
        o.batch_mint_voice_nfts(&accounts(0), recipients.clone(), ids.clone(), vec![], 6),
        Err(OrchestratorError::MetadatasLengthMismatch)
    );
    assert_eq!(o.batch_mint_voice_nfts(&accounts(0), recipients, ids, metadatas, 6), Ok(2));
    assert_eq!(o.batch_mint_voice_nfts(&accounts(0), vec![], vec![], vec![], 7), Ok(3));
    assert_eq!(o.log_operation("manual".into(), accounts(5), accounts(1), "p".into(), 8), 4);
    assert_eq!(o.get_total_operations(), "4");

    let log = o.get_operations(None, None);
    assert_eq!(log.len(), 4);
    assert_eq!(log[0].id, "1");
    assert_eq!(log[0].operation_type, "cross_contract_call:nft_mint");
    assert_eq!(log[0].initiator, accounts(0));
    assert!(log[0].parameters.is_empty());
    assert_eq!(log[0].status, "pending");
    assert_eq!(log[0].created_at, "5");
    assert!(log[0].completed_at.is_none());
    assert!(log[0].result.is_none());
    assert_eq!(log[1].id, "2");
    assert_eq!(log[1].operation_type, "batch_mint_nfts");
    assert_eq!(log[1].created_at, "6");
    assert_eq!(log[3].operation_type, "manual");
    assert_eq!(log[3].initiator, accounts(5));
    let ids = |from: Option<u128>, limit: Option<u64>| -> Vec<String> {
        o.get_operations(from, limit).into_iter().map(|op| op.id).collect()
    };
    assert_eq!(ids(Some(1), Some(2)), vec!["2", "3"]);
    assert_eq!(ids(Some(3), None), vec!["4"]);
    assert_eq!(ids(Some(4), None), Vec::<String>::new());
}

#[test]
fn more_than_ten_operations_come_in_pages() {
    let mut o = orchestrator();
    for n in 0..13u64 {
        o.batch_mint_voice_nfts(&accounts(0), vec![], vec![], vec![], n).unwrap();
    }
    assert_eq!(o.get_operations(None, None).len(), 10);
    assert_eq!(o.get_operations(Some(10), None).len(), 3);
    assert_eq!(o.get_operations(None, Some(u64::MAX)).len(), 13);
}

#[test]
fn settings_and_the_pause() {
    let mut o = orchestrator();
    assert_eq!(
        o.set_platform_config(&accounts(1), "fee".into(), "1".into()),
        Err(OrchestratorError::Unauthorized)
    );
    o.set_platform_config(&accounts(0), "fee".into(), "1".into()).unwrap();
    o.set_platform_config(&accounts(0), "name".into(), "voice".into()).unwrap();
    o.set_platform_config(&accounts(0), "fee".into(), "2".into()).unwrap();
    assert_eq!(o.get_platform_config("fee".into()), Some("2".to_string()));
    assert_eq!(o.get_platform_config("name".into()), Some("voice".to_string()));
    assert_eq!(o.get_platform_config("Fee".into()), None);

    assert_eq!(o.emergency_pause(&accounts(1)), Err(OrchestratorError::Unauthorized));
    assert_eq!(o.emergency_unpause(&accounts(1)), Err(OrchestratorError::Unauthorized));
    assert!(!o.is_paused());
    o.emergency_pause(&accounts(0)).unwrap();
    assert!(o.is_paused());
    assert_eq!(o.get_platform_config("emergency_paused".into()), Some("true".to_string()));
    o.emergency_unpause(&accounts(0)).unwrap();
    assert!(!o.is_paused());
    assert_eq!(o.get_platform_config("emergency_paused".into()), Some("false".to_string()));
    o.set_platform_config(&accounts(0), "emergency_paused".into(), "TRUE".into()).unwrap();
    assert!(!o.is_paused());
    o.set_platform_config(&accounts(0), "emergency_paused".into(), "true".into()).unwrap();
    assert!(o.is_paused());
    assert_eq!(o.get_platform_config("fee".into()), Some("2".to_string()));
}

#[test]
fn orchestrator_reasons_are_short_texts() {
    assert_eq!(OrchestratorError::Unauthorized.message(), "Not authorized");
    assert_eq!(OrchestratorError::InvalidVoiceTokenContract.message(), "Invalid voice token contract ID");
    assert_eq!(OrchestratorError::InvalidVoiceNftContract.message(), "Invalid voice NFT contract ID");
    assert_eq!(OrchestratorError::InvalidMarketplaceContract.message(), "Invalid marketplace contract ID");
    assert_eq!(OrchestratorError::InvalidDaoContract.message(), "Invalid DAO contract ID");
    assert_eq!(OrchestratorError::InvalidRecipient.message(), "Invalid recipient account ID");
    assert_eq!(
        OrchestratorError::TokenIdsLengthMismatch.message(),
        "Recipients and token IDs length mismatch"
    );
    assert_eq!(
        OrchestratorError::MetadatasLengthMismatch.message(),
        "Recipients and metadatas length mismatch"
    );
    assert_eq!(OrchestratorError::ArithmeticOverflow.message(), "Arithmetic overflow");
}

#[test]
fn the_log_keeps_the_parameters() {
    let mut o = orchestrator();
    o.batch_mint_voice_nfts(
        &accounts(0),
        vec![accounts(3), accounts(4)],
        vec!["t1".to_string(), "t \"2\"".to_string()],
        vec!["{}".to_string(), "{}".to_string()],
        6,
    )
    .unwrap();
    o.execute_cross_contract_call(&accounts(0), accounts(2), "m".into(), "{\"a\":1}".into(), 0, 1, 7).unwrap();
    let s = o.into_snapshot();
    assert_eq!(s.operations[0].parameters, "recipients: [AccountId(\"danny\"), AccountId(\"eugene\")], token_ids: [\"t1\", \"t \\\"2\\\"\"]");
    assert_eq!(s.operations[0].target_contract, accounts(2));
    assert_eq!(s.operations[0].initiated_by, accounts(0));
    assert_eq!(s.operations[1].parameters, "{\"a\":1}");
    assert_eq!(s.operations[1].operation_id, 2);
    assert!(s.is_well_formed());
    let back = Orchestrator::from_snapshot(s).unwrap();
    assert_eq!(back.get_total_operations(), "2");
}

#[test]
fn an_orchestrator_state_that_does_not_add_up_is_refused() {
    let fresh = || {
        let mut o = orchestrator();
        o.record_user_activity(&accounts(0), accounts(5), "dao_vote".to_string(), 0, 1).unwrap();
        o.update_platform_stats(&accounts(3), "platform_revenue".to_string(), 10).unwrap();
        o.batch_mint_voice_nfts(&accounts(0), vec![], vec![], vec![], 1).unwrap();
        o.into_snapshot()
    };
    assert!(Orchestrator::from_snapshot(fresh()).is_some());
    let mut s = fresh();
    s.platform_stats.platform_revenue = 11;
    assert!(Orchestrator::from_snapshot(s).is_none());
    let mut s = fresh();
    s.active_users.clear();
    s.platform_stats.total_active_users = 0;
    assert!(Orchestrator::from_snapshot(s).is_none());
    let mut s = fresh();
    s.active_users.push(accounts(4));
    s.platform_stats.total_active_users = 2;
    assert!(Orchestrator::from_snapshot(s).is_none());
    let mut s = fresh();
    s.platform_stats.total_active_users = 2;
    assert!(Orchestrator::from_snapshot(s).is_none());
    let mut s = fresh();
    s.operations[0].operation_id = 2;
    assert!(Orchestrator::from_snapshot(s).is_none());
    let mut s = fresh();
    s.total_operations = 0;
    assert!(Orchestrator::from_snapshot(s).is_none());
}
