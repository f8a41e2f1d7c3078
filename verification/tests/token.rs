use voice_contracts::token::contract::VoiceToken;
use voice_contracts::token::model::TokenError;

fn accounts(i: usize) -> String {
    ["alice", "bob", "charlie", "danny", "eugene", "fargo"][i].to_string()
}

#[test]
fn test_token_creation() {
    let total_supply = 1_000_000_000_000_000_000_000_000_000u128;
    let token = VoiceToken::new(accounts(1), total_supply);

    assert_eq!(token.ft_total_supply(), total_supply);
    assert_eq!(token.ft_balance_of(accounts(1)), total_supply);
    assert_eq!(token.get_metadata().symbol, "VOICE");
}

#[test]
fn test_token_transfer() {
    let mut token = VoiceToken::new(accounts(1), 1000);
    token.ft_transfer(&accounts(1), accounts(2), 100, None).unwrap();

    assert_eq!(token.ft_balance_of(accounts(1)), 900);
    assert_eq!(token.ft_balance_of(accounts(2)), 100);
}

#[test]
fn test_token_mint() {
    let mut token = VoiceToken::new(accounts(1), 1000);
    token.mint(&accounts(1), accounts(2), 500).unwrap();

    assert_eq!(token.ft_total_supply(), 1500);
    assert_eq!(token.ft_balance_of(accounts(2)), 500);
}

#[test]
fn token_starts_with_its_owner_as_the_one_minter() {
    let token = VoiceToken::new(accounts(0), 77);
    let metadata = token.get_metadata();
    assert_eq!(metadata.name, "Voice Token");
    assert_eq!(metadata.symbol, "VOICE");
    assert_eq!(metadata.decimals, 24);
    assert_eq!(metadata.total_supply, 77);
    assert_eq!(token.owner(), accounts(0));
    assert_eq!(token.get_minters(), vec![accounts(0)]);
    assert!(!token.is_paused());
    assert_eq!(token.ft_balance_of(accounts(1)), 0);
    assert_eq!(token.ft_allowance(accounts(0), accounts(1)), 0);
}

#[test]
fn transfers_keep_the_supply() {
    let mut token = VoiceToken::new(accounts(0), 1_000);
    assert_eq!(
        token.ft_transfer(&accounts(0), accounts(1), 1_001, None),
        Err(TokenError::InsufficientBalance)
    );
    assert_eq!(token.ft_transfer(&accounts(1), accounts(0), 1, None), Err(TokenError::InsufficientBalance));
    token.ft_transfer(&accounts(0), accounts(1), 1_000, Some("all".to_string())).unwrap();
    token.ft_transfer(&accounts(1), accounts(2), 400, None).unwrap();
    token.ft_transfer(&accounts(2), accounts(2), 400, None).unwrap();
    token.ft_transfer(&accounts(3), accounts(2), 0, None).unwrap();
    let balances: Vec<u128> = (0..4).map(|i| token.ft_balance_of(accounts(i))).collect();
    assert_eq!(balances, vec![0, 600, 400, 0]);
    assert_eq!(balances.iter().sum::<u128>(), token.ft_total_supply());
}

#[test]
fn a_full_supply_moves_without_overflow() {
    let mut token = VoiceToken::new(accounts(0), u128::MAX);
    token.ft_transfer(&accounts(0), accounts(1), u128::MAX, None).unwrap();
    token.ft_transfer(&accounts(1), accounts(1), u128::MAX, None).unwrap();
    assert_eq!(token.ft_balance_of(accounts(1)), u128::MAX);
    assert_eq!(token.mint(&accounts(0), accounts(2), 1), Err(TokenError::ArithmeticOverflow));
    assert_eq!(token.ft_total_supply(), u128::MAX);
}

#[test]
fn allowances_are_spent_by_the_spender() {
    let mut token = VoiceToken::new(accounts(0), 1_000);
    token.ft_approve(&accounts(0), accounts(1), 300);
    token.ft_approve(&accounts(0), accounts(2), 50);
    token.ft_approve(&accounts(3), accounts(1), 10);
    assert_eq!(token.ft_allowance(accounts(0), accounts(1)), 300);
    assert_eq!(token.ft_allowance(accounts(0), accounts(2)), 50);
    assert_eq!(token.ft_allowance(accounts(1), accounts(0)), 0);
    assert_eq!(
        token.ft_transfer_from(&accounts(1), accounts(0), accounts(4), 301, None),
        Err(TokenError::InsufficientAllowance)
    );
    assert_eq!(
        token.ft_transfer_from(&accounts(1), accounts(3), accounts(4), 10, None),
        Err(TokenError::InsufficientBalance)
    );
    assert_eq!(token.ft_allowance(accounts(3), accounts(1)), 10);
    token.ft_transfer_from(&accounts(1), accounts(0), accounts(4), 120, None).unwrap();
    assert_eq!(token.ft_allowance(accounts(0), accounts(1)), 180);
    assert_eq!(token.ft_allowance(accounts(0), accounts(2)), 50);
    assert_eq!(token.ft_balance_of(accounts(0)), 880);
    assert_eq!(token.ft_balance_of(accounts(4)), 120);
    assert_eq!(token.ft_balance_of(accounts(1)), 0);
    token.ft_approve(&accounts(0), accounts(1), 5);
    assert_eq!(token.ft_allowance(accounts(0), accounts(1)), 5);
}

#[test]
fn a_pause_stops_transfers_only() {
    let mut token = VoiceToken::new(accounts(0), 1_000);
    token.ft_approve(&accounts(0), accounts(1), 300);
    assert_eq!(token.pause_transfers(&accounts(1)), Err(TokenError::Unauthorized));
    token.pause_transfers(&accounts(0)).unwrap();
    assert!(token.is_paused());
    assert_eq!(token.ft_transfer(&accounts(0), accounts(1), 1, None), Err(TokenError::TransfersPaused));
    assert_eq!(
        token.ft_transfer_from(&accounts(1), accounts(0), accounts(1), 1, None),
        Err(TokenError::TransfersPaused)
    );
    token.mint(&accounts(0), accounts(1), 7).unwrap();
    token.burn(&accounts(1), 2).unwrap();
    assert_eq!(token.ft_balance_of(accounts(1)), 5);
    assert_eq!(token.unpause_transfers(&accounts(1)), Err(TokenError::Unauthorized));
    token.unpause_transfers(&accounts(0)).unwrap();
    token.ft_transfer(&accounts(0), accounts(1), 1, None).unwrap();
    assert_eq!(token.ft_balance_of(accounts(1)), 6);
}

#[test]
fn minting_and_burning_change_the_supply() {
    let mut token = VoiceToken::new(accounts(0), 1_000);
    assert_eq!(token.mint(&accounts(1), accounts(1), 5), Err(TokenError::Unauthorized));
    token.mint(&accounts(0), accounts(0), 5).unwrap();
    assert_eq!(token.ft_balance_of(accounts(0)), 1_005);
    assert_eq!(token.get_metadata().total_supply, 1_005);
    assert_eq!(token.burn(&accounts(0), 1_006), Err(TokenError::InsufficientBalance));
    assert_eq!(token.burn(&accounts(1), 1), Err(TokenError::InsufficientBalance));
    token.burn(&accounts(0), 1_000).unwrap();
    token.burn(&accounts(1), 0).unwrap();
    assert_eq!(token.ft_total_supply(), 5);
    assert_eq!(token.get_metadata().total_supply, 5);
    assert_eq!(token.ft_balance_of(accounts(0)), 5);
}

#[test]
fn minters_are_kept_by_the_owner() {
    let mut token = VoiceToken::new(accounts(0), 1_000);
    assert_eq!(token.add_minter(&accounts(1), accounts(1)), Err(TokenError::Unauthorized));
    assert_eq!(token.remove_minter(&accounts(1), accounts(0)), Err(TokenError::Unauthorized));
    token.add_minter(&accounts(0), accounts(1)).unwrap();
    token.add_minter(&accounts(0), accounts(2)).unwrap();
    token.add_minter(&accounts(0), accounts(1)).unwrap();
    assert_eq!(token.get_minters(), vec![accounts(0), accounts(1), accounts(2)]);
    token.mint(&accounts(2), accounts(3), 9).unwrap();
    token.remove_minter(&accounts(0), accounts(0)).unwrap();
    token.remove_minter(&accounts(0), accounts(4)).unwrap();
    assert_eq!(token.get_minters(), vec![accounts(1), accounts(2)]);
    assert_eq!(token.mint(&accounts(0), accounts(3), 9), Err(TokenError::Unauthorized));
    assert_eq!(token.transfer_ownership(&accounts(1), accounts(1)), Err(TokenError::Unauthorized));
    token.transfer_ownership(&accounts(0), accounts(3)).unwrap();
    assert_eq!(token.owner(), accounts(3));
    assert_eq!(token.add_minter(&accounts(0), accounts(0)), Err(TokenError::Unauthorized));
    token.add_minter(&accounts(3), accounts(0)).unwrap();
    assert_eq!(token.get_minters(), vec![accounts(1), accounts(2), accounts(0)]);
}

#[test]
fn token_reasons_are_short_texts() {
    assert_eq!(TokenError::TransfersPaused.message(), "Transfers are paused");
    assert_eq!(TokenError::InsufficientBalance.message(), "Insufficient balance");
    assert_eq!(TokenError::InsufficientAllowance.message(), "Insufficient allowance");
    assert_eq!(TokenError::Unauthorized.message(), "Not authorized");
    assert_eq!(TokenError::ArithmeticOverflow.message(), "Arithmetic overflow");
}

#[test]
fn a_token_state_that_does_not_add_up_is_refused() {
    let fresh = || {
        let mut token = VoiceToken::new(accounts(0), 1_000);
        token.ft_transfer(&accounts(0), accounts(1), 400, None).unwrap();
        token.ft_approve(&accounts(0), accounts(1), 5);
        token.into_snapshot()
    };
    let s = fresh();
    assert!(s.is_well_formed());
    let back = VoiceToken::from_snapshot(s).unwrap();
    assert_eq!(back.ft_balance_of(accounts(1)), 400);
    assert_eq!(back.ft_allowance(accounts(0), accounts(1)), 5);
    let mut s = fresh();
    s.accounts[0].amount += 1;
    assert!(VoiceToken::from_snapshot(s).is_none());
    let mut s = fresh();
    s.total_supply = 999;
    s.metadata.total_supply = 999;
    assert!(VoiceToken::from_snapshot(s).is_none());
    let mut s = fresh();
    s.metadata.total_supply = 999;
    assert!(VoiceToken::from_snapshot(s).is_none());
    let mut s = fresh();
    s.accounts[1].name = accounts(0);
    assert!(VoiceToken::from_snapshot(s).is_none());
    let mut s = fresh();
    s.accounts[0].amount = u128::MAX;
    assert!(VoiceToken::from_snapshot(s).is_none());
    let mut s = fresh();
    s.minters.push(accounts(0));
    assert!(VoiceToken::from_snapshot(s).is_none());
    let mut s = fresh();
    s.allowances[0].spenders.push(voice_contracts::ledger::NamedAmount { name: accounts(1), amount: 1 });
    assert!(VoiceToken::from_snapshot(s).is_none());
}
