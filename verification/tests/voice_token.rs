use voice_contracts::voice_token::contract::VoiceToken;
use voice_contracts::voice_token::model::{FtError, DECIMALS, TOTAL_SUPPLY};

fn accounts(i: usize) -> String {
    ["alice", "bob", "charlie", "danny", "eugene", "fargo"][i].to_string()
}

#[test]
fn registered_token_starts_with_a_billion() {
    let token = VoiceToken::new(accounts(0));
    assert_eq!(TOTAL_SUPPLY, 1_000_000_000_000_000_000_000_000_000_000);
    assert_eq!(DECIMALS, 18);
    assert_eq!(token.owner_id(), accounts(0));
    assert_eq!(token.ft_total_supply(), "1000000000000000000000000000000");
    assert_eq!(token.ft_balance_of(accounts(0)), "1000000000000000000000000000000");
    assert_eq!(token.ft_balance_of(accounts(1)), "0");
    assert!(token.storage_balance_of(accounts(0)));
    assert!(!token.storage_balance_of(accounts(1)));
    let metadata = token.ft_metadata();
    assert_eq!(metadata.name, "Voice Token");
    assert_eq!(metadata.symbol, "VOICE");
    assert_eq!(metadata.decimals, 18);
    assert_eq!(metadata.total_supply, "1000000000000000000000000000000");
    assert!(metadata.icon.is_none());
    assert_eq!(token.allowance(accounts(0), accounts(1)), "0");
}

#[test]
fn registered_transfer_moves_and_registers() {
    let mut token = VoiceToken::new(accounts(0));
    assert_eq!(token.ft_transfer(&accounts(0), accounts(0), 1, None).unwrap_err(), FtError::CannotTransferToSelf);
    assert_eq!(token.ft_transfer(&accounts(0), accounts(1), 0, None).unwrap_err(), FtError::AmountNotPositive);
    assert_eq!(token.ft_transfer(&accounts(1), accounts(0), 1, None).unwrap_err(), FtError::InsufficientBalance);
    assert_eq!(token.ft_transfer(&accounts(0), accounts(1), TOTAL_SUPPLY + 1, None).unwrap_err(), FtError::InsufficientBalance);
    assert!(!token.storage_balance_of(accounts(1)));
    let event = token.ft_transfer(&accounts(0), accounts(1), 250, Some("memo".to_string())).unwrap();
    assert_eq!(event.from, accounts(0));
    assert_eq!(event.to, accounts(1));
    assert_eq!(event.amount, 250);
    assert_eq!(event.memo, Some("memo".to_string()));
    assert!(token.storage_balance_of(accounts(1)));
    assert_eq!(token.ft_balance_of(accounts(1)), "250");
    assert_eq!(token.ft_balance_of(accounts(0)), "999999999999999999999999999750");
    token.ft_transfer(&accounts(1), accounts(2), 250, None).unwrap();
    assert_eq!(token.ft_balance_of(accounts(1)), "0");
    assert_eq!(token.ft_balance_of(accounts(2)), "250");
    assert_eq!(token.registered_accounts(), vec![accounts(0), accounts(1), accounts(2)]);
    assert_eq!(token.ft_total_supply(), "1000000000000000000000000000000");
}

#[test]
fn registration_is_once_only() {
    let mut token = VoiceToken::new(accounts(0));
    assert!(token.storage_deposit(&accounts(1), None));
    assert!(!token.storage_deposit(&accounts(1), None));
    assert!(token.storage_deposit(&accounts(1), Some(accounts(2))));
    assert!(!token.storage_deposit(&accounts(3), Some(accounts(2))));
    assert!(!token.storage_deposit(&accounts(3), Some(accounts(0))));
    assert!(!token.storage_balance_of(accounts(3)));
    assert_eq!(token.registered_accounts(), vec![accounts(0), accounts(1), accounts(2)]);
    assert_eq!(token.ft_balance_of(accounts(0)), "1000000000000000000000000000000");
    assert_eq!(token.ft_balance_of(accounts(2)), "0");
}

#[test]
fn registered_allowances_are_spent_by_the_spender() {
    let mut token = VoiceToken::new(accounts(0));
    token.approve(&accounts(0), accounts(1), 300);
    assert_eq!(token.allowance(accounts(0), accounts(1)), "300");
    assert_eq!(token.ft_transfer_from(&accounts(1), accounts(0), accounts(2), 301, None).unwrap_err(), FtError::InsufficientAllowance);
    assert_eq!(token.ft_transfer_from(&accounts(1), accounts(0), accounts(0), 1, None).unwrap_err(), FtError::CannotTransferToSelf);
    assert_eq!(token.ft_transfer_from(&accounts(1), accounts(0), accounts(2), 0, None).unwrap_err(), FtError::AmountNotPositive);
    assert_eq!(token.ft_transfer_from(&accounts(2), accounts(0), accounts(2), 1, None).unwrap_err(), FtError::InsufficientAllowance);
    token.approve(&accounts(3), accounts(1), 5);
    assert_eq!(token.ft_transfer_from(&accounts(1), accounts(3), accounts(2), 5, None).unwrap_err(), FtError::InsufficientBalance);
    assert_eq!(token.allowance(accounts(3), accounts(1)), "5");
    assert!(!token.storage_balance_of(accounts(2)));
    let event = token.ft_transfer_from(&accounts(1), accounts(0), accounts(2), 100, None).unwrap();
    assert_eq!((event.from, event.to, event.amount, event.memo), (accounts(0), accounts(2), 100, None));
    assert_eq!(token.allowance(accounts(0), accounts(1)), "200");
    assert_eq!(token.ft_balance_of(accounts(2)), "100");
    assert_eq!(token.ft_balance_of(accounts(1)), "0");
    assert!(token.storage_balance_of(accounts(2)));
}

#[test]
fn registered_minting_is_the_owners() {
    let mut token = VoiceToken::new(accounts(0));
    assert_eq!(token.mint(&accounts(1), accounts(1), 5), Err(FtError::Unauthorized));
    token.mint(&accounts(0), accounts(1), 5).unwrap();
    assert!(token.storage_balance_of(accounts(1)));
    assert_eq!(token.ft_balance_of(accounts(1)), "5");
    assert_eq!(token.ft_total_supply(), "1000000000000000000000000000005");
    // The metadata keeps the supply that the token started with.
    assert_eq!(token.ft_metadata().total_supply, "1000000000000000000000000000000");
    assert_eq!(token.mint(&accounts(0), accounts(1), u128::MAX), Err(FtError::ArithmeticOverflow));
    assert_eq!(token.burn(&accounts(1), 6), Err(FtError::InsufficientBalance));
    token.burn(&accounts(1), 5).unwrap();
    token.burn(&accounts(4), 0).unwrap();
    assert!(!token.storage_balance_of(accounts(4)));
    assert_eq!(token.ft_balance_of(accounts(1)), "0");
    assert_eq!(token.ft_total_supply(), "1000000000000000000000000000000");
}

#[test]
fn registered_token_reasons_are_short_texts() {
    assert_eq!(FtError::CannotTransferToSelf.message(), "Cannot transfer to self");
    assert_eq!(FtError::AmountNotPositive.message(), "Amount must be positive");
    assert_eq!(FtError::InsufficientBalance.message(), "Insufficient balance");
    assert_eq!(FtError::InsufficientAllowance.message(), "Insufficient allowance");
    assert_eq!(FtError::Unauthorized.message(), "Only owner can mint tokens");
    assert_eq!(FtError::ArithmeticOverflow.message(), "Arithmetic overflow");
}

#[test]
fn a_registered_token_state_that_does_not_add_up_is_refused() {
    let fresh = || {
        let mut token = VoiceToken::new(accounts(0));
        token.ft_transfer(&accounts(0), accounts(1), 400, None).unwrap();
        token.burn(&accounts(4), 0).unwrap();
        token.into_snapshot()
    };
    let s = fresh();
    assert_eq!(s.balances.len(), 3);
    assert!(s.is_well_formed());
    let back = VoiceToken::from_snapshot(s).unwrap();
    assert_eq!(back.ft_balance_of(accounts(1)), "400");
    let mut s = fresh();
    s.accounts.pop();
    assert!(VoiceToken::from_snapshot(s).is_none());
    let mut s = fresh();
    s.balances[2].amount = 1;
    s.balances[1].amount = 399;
    assert!(VoiceToken::from_snapshot(s).is_none());
    let mut s = fresh();
    s.total_supply -= 1;
    assert!(VoiceToken::from_snapshot(s).is_none());
    let mut s = fresh();
    s.accounts.push(accounts(0));
    assert!(VoiceToken::from_snapshot(s).is_none());
}
