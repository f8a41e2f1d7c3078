//! The token itself: the state it keeps and the calls that change it. Every
//! call either succeeds and leaves the token as its contract says, or fails
//! with the reason and leaves the token as it was.

use crate::account::AccountId;
use crate::keyed::{contains_key, distinct_keys, find, keys_of, lemma_position};
use crate::ledger::{
    distinct_names, get_amount, named_amounts, names, set_amount, total_amount, NamedAmount,
};
use crate::token::contract::allowances_in_order;
use crate::text::{clone_opt_string, clone_strings, decimal_text, opt_text, texts, u128_to_string};
use crate::token::model::{
    allowance_table, lemma_transferred, lemma_with_allowance, owners, with_allowance, OwnerAllowances,
};
use crate::voice_token::model::{
    lemma_burn_wf, lemma_initial_wf, lemma_mint_wf, lemma_register_wf, lemma_transfer_wf,
    metadata_to_view, FtError, FtState, FungibleTokenMetadata, FungibleTokenMetadataView,
    TransferEvent, TransferEventModel, DECIMALS, TOTAL_SUPPLY,
};
use vstd::prelude::*;
use vstd::string::*;

verus! {

/// The token.
pub struct VoiceToken {
    total_supply: u128,
    owner_id: AccountId,
    balances: Vec<NamedAmount>,
    allowances: Vec<OwnerAllowances>,
    accounts: Vec<AccountId>,
    metadata: FungibleTokenMetadata,
}

impl View for VoiceToken {
    type V = FtState;

    closed spec fn view(&self) -> FtState {
        FtState {
            total_supply: self.total_supply,
            owner_id: self.owner_id@,
            balances: named_amounts(self.balances@),
            allowances: allowance_table(self.allowances@),
            accounts: texts(self.accounts@),
            metadata: self.metadata@,
        }
    }
}

/// The whole state of a token as plain records, for keeping it between calls.
/// Not every such value is the state of a token: see [`FtState::wf`].
#[derive(Debug)]
pub struct FtSnapshot {
    pub total_supply: u128,
    pub owner_id: AccountId,
    pub balances: Vec<NamedAmount>,
    pub allowances: Vec<OwnerAllowances>,
    pub accounts: Vec<AccountId>,
    pub metadata: FungibleTokenMetadata,
}

impl View for FtSnapshot {
    type V = FtState;

    open spec fn view(&self) -> FtState {
        FtState {
            total_supply: self.total_supply,
            owner_id: self.owner_id@,
            balances: named_amounts(self.balances@),
            allowances: allowance_table(self.allowances@),
            accounts: texts(self.accounts@),
            metadata: self.metadata@,
        }
    }
}

impl FtSnapshot {
    /// Whether the state is that of a token: see [`FtState::wf`].
    pub fn is_well_formed(&self) -> (ok: bool)
        ensures
            ok == self@.wf(),
    {
        let ghost s = self@;
        proof {
            assert(keys_of(self.accounts@) =~= s.accounts);
            assert(keys_of(self.balances@) =~= names(s.balances));
        }
        if !distinct_names(&self.balances) {
            return false;
        }
        match total_amount(&self.balances) {
            Some(total) => {
                if total != self.total_supply {
                    return false;
                }
            },
            None => {
                return false;
            },
        }
        if !distinct_keys(&self.accounts) {
            return false;
        }
        let mut i: usize = 0;
        while i < self.balances.len()
            invariant
                i <= self.balances.len(),
                s == self@,
                keys_of(self.accounts@) == s.accounts,
                names(s.balances).no_duplicates(),
                forall|j: int|
                    0 <= j < i ==> (#[trigger] s.balances[j]).1 == 0 || s.accounts.contains(s.balances[j].0),
            decreases self.balances.len() - i,
        {
            if self.balances[i].amount != 0 && !contains_key(&self.accounts, &self.balances[i].name) {
                proof {
                    let who = s.balances[i as int].0;
                    assert(names(s.balances)[i as int] == who);
                    lemma_position(names(s.balances), who, i as int);
                    assert(crate::ledger::amount_of(s.balances, who) != 0);
                }
                return false;
            }
            i += 1;
        }
        proof {
            assert forall|who: Seq<char>| !s.accounts.contains(who) implies #[trigger] crate::ledger::amount_of(
                s.balances,
                who,
            ) == 0 by {
                if names(s.balances).contains(who) {
                    crate::keyed::lemma_position_in_range(names(s.balances), who);
                    let p = crate::keyed::position(names(s.balances), who);
                    assert(s.balances[p].0 == who);
                }
            }
        }
        allowances_in_order(&self.allowances)
    }
}

impl VoiceToken {
    /// The state of the token as plain records.
    pub fn into_snapshot(self) -> (s: FtSnapshot)
        ensures
            s@ == self@,
    {
        FtSnapshot {
            total_supply: self.total_supply,
            owner_id: self.owner_id,
            balances: self.balances,
            allowances: self.allowances,
            accounts: self.accounts,
            metadata: self.metadata,
        }
    }

    /// The token with the state `s`, where that state is well formed; nothing
    /// where it is not.
    pub fn from_snapshot(s: FtSnapshot) -> (r: Option<Self>)
        ensures
            match r {
                Some(token) => s@.wf() && token@ == s@ && token.wf(),
                None => !s@.wf(),
            },
    {
        if !s.is_well_formed() {
            return None;
        }
        Some(
            VoiceToken {
                total_supply: s.total_supply,
                owner_id: s.owner_id,
                balances: s.balances,
                allowances: s.allowances,
                accounts: s.accounts,
                metadata: s.metadata,
            },
        )
    }

    /// The token is well formed: see [`FtState::wf`].
    pub open spec fn wf(&self) -> bool {
        self@.wf()
    }

    proof fn lemma_keys(&self)
        ensures
            keys_of(self.allowances@) == owners(self@.allowances),
            keys_of(self.accounts@) == self@.accounts,
    {
        assert(keys_of(self.allowances@) =~= owners(self@.allowances));
        assert(keys_of(self.accounts@) =~= self@.accounts);
    }

    /// A new token, all of it the owner's.
    pub fn new(owner_id: AccountId) -> (token: Self)
        ensures
            token@ == FtState::initial(owner_id@),
            token.wf(),
    {
        let mut balances: Vec<NamedAmount> = Vec::new();
        balances.push(NamedAmount { name: owner_id.clone(), amount: TOTAL_SUPPLY });
        let mut accounts: Vec<AccountId> = Vec::new();
        accounts.push(owner_id.clone());
        let token = VoiceToken {
            total_supply: TOTAL_SUPPLY,
            owner_id,
            balances,
            allowances: Vec::new(),
            accounts,
            metadata: FungibleTokenMetadata {
                name: String::from_str("Voice Token"),
                symbol: String::from_str("VOICE"),
                decimals: DECIMALS,
                total_supply: TOTAL_SUPPLY,
                icon: None,
            },
        };
        proof {
            let m = FtState::initial(owner_id@);
            assert(token@.balances =~= m.balances);
            assert(token@.allowances =~= m.allowances);
            assert(token@.accounts =~= m.accounts);
            assert(token@ =~= m);
            lemma_initial_wf(owner_id@);
        }
        token
    }

    /// The owner of the token.
    pub fn owner_id(&self) -> (r: AccountId)
        ensures
            r@ == self@.owner_id,
    {
        self.owner_id.clone()
    }

    /// Registers `account`, with a balance of 0, where it is not registered.
    fn register(&mut self, account: &AccountId) -> (fresh: bool)
        requires
            old(self).wf(),
        ensures
            final(self).wf(),
            fresh == !old(self)@.accounts.contains(account@),
            final(self)@ == old(self)@.register_next(account@),
    {
        proof {
            self.lemma_keys();
            lemma_register_wf(self@, account@);
        }
        if !contains_key(&self.accounts, account) {
            self.accounts.push(account.clone());
            set_amount(&mut self.balances, account, 0);
            proof {
                assert(self@.accounts =~= old(self)@.accounts.push(account@));
                assert(self@ =~= old(self)@.register_next(account@));
            }
            true
        } else {
            false
        }
    }

    /// Moves `amount` from `sender_id` to `receiver_id`, registers the receiver,
    /// and hands back the record of the transfer.
    fn internal_transfer(&mut self, sender_id: &AccountId, receiver_id: &AccountId, amount: u128, memo: Option<String>) -> (r:
        Result<TransferEvent, FtError>)
        requires
            old(self).wf(),
        ensures
            final(self).wf(),
            match r {
                Ok(event) => old(self)@.transfer_error(sender_id@, receiver_id@, amount) is None && final(self)@ == old(self)@.transfer_next(sender_id@, receiver_id@, amount)
                    && event@ == (TransferEventModel {
                    from: sender_id@,
                    to: receiver_id@,
                    amount,
                    memo: opt_text(memo),
                }),
                Err(e) => old(self)@.transfer_error(sender_id@, receiver_id@, amount) == Some(e) && final(self)@ == old(self)@,
            },
    {
        if *sender_id == *receiver_id {
            return Err(FtError::CannotTransferToSelf);
        }
        if amount == 0 {
            return Err(FtError::AmountNotPositive);
        }
        let sender_balance: u128 = get_amount(&self.balances, sender_id);
        if sender_balance < amount {
            return Err(FtError::InsufficientBalance);
        }
        proof {
            lemma_transfer_wf(self@, sender_id@, receiver_id@, amount);
            lemma_register_wf(self@, receiver_id@);
        }
        let _ = self.register(receiver_id);
        proof {
            lemma_transferred(self@.balances, sender_id@, receiver_id@, amount);
            crate::ledger::lemma_with_amount(
                self@.balances,
                sender_id@,
                (sender_balance - amount) as u128,
            );
        }
        let receiver_balance: u128 = get_amount(&self.balances, receiver_id);
        set_amount(&mut self.balances, sender_id, sender_balance - amount);
        set_amount(&mut self.balances, receiver_id, receiver_balance + amount);
        proof {
            assert(self@ =~= old(self)@.transfer_next(sender_id@, receiver_id@, amount));
        }
        Ok(TransferEvent { from: sender_id.clone(), to: receiver_id.clone(), amount, memo })
    }

    /// Moves `amount` from `sender` to `receiver_id`, registers the receiver, and
    /// hands back the record of the transfer.
    ///
    /// Fails with `CannotTransferToSelf`, else with `AmountNotPositive` for an
    /// amount of 0, else with `InsufficientBalance`.
    pub fn ft_transfer(&mut self, sender: &AccountId, receiver_id: AccountId, amount: u128, memo: Option<String>) -> (r:
        Result<TransferEvent, FtError>)
        requires
            old(self).wf(),
        ensures
            final(self).wf(),
            match r {
                Ok(event) => old(self)@.transfer_error(sender@, receiver_id@, amount) is None && final(self)@
                    == old(self)@.transfer_next(sender@, receiver_id@, amount) && event@ == (
                TransferEventModel { from: sender@, to: receiver_id@, amount, memo: opt_text(memo) }),
                Err(e) => old(self)@.transfer_error(sender@, receiver_id@, amount) == Some(e) && final(self)@ == old(self)@,
            },
    {
        self.internal_transfer(sender, &receiver_id, amount, memo)
    }

    /// What `spender_id` may spend of the tokens of `owner_id`.
    fn get_allowance(&self, owner_id: &AccountId, spender_id: &AccountId) -> (r: u128)
        requires
            self.wf(),
        ensures
            r == self@.allowance(owner_id@, spender_id@),
    {
        proof {
            self.lemma_keys();
        }
        match find(&self.allowances, owner_id) {
            Some(i) => {
                proof {
                    lemma_position(owners(self@.allowances), owner_id@, i as int);
                    assert(self@.allowances[i as int].1 == named_amounts(self.allowances[i as int].spenders@));
                }
                get_amount(&self.allowances[i].spenders, spender_id)
            },
            None => 0,
        }
    }

    /// Sets what `spender_id` may spend of the tokens of `owner_id`.
    fn set_allowance(&mut self, owner_id: &AccountId, spender_id: &AccountId, amount: u128)
        requires
            old(self).wf(),
        ensures
            final(self)@ == (FtState {
                allowances: with_allowance(old(self)@.allowances, owner_id@, spender_id@, amount),
                ..old(self)@
            }),
            final(self).wf(),
    {
        proof {
            self.lemma_keys();
            lemma_with_allowance(self@.allowances, owner_id@, spender_id@, amount);
        }
        match find(&self.allowances, owner_id) {
            Some(i) => {
                proof {
                    lemma_position(owners(self@.allowances), owner_id@, i as int);
                    assert(self@.allowances[i as int].1 == named_amounts(self.allowances[i as int].spenders@));
                }
                set_amount(&mut self.allowances[i].spenders, spender_id, amount);
                proof {
                    assert(self@.allowances =~= with_allowance(
                        old(self)@.allowances,
                        owner_id@,
                        spender_id@,
                        amount,
                    ));
                }
            },
            None => {
                let mut spenders: Vec<NamedAmount> = Vec::new();
                spenders.push(NamedAmount { name: spender_id.clone(), amount });
                assert(named_amounts(spenders@) =~= seq![(spender_id@, amount)]);
                self.allowances.push(OwnerAllowances { owner: owner_id.clone(), spenders });
                proof {
                    assert(self@.allowances =~= with_allowance(
                        old(self)@.allowances,
                        owner_id@,
                        spender_id@,
                        amount,
                    ));
                }
            },
        }
        proof {
            assert(self@ =~= (FtState {
                allowances: with_allowance(old(self)@.allowances, owner_id@, spender_id@, amount),
                ..old(self)@
            }));
        }
    }

    /// Moves `amount` from `sender_id` to `receiver_id` on behalf of `spender_id`,
    /// out of what `sender_id` has approved for it.
    fn internal_transfer_from(
        &mut self,
        sender_id: &AccountId,
        receiver_id: &AccountId,
        spender_id: &AccountId,
        amount: u128,
        memo: Option<String>,
    ) -> (r: Result<TransferEvent, FtError>)
        requires
            old(self).wf(),
        ensures
            final(self).wf(),
            match r {
                Ok(event) => old(self)@.transfer_from_error(spender_id@, sender_id@, receiver_id@, amount)
                    is None && final(self)@ == old(self)@.transfer_from_next(
                    spender_id@,
                    sender_id@,
                    receiver_id@,
                    amount,
                ) && event@ == (TransferEventModel {
                    from: sender_id@,
                    to: receiver_id@,
                    amount,
                    memo: opt_text(memo),
                }),
                Err(e) => old(self)@.transfer_from_error(spender_id@, sender_id@, receiver_id@, amount)
                    == Some(e) && final(self)@ == old(self)@,
            },
    {
        let allowance: u128 = self.get_allowance(sender_id, spender_id);
        if allowance < amount {
            return Err(FtError::InsufficientAllowance);
        }
        let event = match self.internal_transfer(sender_id, receiver_id, amount, memo) {
            Ok(event) => event,
            Err(e) => {
                return Err(e);
            },
        };
        self.set_allowance(sender_id, spender_id, allowance - amount);
        proof {
            assert(self@ =~= old(self)@.transfer_from_next(spender_id@, sender_id@, receiver_id@, amount));
        }
        Ok(event)
    }

    /// Moves `amount` from `sender_id` to `receiver_id` on behalf of `spender`,
    /// out of what `sender_id` has approved for it, registers the receiver, and
    /// hands back the record of the transfer.
    ///
    /// Fails with `InsufficientAllowance`, else with `CannotTransferToSelf`, else
    /// with `AmountNotPositive`, else with `InsufficientBalance`.
    pub fn ft_transfer_from(
        &mut self,
        spender: &AccountId,
        sender_id: AccountId,
        receiver_id: AccountId,
        amount: u128,
        memo: Option<String>,
    ) -> (r: Result<TransferEvent, FtError>)
        requires
            old(self).wf(),
        ensures
            final(self).wf(),
            match r {
                Ok(event) => old(self)@.transfer_from_error(spender@, sender_id@, receiver_id@, amount)
                    is None && final(self)@ == old(self)@.transfer_from_next(
                    spender@,
                    sender_id@,
                    receiver_id@,
                    amount,
                ) && event@ == (TransferEventModel {
                    from: sender_id@,
                    to: receiver_id@,
                    amount,
                    memo: opt_text(memo),
                }),
                Err(e) => old(self)@.transfer_from_error(spender@, sender_id@, receiver_id@, amount)
                    == Some(e) && final(self)@ == old(self)@,
            },
    {
        self.internal_transfer_from(&sender_id, &receiver_id, spender, amount, memo)
    }

    /// The balance of `account_id`, in decimal.
    pub fn ft_balance_of(&self, account_id: AccountId) -> (r: String)
        requires
            self.wf(),
        ensures
            r@ == decimal_text(self@.balance_of(account_id@)),
    {
        u128_to_string(get_amount(&self.balances, &account_id))
    }

    /// The supply, in decimal.
    pub fn ft_total_supply(&self) -> (r: String)
        ensures
            r@ == decimal_text(self@.total_supply as nat),
    {
        u128_to_string(self.total_supply)
    }

    /// What the token is called, with the supply that it started with.
    pub fn ft_metadata(&self) -> (r: FungibleTokenMetadataView)
        ensures
            r@ == metadata_to_view(self@.metadata),
    {
        FungibleTokenMetadataView {
            name: self.metadata.name.clone(),
            symbol: self.metadata.symbol.clone(),
            decimals: self.metadata.decimals,
            total_supply: u128_to_string(self.metadata.total_supply),
            icon: clone_opt_string(&self.metadata.icon),
        }
    }

    /// Registers `account_id`, or `caller` where no account is given, and says
    /// whether it was new.
    pub fn storage_deposit(&mut self, caller: &AccountId, account_id: Option<AccountId>) -> (r: bool)
        requires
            old(self).wf(),
        ensures
            final(self).wf(),
            ({
                let account = match account_id {
                    Some(a) => a@,
                    None => caller@,
                };
                r == !old(self)@.accounts.contains(account) && final(self)@ == old(self)@.register_next(
                    account,
                )
            }),
    {
        match account_id {
            Some(account) => self.register(&account),
            None => self.register(caller),
        }
    }

    /// Whether `account_id` is registered.
    pub fn storage_balance_of(&self, account_id: AccountId) -> (r: bool)
        ensures
            r == self@.accounts.contains(account_id@),
    {
        proof {
            self.lemma_keys();
        }
        contains_key(&self.accounts, &account_id)
    }

    /// The registered accounts, in the order in which they were registered.
    pub fn registered_accounts(&self) -> (r: Vec<AccountId>)
        ensures
            texts(r@) == self@.accounts,
    {
        clone_strings(&self.accounts)
    }

    /// Lets `spender_id` spend `amount` of the tokens of `owner_id`, in place of
    /// what it could spend before.
    pub fn approve(&mut self, owner_id: &AccountId, spender_id: AccountId, amount: u128)
        requires
            old(self).wf(),
        ensures
            final(self).wf(),
            final(self)@ == (FtState {
                allowances: with_allowance(old(self)@.allowances, owner_id@, spender_id@, amount),
                ..old(self)@
            }),
            final(self)@.allowance(owner_id@, spender_id@) == amount,
    {
        proof {
            lemma_with_allowance(self@.allowances, owner_id@, spender_id@, amount);
        }
        self.set_allowance(owner_id, &spender_id, amount);
    }

    /// What `spender_id` may spend of the tokens of `owner_id`, in decimal.
    pub fn allowance(&self, owner_id: AccountId, spender_id: AccountId) -> (r: String)
        requires
            self.wf(),
        ensures
            r@ == decimal_text(self@.allowance(owner_id@, spender_id@)),
    {
        u128_to_string(self.get_allowance(&owner_id, &spender_id))
    }

    /// Makes `amount` new tokens for `account_id` and registers it. Only the
    /// owner may.
    ///
    /// Fails with `Unauthorized`, else with `ArithmeticOverflow` where the supply
    /// would leave its range.
    pub fn mint(&mut self, caller: &AccountId, account_id: AccountId, amount: u128) -> (r: Result<(), FtError>)
        requires
            old(self).wf(),
        ensures
            final(self).wf(),
            match r {
                Ok(_) => old(self)@.mint_error(caller@, amount) is None && final(self)@ == old(self)@.mint_next(account_id@, amount),
                Err(e) => old(self)@.mint_error(caller@, amount) == Some(e) && final(self)@ == old(self)@,
            },
    {
        if !(*caller == self.owner_id) {
            return Err(FtError::Unauthorized);
        }
        let supply: u128 = match self.total_supply.checked_add(amount) {
            Some(s) => s,
            None => {
                return Err(FtError::ArithmeticOverflow);
            },
        };
        proof {
            self.lemma_keys();
            lemma_mint_wf(self@, account_id@, amount);
        }
        let balance: u128 = get_amount(&self.balances, &account_id);
        set_amount(&mut self.balances, &account_id, balance + amount);
        self.total_supply = supply;
        if !contains_key(&self.accounts, &account_id) {
            self.accounts.push(account_id);
            proof {
                assert(self@.accounts =~= old(self)@.accounts.push(account_id@));
            }
        }
        proof {
            assert(self@ =~= old(self)@.mint_next(account_id@, amount));
        }
        Ok(())
    }

    /// Destroys `amount` of the tokens of `account_id`.
    ///
    /// Fails with `InsufficientBalance`.
    pub fn burn(&mut self, account_id: &AccountId, amount: u128) -> (r: Result<(), FtError>)
        requires
            old(self).wf(),
        ensures
            final(self).wf(),
            match r {
                Ok(_) => old(self)@.balance_of(account_id@) >= amount && final(self)@ == old(self)@.burn_next(account_id@, amount),
                Err(e) => e == FtError::InsufficientBalance && old(self)@.balance_of(account_id@) < amount
                    && final(self)@ == old(self)@,
            },
    {
        let balance: u128 = get_amount(&self.balances, account_id);
        if balance < amount {
            return Err(FtError::InsufficientBalance);
        }
        proof {
            lemma_burn_wf(self@, account_id@, amount);
        }
        set_amount(&mut self.balances, account_id, balance - amount);
        self.total_supply = self.total_supply - amount;
        proof {
            assert(self@ =~= old(self)@.burn_next(account_id@, amount));
        }
        Ok(())
    }
}

} // verus!
