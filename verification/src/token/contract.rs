//! The token itself: the state it keeps and the calls that change it. Every
//! call either succeeds and leaves the token as its contract says, or fails
//! with the reason and leaves the token as it was.

use crate::account::AccountId;
use crate::keyed::{contains_key, distinct_keys, find, keys_of, lemma_position, lemma_push_fresh};
use crate::ledger::{
    distinct_names, total_amount, get_amount, lemma_with_amount, named_amounts, names, set_amount,
    NamedAmount,
};
use crate::text::{clone_strings, texts};
use crate::token::model::{
    allowance_table, lemma_initial_wf, lemma_transferred, lemma_with_allowance,
    lemma_without_minter, owners, transferred, with_allowance, OwnerAllowances, TokenError,
    TokenMetadata, TokenState,
};
use vstd::prelude::*;
use vstd::string::*;

verus! {

/// The token.
pub struct VoiceToken {
    accounts: Vec<NamedAmount>,
    allowances: Vec<OwnerAllowances>,
    total_supply: u128,
    metadata: TokenMetadata,
    owner: AccountId,
    minters: Vec<AccountId>,
    pause_transfers: bool,
}

impl View for VoiceToken {
    type V = TokenState;

    closed spec fn view(&self) -> TokenState {
        TokenState {
            balances: named_amounts(self.accounts@),
            allowances: allowance_table(self.allowances@),
            total_supply: self.total_supply,
            metadata: self.metadata@,
            owner: self.owner@,
            minters: texts(self.minters@),
            pause_transfers: self.pause_transfers,
        }
    }
}

/// The whole state of a token as plain records, for keeping it between calls.
/// Not every such value is the state of a token: see [`TokenState::wf`].
#[derive(Debug)]
pub struct TokenSnapshot {
    pub accounts: Vec<NamedAmount>,
    pub allowances: Vec<OwnerAllowances>,
    pub total_supply: u128,
    pub metadata: TokenMetadata,
    pub owner: AccountId,
    pub minters: Vec<AccountId>,
    pub pause_transfers: bool,
}

impl View for TokenSnapshot {
    type V = TokenState;

    open spec fn view(&self) -> TokenState {
        TokenState {
            balances: named_amounts(self.accounts@),
            allowances: allowance_table(self.allowances@),
            total_supply: self.total_supply,
            metadata: self.metadata@,
            owner: self.owner@,
            minters: texts(self.minters@),
            pause_transfers: self.pause_transfers,
        }
    }
}

/// Whether no owner is in `allowances` twice and no list a spender twice.
pub fn allowances_in_order(allowances: &Vec<OwnerAllowances>) -> (ok: bool)
    ensures
        ok == (owners(allowance_table(allowances@)).no_duplicates() && forall|i: int|
            0 <= i < allowance_table(allowances@).len() ==> names(
                (#[trigger] allowance_table(allowances@)[i]).1,
            ).no_duplicates()),
{
    let ghost table = allowance_table(allowances@);
    proof {
        assert(keys_of(allowances@) =~= owners(table));
    }
    if !distinct_keys(allowances) {
        return false;
    }
    let mut i: usize = 0;
    while i < allowances.len()
        invariant
            i <= allowances.len(),
            table == allowance_table(allowances@),
            forall|j: int| 0 <= j < i ==> names((#[trigger] table[j]).1).no_duplicates(),
        decreases allowances.len() - i,
    {
        if !distinct_names(&allowances[i].spenders) {
            assert(!names(table[i as int].1).no_duplicates());
            return false;
        }
        i += 1;
    }
    true
}

impl TokenSnapshot {
    /// Whether the state is that of a token: see [`TokenState::wf`].
    pub fn is_well_formed(&self) -> (ok: bool)
        ensures
            ok == self@.wf(),
    {
        proof {
            assert(keys_of(self.minters@) =~= self@.minters);
        }
        if !distinct_names(&self.accounts) {
            return false;
        }
        match total_amount(&self.accounts) {
            Some(total) => {
                if total != self.total_supply {
                    return false;
                }
            },
            None => {
                return false;
            },
        }
        self.metadata.total_supply == self.total_supply && allowances_in_order(&self.allowances)
            && distinct_keys(&self.minters)
    }
}

impl VoiceToken {
    /// The state of the token as plain records.
    pub fn into_snapshot(self) -> (s: TokenSnapshot)
        ensures
            s@ == self@,
    {
        TokenSnapshot {
            accounts: self.accounts,
            allowances: self.allowances,
            total_supply: self.total_supply,
            metadata: self.metadata,
            owner: self.owner,
            minters: self.minters,
            pause_transfers: self.pause_transfers,
        }
    }

    /// The token with the state `s`, where that state is well formed; nothing
    /// where it is not.
    pub fn from_snapshot(s: TokenSnapshot) -> (r: Option<Self>)
        ensures
            match r {
                Some(token) => s@.wf() && token@ == s@ && token.wf(),
                None => !s@.wf(),
            },
    {
        if !s.is_well_formed() {
            return None;
        }
        Some(
            VoiceToken {
                accounts: s.accounts,
                allowances: s.allowances,
                total_supply: s.total_supply,
                metadata: s.metadata,
                owner: s.owner,
                minters: s.minters,
                pause_transfers: s.pause_transfers,
            },
        )
    }

    /// The token is well formed: see [`TokenState::wf`].
    pub open spec fn wf(&self) -> bool {
        self@.wf()
    }

    proof fn lemma_keys(&self)
        ensures
            keys_of(self.allowances@) == owners(self@.allowances),
            keys_of(self.minters@) == self@.minters,
    {
        assert(keys_of(self.allowances@) =~= owners(self@.allowances));
        assert(keys_of(self.minters@) =~= self@.minters);
    }

    /// A new token with the given supply, all of it the owner's.
    pub fn new(owner: AccountId, total_supply: u128) -> (token: Self)
        ensures
            token@ == TokenState::initial(owner@, total_supply),
            token.wf(),
    {
        let mut accounts: Vec<NamedAmount> = Vec::new();
        accounts.push(NamedAmount { name: owner.clone(), amount: total_supply });
        let mut minters: Vec<AccountId> = Vec::new();
        minters.push(owner.clone());
        let token = VoiceToken {
            accounts,
            allowances: Vec::new(),
            total_supply,
            metadata: TokenMetadata {
                name: String::from_str("Voice Token"),
                symbol: String::from_str("VOICE"),
                decimals: 24,
                total_supply,
            },
            owner,
            minters,
            pause_transfers: false,
        };
        proof {
            let m = TokenState::initial(owner@, total_supply);
            assert(token@.balances =~= m.balances);
            assert(token@.allowances =~= m.allowances);
            assert(token@.minters =~= m.minters);
            assert(token@ =~= m);
            lemma_initial_wf(owner@, total_supply);
        }
        token
    }

    /// The supply.
    pub fn ft_total_supply(&self) -> (r: u128)
        ensures
            r == self@.total_supply,
    {
        self.total_supply
    }

    /// The balance of `account_id`: 0 for an account that never held any.
    pub fn ft_balance_of(&self, account_id: AccountId) -> (r: u128)
        requires
            self.wf(),
        ensures
            r == self@.balance_of(account_id@),
    {
        get_amount(&self.accounts, &account_id)
    }

    /// Moves `amount` from `sender_id` to `receiver_id`.
    fn internal_transfer(&mut self, sender_id: &AccountId, receiver_id: &AccountId, amount: u128, memo: Option<String>)
        requires
            names(old(self)@.balances).no_duplicates(),
            crate::ledger::sum(old(self)@.balances) <= u128::MAX,
            old(self)@.balance_of(sender_id@) >= amount,
        ensures
            final(self)@ == (TokenState {
                balances: transferred(old(self)@.balances, sender_id@, receiver_id@, amount),
                ..old(self)@
            }),
    {
        proof {
            lemma_transferred(self@.balances, sender_id@, receiver_id@, amount);
        }
        let sender_balance: u128 = get_amount(&self.accounts, sender_id);
        set_amount(&mut self.accounts, sender_id, sender_balance - amount);
        let receiver_balance: u128 = get_amount(&self.accounts, receiver_id);
        set_amount(&mut self.accounts, receiver_id, receiver_balance + amount);
        proof {
            assert(self@ =~= (TokenState {
                balances: transferred(old(self)@.balances, sender_id@, receiver_id@, amount),
                ..old(self)@
            }));
        }
    }

    /// Moves `amount` from `sender` to `receiver_id`.
    ///
    /// Fails with `TransfersPaused`, else with `InsufficientBalance`.
    pub fn ft_transfer(&mut self, sender: &AccountId, receiver_id: AccountId, amount: u128, memo: Option<String>) -> (r:
        Result<(), TokenError>)
        requires
            old(self).wf(),
        ensures
            final(self).wf(),
            match r {
                Ok(_) => old(self)@.transfer_error(sender@, amount) is None && final(self)@ == old(self)@.transfer_next(sender@, receiver_id@, amount),
                Err(e) => old(self)@.transfer_error(sender@, amount) == Some(e) && final(self)@ == old(self)@,
            },
    {
        if self.pause_transfers {
            return Err(TokenError::TransfersPaused);
        }
        if get_amount(&self.accounts, sender) < amount {
            return Err(TokenError::InsufficientBalance);
        }
        proof {
            lemma_transferred(self@.balances, sender@, receiver_id@, amount);
        }
        self.internal_transfer(sender, &receiver_id, amount, memo);
        Ok(())
    }

    /// What `spender_id` may spend of the tokens of `owner_id`.
    fn get_allowance(&self, owner_id: &AccountId, spender_id: &AccountId) -> (r: u128)
        requires
            self.wf(),
        ensures
            r == self@.allowance(owner_id@, spender_id@),
    {
        proof {
            self.lemma_keys();
        }
        match find(&self.allowances, owner_id) {
            Some(i) => {
                proof {
                    lemma_position(owners(self@.allowances), owner_id@, i as int);
                    assert(self@.allowances[i as int].1 == named_amounts(self.allowances[i as int].spenders@));
                }
                get_amount(&self.allowances[i].spenders, spender_id)
            },
            None => 0,
        }
    }

    /// Sets what `spender_id` may spend of the tokens of `owner_id`.
    fn set_allowance(&mut self, owner_id: &AccountId, spender_id: &AccountId, amount: u128)
        requires
            old(self).wf(),
        ensures
            final(self)@ == (TokenState {
                allowances: with_allowance(old(self)@.allowances, owner_id@, spender_id@, amount),
                ..old(self)@
            }),
            final(self).wf(),
    {
        proof {
            self.lemma_keys();
            lemma_with_allowance(self@.allowances, owner_id@, spender_id@, amount);
        }
        match find(&self.allowances, owner_id) {
            Some(i) => {
                proof {
                    lemma_position(owners(self@.allowances), owner_id@, i as int);
                    assert(self@.allowances[i as int].1 == named_amounts(self.allowances[i as int].spenders@));
                }
                set_amount(&mut self.allowances[i].spenders, spender_id, amount);
                proof {
                    assert(self@.allowances =~= with_allowance(
                        old(self)@.allowances,
                        owner_id@,
                        spender_id@,
                        amount,
                    ));
                }
            },
            None => {
                let mut spenders: Vec<NamedAmount> = Vec::new();
                spenders.push(NamedAmount { name: spender_id.clone(), amount });
                assert(named_amounts(spenders@) =~= seq![(spender_id@, amount)]);
                self.allowances.push(OwnerAllowances { owner: owner_id.clone(), spenders });
                proof {
                    assert(self@.allowances =~= with_allowance(
                        old(self)@.allowances,
                        owner_id@,
                        spender_id@,
                        amount,
                    ));
                }
            },
        }
        proof {
            assert(self@ =~= (TokenState {
                allowances: with_allowance(old(self)@.allowances, owner_id@, spender_id@, amount),
                ..old(self)@
            }));
        }
    }

    /// Moves `amount` from `sender_id` to `receiver_id` on behalf of `spender`,
    /// out of what `sender_id` has approved for it.
    ///
    /// Fails with `TransfersPaused`, else with `InsufficientAllowance`, else with
    /// `InsufficientBalance`.
    pub fn ft_transfer_from(
        &mut self,
        spender: &AccountId,
        sender_id: AccountId,
        receiver_id: AccountId,
        amount: u128,
        memo: Option<String>,
    ) -> (r: Result<(), TokenError>)
        requires
            old(self).wf(),
        ensures
            final(self).wf(),
            match r {
                Ok(_) => old(self)@.transfer_from_error(spender@, sender_id@, amount) is None && final(self)@ == old(self)@.transfer_from_next(spender@, sender_id@, receiver_id@, amount),
                Err(e) => old(self)@.transfer_from_error(spender@, sender_id@, amount) == Some(e) && final(self)@ == old(self)@,
            },
    {
        if self.pause_transfers {
            return Err(TokenError::TransfersPaused);
        }
        let allowance: u128 = self.get_allowance(&sender_id, spender);
        if allowance < amount {
            return Err(TokenError::InsufficientAllowance);
        }
        if get_amount(&self.accounts, &sender_id) < amount {
            return Err(TokenError::InsufficientBalance);
        }
        proof {
            lemma_transferred(self@.balances, sender_id@, receiver_id@, amount);
        }
        self.set_allowance(&sender_id, spender, allowance - amount);
        self.internal_transfer(&sender_id, &receiver_id, amount, memo);
        proof {
            assert(self@ =~= old(self)@.transfer_from_next(spender@, sender_id@, receiver_id@, amount));
        }
        Ok(())
    }

    /// Lets `spender_id` spend `amount` of the tokens of `owner_id`, in place of
    /// what it could spend before.
    pub fn ft_approve(&mut self, owner_id: &AccountId, spender_id: AccountId, amount: u128)
        requires
            old(self).wf(),
        ensures
            final(self).wf(),
            final(self)@ == (TokenState {
                allowances: with_allowance(old(self)@.allowances, owner_id@, spender_id@, amount),
                ..old(self)@
            }),
            final(self)@.allowance(owner_id@, spender_id@) == amount,
    {
        proof {
            lemma_with_allowance(self@.allowances, owner_id@, spender_id@, amount);
        }
        self.set_allowance(owner_id, &spender_id, amount);
    }

    /// What `spender_id` may spend of the tokens of `owner_id`.
    pub fn ft_allowance(&self, owner_id: AccountId, spender_id: AccountId) -> (r: u128)
        requires
            self.wf(),
        ensures
            r == self@.allowance(owner_id@, spender_id@),
    {
        self.get_allowance(&owner_id, &spender_id)
    }

    /// Makes `amount` new tokens for `account_id`. Only a minter may.
    ///
    /// Fails with `Unauthorized`, else with `ArithmeticOverflow` where the supply
    /// would leave its range.
    pub fn mint(&mut self, caller: &AccountId, account_id: AccountId, amount: u128) -> (r: Result<(), TokenError>)
        requires
            old(self).wf(),
        ensures
            final(self).wf(),
            match r {
                Ok(_) => old(self)@.mint_error(caller@, amount) is None && final(self)@ == old(self)@.mint_next(account_id@, amount),
                Err(e) => old(self)@.mint_error(caller@, amount) == Some(e) && final(self)@ == old(self)@,
            },
    {
        proof {
            self.lemma_keys();
        }
        if !contains_key(&self.minters, caller) {
            return Err(TokenError::Unauthorized);
        }
        let supply: u128 = match self.total_supply.checked_add(amount) {
            Some(s) => s,
            None => {
                return Err(TokenError::ArithmeticOverflow);
            },
        };
        let balance: u128 = get_amount(&self.accounts, &account_id);
        proof {
            lemma_with_amount(self@.balances, account_id@, (balance + amount) as u128);
        }
        set_amount(&mut self.accounts, &account_id, balance + amount);
        self.total_supply = supply;
        self.metadata.total_supply = supply;
        proof {
            assert(self@ =~= old(self)@.mint_next(account_id@, amount));
        }
        Ok(())
    }

    /// Destroys `amount` of the tokens of `account_id`.
    ///
    /// Fails with `InsufficientBalance`.
    pub fn burn(&mut self, account_id: &AccountId, amount: u128) -> (r: Result<(), TokenError>)
        requires
            old(self).wf(),
        ensures
            final(self).wf(),
            match r {
                Ok(_) => old(self)@.balance_of(account_id@) >= amount && final(self)@ == old(self)@.burn_next(account_id@, amount),
                Err(e) => e == TokenError::InsufficientBalance && old(self)@.balance_of(account_id@) < amount
                    && final(self)@ == old(self)@,
            },
    {
        let balance: u128 = get_amount(&self.accounts, account_id);
        if balance < amount {
            return Err(TokenError::InsufficientBalance);
        }
        proof {
            lemma_with_amount(self@.balances, account_id@, (balance - amount) as u128);
        }
        set_amount(&mut self.accounts, account_id, balance - amount);
        self.total_supply = self.total_supply - amount;
        self.metadata.total_supply = self.total_supply;
        proof {
            assert(self@ =~= old(self)@.burn_next(account_id@, amount));
        }
        Ok(())
    }

    /// Puts `minter` among the minters. Only the owner may.
    pub fn add_minter(&mut self, caller: &AccountId, minter: AccountId) -> (r: Result<(), TokenError>)
        requires
            old(self).wf(),
        ensures
            final(self).wf(),
            match r {
                Ok(_) => caller@ == old(self)@.owner && final(self)@ == old(self)@.with_minter(minter@),
                Err(e) => e == TokenError::Unauthorized && caller@ != old(self)@.owner && final(self)@
                    == old(self)@,
            },
    {
        if !(*caller == self.owner) {
            return Err(TokenError::Unauthorized);
        }
        proof {
            self.lemma_keys();
        }
        if !contains_key(&self.minters, &minter) {
            proof {
                lemma_push_fresh(self@.minters, minter@);
            }
            self.minters.push(minter);
            proof {
                assert(self@.minters =~= old(self)@.minters.push(minter@));
                assert(self@ =~= old(self)@.with_minter(minter@));
            }
        }
        Ok(())
    }

    /// Takes `minter` from among the minters. Only the owner may.
    pub fn remove_minter(&mut self, caller: &AccountId, minter: AccountId) -> (r: Result<(), TokenError>)
        requires
            old(self).wf(),
        ensures
            final(self).wf(),
            match r {
                Ok(_) => caller@ == old(self)@.owner && final(self)@ == old(self)@.without_minter(minter@),
                Err(e) => e == TokenError::Unauthorized && caller@ != old(self)@.owner && final(self)@
                    == old(self)@,
            },
    {
        if !(*caller == self.owner) {
            return Err(TokenError::Unauthorized);
        }
        proof {
            self.lemma_keys();
        }
        match find(&self.minters, &minter) {
            Some(i) => {
                proof {
                    lemma_position(self@.minters, minter@, i as int);
                    lemma_without_minter(self@.minters, minter@);
                }
                let _ = self.minters.remove(i);
                proof {
                    assert(self@.minters =~= old(self)@.minters.remove(i as int));
                    assert(self@ =~= old(self)@.without_minter(minter@));
                }
            },
            None => {},
        }
        Ok(())
    }

    /// Pauses the transfers. Only the owner may.
    pub fn pause_transfers(&mut self, caller: &AccountId) -> (r: Result<(), TokenError>)
        ensures
            match r {
                Ok(_) => caller@ == old(self)@.owner && final(self)@ == (TokenState {
                    pause_transfers: true,
                    ..old(self)@
                }),
                Err(e) => e == TokenError::Unauthorized && caller@ != old(self)@.owner && final(self)@
                    == old(self)@,
            },
    {
        if !(*caller == self.owner) {
            return Err(TokenError::Unauthorized);
        }
        self.pause_transfers = true;
        proof {
            assert(self@ =~= (TokenState { pause_transfers: true, ..old(self)@ }));
        }
        Ok(())
    }

    /// Lifts the pause. Only the owner may.
    pub fn unpause_transfers(&mut self, caller: &AccountId) -> (r: Result<(), TokenError>)
        ensures
            match r {
                Ok(_) => caller@ == old(self)@.owner && final(self)@ == (TokenState {
                    pause_transfers: false,
                    ..old(self)@
                }),
                Err(e) => e == TokenError::Unauthorized && caller@ != old(self)@.owner && final(self)@
                    == old(self)@,
            },
    {
        if !(*caller == self.owner) {
            return Err(TokenError::Unauthorized);
        }
        self.pause_transfers = false;
        proof {
            assert(self@ =~= (TokenState { pause_transfers: false, ..old(self)@ }));
        }
        Ok(())
    }

    /// Hands the token over to `new_owner`. Only the owner may. The minters stay
    /// as they are.
    pub fn transfer_ownership(&mut self, caller: &AccountId, new_owner: AccountId) -> (r: Result<(), TokenError>)
        ensures
            match r {
                Ok(_) => caller@ == old(self)@.owner && final(self)@ == (TokenState {
                    owner: new_owner@,
                    ..old(self)@
                }),
                Err(e) => e == TokenError::Unauthorized && caller@ != old(self)@.owner && final(self)@
                    == old(self)@,
            },
    {
        if !(*caller == self.owner) {
            return Err(TokenError::Unauthorized);
        }
        self.owner = new_owner;
        proof {
            assert(self@ =~= (TokenState { owner: new_owner@, ..old(self)@ }));
        }
        Ok(())
    }

    /// The owner of the token.
    pub fn owner(&self) -> (r: AccountId)
        ensures
            r@ == self@.owner,
    {
        self.owner.clone()
    }

    /// What the token is called, and how much of it there is.
    pub fn get_metadata(&self) -> (r: TokenMetadata)
        ensures
            r@ == self@.metadata,
    {
        self.metadata.clone()
    }

    /// The minters, in the order in which they were added.
    pub fn get_minters(&self) -> (r: Vec<AccountId>)
        ensures
            texts(r@) == self@.minters,
    {
        clone_strings(&self.minters)
    }

    /// Whether the transfers are paused.
    pub fn is_paused(&self) -> (r: bool)
        ensures
            r == self@.pause_transfers,
    {
        self.pause_transfers
    }
}

/// The supply is the sum of the balances, and no balance is more than the supply.
pub proof fn law_supply_is_conserved(s: TokenState, account: Seq<char>)
    requires
        s.wf(),
    ensures
        crate::ledger::sum(s.balances) == s.total_supply,
        s.balance_of(account) <= s.total_supply,
{
    lemma_with_amount(s.balances, account, 0);
}

/// A transfer takes from the sender what it gives to the receiver, and leaves
/// every other balance and the supply alone.
pub proof fn law_transfer_moves_the_amount(
    s: TokenState,
    sender: Seq<char>,
    receiver: Seq<char>,
    amount: u128,
    other: Seq<char>,
)
    requires
        s.wf(),
        s.transfer_error(sender, amount) is None,
    ensures
        s.transfer_next(sender, receiver, amount).total_supply == s.total_supply,
        sender != receiver ==> s.transfer_next(sender, receiver, amount).balance_of(sender) == s.balance_of(
            sender,
        ) - amount,
        sender != receiver ==> s.transfer_next(sender, receiver, amount).balance_of(receiver)
            == s.balance_of(receiver) + amount,
        sender == receiver ==> s.transfer_next(sender, receiver, amount).balance_of(sender) == s.balance_of(
            sender,
        ),
        other != sender && other != receiver ==> s.transfer_next(sender, receiver, amount).balance_of(other)
            == s.balance_of(other),
{
    lemma_transferred(s.balances, sender, receiver, amount);
}

} // verus!
