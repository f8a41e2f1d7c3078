//! The records of the token, the token as a mathematical value, what holds of
//! every such value, and what each call makes of it.

use crate::account::AccountId;
use crate::keyed::{lemma_position, lemma_push_fresh};
use crate::ledger::{amount_of, lemma_with_amount, names, sum, with_amount};
use crate::text::{decimal_text, opt_text};
use crate::token::model::{allowance_of, owners, transferred, with_allowance};
use vstd::prelude::*;
use vstd::string::*;

verus! {

/// The supply of a new token: a billion tokens of eighteen decimals.
pub const TOTAL_SUPPLY: u128 = 1_000_000_000_000_000_000_000_000_000_000;

/// The decimals of the token.
pub const DECIMALS: u8 = 18;

/// What the token is called, in the textual form: the supply in decimal.
#[derive(Debug)]
pub struct FungibleTokenMetadataView {
    pub name: String,
    pub symbol: String,
    pub decimals: u8,
    pub total_supply: String,
    pub icon: Option<String>,
}

/// The view of a [`FungibleTokenMetadataView`].
pub struct FungibleTokenMetadataViewModel {
    pub name: Seq<char>,
    pub symbol: Seq<char>,
    pub decimals: u8,
    pub total_supply: Seq<char>,
    pub icon: Option<Seq<char>>,
}

impl View for FungibleTokenMetadataView {
    type V = FungibleTokenMetadataViewModel;

    open spec fn view(&self) -> FungibleTokenMetadataViewModel {
        FungibleTokenMetadataViewModel {
            name: self.name@,
            symbol: self.symbol@,
            decimals: self.decimals,
            total_supply: self.total_supply@,
            icon: opt_text(self.icon),
        }
    }
}

/// What the token is called, and the supply that it started with.
#[derive(Debug)]
pub struct FungibleTokenMetadata {
    pub name: String,
    pub symbol: String,
    pub decimals: u8,
    pub total_supply: u128,
    pub icon: Option<String>,
}

/// The view of a [`FungibleTokenMetadata`].
pub struct FungibleTokenMetadataModel {
    pub name: Seq<char>,
    pub symbol: Seq<char>,
    pub decimals: u8,
    pub total_supply: u128,
    pub icon: Option<Seq<char>>,
}

impl View for FungibleTokenMetadata {
    type V = FungibleTokenMetadataModel;

    open spec fn view(&self) -> FungibleTokenMetadataModel {
        FungibleTokenMetadataModel {
            name: self.name@,
            symbol: self.symbol@,
            decimals: self.decimals,
            total_supply: self.total_supply,
            icon: opt_text(self.icon),
        }
    }
}

/// The record of a transfer: who gave, who took, how much, and the note that
/// went with it.
#[derive(Debug)]
pub struct TransferEvent {
    pub from: AccountId,
    pub to: AccountId,
    pub amount: u128,
    pub memo: Option<String>,
}

/// The view of a [`TransferEvent`].
pub struct TransferEventModel {
    pub from: Seq<char>,
    pub to: Seq<char>,
    pub amount: u128,
    pub memo: Option<Seq<char>>,
}

impl View for TransferEvent {
    type V = TransferEventModel;

    open spec fn view(&self) -> TransferEventModel {
        TransferEventModel { from: self.from@, to: self.to@, amount: self.amount, memo: opt_text(self.memo) }
    }
}

/// The textual form of the metadata.
pub open spec fn metadata_to_view(m: FungibleTokenMetadataModel) -> FungibleTokenMetadataViewModel {
    FungibleTokenMetadataViewModel {
        name: m.name,
        symbol: m.symbol,
        decimals: m.decimals,
        total_supply: decimal_text(m.total_supply as nat),
        icon: m.icon,
    }
}

/// Why a call on the token failed.
#[derive(Clone, Copy, Debug, PartialEq, Eq, Structural)]
pub enum FtError {
    CannotTransferToSelf,
    AmountNotPositive,
    InsufficientBalance,
    InsufficientAllowance,
    /// The caller is not the owner.
    Unauthorized,
    /// The supply would leave the range of its type.
    ArithmeticOverflow,
}

impl FtError {
    /// The short reason shown to the caller.
    pub open spec fn message_text(self) -> Seq<char> {
        match self {
            FtError::CannotTransferToSelf => "Cannot transfer to self"@,
            FtError::AmountNotPositive => "Amount must be positive"@,
            FtError::InsufficientBalance => "Insufficient balance"@,
            FtError::InsufficientAllowance => "Insufficient allowance"@,
            FtError::Unauthorized => "Only owner can mint tokens"@,
            FtError::ArithmeticOverflow => "Arithmetic overflow"@,
        }
    }

    /// The short reason shown to the caller.
    pub fn message(self) -> (s: String)
        ensures
            s@ == self.message_text(),
    {
        let text: &str = match self {
            FtError::CannotTransferToSelf => "Cannot transfer to self",
            FtError::AmountNotPositive => "Amount must be positive",
            FtError::InsufficientBalance => "Insufficient balance",
            FtError::InsufficientAllowance => "Insufficient allowance",
            FtError::Unauthorized => "Only owner can mint tokens",
            FtError::ArithmeticOverflow => "Arithmetic overflow",
        };
        String::from_str(text)
    }
}

/// The accounts with `who` registered.
pub open spec fn registered(accounts: Seq<Seq<char>>, who: Seq<char>) -> Seq<Seq<char>> {
    if accounts.contains(who) {
        accounts
    } else {
        accounts.push(who)
    }
}

/// The balances with a balance of 0 for `who`, where `who` is not registered.
pub open spec fn opened(balances: Seq<(Seq<char>, u128)>, accounts: Seq<Seq<char>>, who: Seq<char>) -> Seq<
    (Seq<char>, u128),
> {
    if accounts.contains(who) {
        balances
    } else {
        with_amount(balances, who, 0)
    }
}

/// The token as a mathematical value.
#[verifier::ext_equal]
pub struct FtState {
    pub total_supply: u128,
    pub owner_id: Seq<char>,
    pub balances: Seq<(Seq<char>, u128)>,
    pub allowances: Seq<(Seq<char>, Seq<(Seq<char>, u128)>)>,
    /// The registered accounts, in the order in which they were registered.
    pub accounts: Seq<Seq<char>>,
    pub metadata: FungibleTokenMetadataModel,
}

impl FtState {
    /// The token is well formed: no account has two balances, the balances add
    /// up to the supply, an account that is not registered holds nothing, no
    /// account is registered twice, and no owner has two lists of spenders nor
    /// a list a spender twice.
    pub open spec fn wf(self) -> bool {
        &&& names(self.balances).no_duplicates()
        &&& sum(self.balances) == self.total_supply
        &&& self.accounts.no_duplicates()
        &&& forall|who: Seq<char>| !self.accounts.contains(who) ==> #[trigger] amount_of(self.balances, who) == 0
        &&& owners(self.allowances).no_duplicates()
        &&& forall|i: int|
            0 <= i < self.allowances.len() ==> names((#[trigger] self.allowances[i]).1).no_duplicates()
    }

    /// The balance of `account`.
    pub open spec fn balance_of(self, account: Seq<char>) -> nat {
        amount_of(self.balances, account)
    }

    /// What `spender` may spend of the tokens of `owner`.
    pub open spec fn allowance(self, owner: Seq<char>, spender: Seq<char>) -> nat {
        allowance_of(self.allowances, owner, spender)
    }

    /// A new token: the whole supply is the owner's, who is registered.
    pub open spec fn initial(owner_id: Seq<char>) -> FtState {
        FtState {
            total_supply: TOTAL_SUPPLY,
            owner_id,
            balances: seq![(owner_id, TOTAL_SUPPLY)],
            allowances: Seq::empty(),
            accounts: seq![owner_id],
            metadata: FungibleTokenMetadataModel {
                name: "Voice Token"@,
                symbol: "VOICE"@,
                decimals: DECIMALS,
                total_supply: TOTAL_SUPPLY,
                icon: None,
            },
        }
    }

    /// Why a transfer from `sender` to `receiver` fails, if it does.
    pub open spec fn transfer_error(self, sender: Seq<char>, receiver: Seq<char>, amount: u128) -> Option<
        FtError,
    > {
        if sender == receiver {
            Some(FtError::CannotTransferToSelf)
        } else if amount == 0 {
            Some(FtError::AmountNotPositive)
        } else if self.balance_of(sender) < amount {
            Some(FtError::InsufficientBalance)
        } else {
            None
        }
    }

    /// The token after a transfer: the receiver is registered, and the amount
    /// has gone from the sender to the receiver.
    pub open spec fn transfer_next(self, sender: Seq<char>, receiver: Seq<char>, amount: u128) -> FtState {
        FtState {
            accounts: registered(self.accounts, receiver),
            balances: transferred(opened(self.balances, self.accounts, receiver), sender, receiver, amount),
            ..self
        }
    }

    /// Why `ft_transfer_from` fails, if it does.
    pub open spec fn transfer_from_error(
        self,
        spender: Seq<char>,
        sender: Seq<char>,
        receiver: Seq<char>,
        amount: u128,
    ) -> Option<FtError> {
        if self.allowance(sender, spender) < amount {
            Some(FtError::InsufficientAllowance)
        } else {
            self.transfer_error(sender, receiver, amount)
        }
    }

    /// The token after `ft_transfer_from`: the transfer is made, and the
    /// allowance is less by the amount.
    pub open spec fn transfer_from_next(
        self,
        spender: Seq<char>,
        sender: Seq<char>,
        receiver: Seq<char>,
        amount: u128,
    ) -> FtState {
        FtState {
            allowances: with_allowance(
                self.allowances,
                sender,
                spender,
                (self.allowance(sender, spender) - amount) as u128,
            ),
            ..self.transfer_next(sender, receiver, amount)
        }
    }

    /// The token after `storage_deposit` for `account`.
    pub open spec fn register_next(self, account: Seq<char>) -> FtState {
        FtState {
            accounts: registered(self.accounts, account),
            balances: opened(self.balances, self.accounts, account),
            ..self
        }
    }

    /// Why `mint` fails, if it does.
    pub open spec fn mint_error(self, caller: Seq<char>, amount: u128) -> Option<FtError> {
        if caller != self.owner_id {
            Some(FtError::Unauthorized)
        } else if self.total_supply + amount > u128::MAX {
            Some(FtError::ArithmeticOverflow)
        } else {
            None
        }
    }

    /// The token after `mint`: the account has the amount more and is
    /// registered, and the supply has grown by the amount.
    pub open spec fn mint_next(self, account: Seq<char>, amount: u128) -> FtState {
        FtState {
            balances: with_amount(self.balances, account, (self.balance_of(account) + amount) as u128),
            total_supply: (self.total_supply + amount) as u128,
            accounts: registered(self.accounts, account),
            ..self
        }
    }

    /// The token after `burn`.
    pub open spec fn burn_next(self, account: Seq<char>, amount: u128) -> FtState {
        FtState {
            balances: with_amount(self.balances, account, (self.balance_of(account) - amount) as u128),
            total_supply: (self.total_supply - amount) as u128,
            ..self
        }
    }
}

/// A new token is well formed.
pub proof fn lemma_initial_wf(owner_id: Seq<char>)
    ensures
        FtState::initial(owner_id).wf(),
{
    let s = FtState::initial(owner_id);
    assert(names(s.balances) =~= seq![owner_id]);
    assert(names(s.balances)[0] == owner_id);
    assert(s.accounts[0] == owner_id);
    lemma_position(names(s.balances), owner_id, 0);
    assert(s.balances.drop_last() =~= Seq::<(Seq<char>, u128)>::empty());
    assert(sum(s.balances) == TOTAL_SUPPLY) by {
        reveal_with_fuel(sum, 2);
    }
    assert(owners(s.allowances) =~= Seq::<Seq<char>>::empty());
}

/// Registering an account keeps the token well formed.
pub proof fn lemma_register_wf(s: FtState, account: Seq<char>)
    requires
        s.wf(),
    ensures
        s.register_next(account).wf(),
        s.register_next(account).accounts.contains(account),
        forall|who: Seq<char>| s.register_next(account).balance_of(who) == s.balance_of(who),
{
    let t = s.register_next(account);
    if !s.accounts.contains(account) {
        assert(amount_of(s.balances, account) == 0);
        lemma_with_amount(s.balances, account, 0);
        lemma_push_fresh(s.accounts, account);
        assert(t.accounts[s.accounts.len() as int] == account);
        assert forall|who: Seq<char>| !t.accounts.contains(who) implies #[trigger] amount_of(
            t.balances,
            who,
        ) == 0 by {
            if s.accounts.contains(who) {
                let i = choose|i: int| 0 <= i < s.accounts.len() && s.accounts[i] == who;
                assert(t.accounts[i] == who);
            }
            assert(amount_of(s.balances, who) == 0);
        }
    }
}

/// A transfer keeps the token well formed.
pub proof fn lemma_transfer_wf(s: FtState, sender: Seq<char>, receiver: Seq<char>, amount: u128)
    requires
        s.wf(),
        s.transfer_error(sender, receiver, amount) is None,
    ensures
        s.transfer_next(sender, receiver, amount).wf(),
        s.transfer_next(sender, receiver, amount).balance_of(sender) == s.balance_of(sender) - amount,
        s.transfer_next(sender, receiver, amount).balance_of(receiver) == s.balance_of(receiver) + amount,
        forall|other: Seq<char>|
            other != sender && other != receiver ==> s.transfer_next(sender, receiver, amount).balance_of(
                other,
            ) == s.balance_of(other),
{
    let r = s.register_next(receiver);
    lemma_register_wf(s, receiver);
    crate::token::model::lemma_transferred(r.balances, sender, receiver, amount);
    let t = s.transfer_next(sender, receiver, amount);
    assert(s.accounts.contains(sender)) by {
        if !s.accounts.contains(sender) {
            assert(amount_of(s.balances, sender) == 0);
        }
    }
    assert forall|who: Seq<char>| !t.accounts.contains(who) implies #[trigger] amount_of(
        t.balances,
        who,
    ) == 0 by {
        if s.accounts.contains(sender) && !r.accounts.contains(sender) {
            let i = choose|i: int| 0 <= i < s.accounts.len() && s.accounts[i] == sender;
            assert(r.accounts[i] == sender);
        }
        assert(who != receiver);
        assert(who != sender);
        assert(amount_of(r.balances, who) == 0);
    }
}

/// Minting keeps the token well formed.
pub proof fn lemma_mint_wf(s: FtState, account: Seq<char>, amount: u128)
    requires
        s.wf(),
        s.total_supply + amount <= u128::MAX,
    ensures
        s.balance_of(account) + amount <= u128::MAX,
        s.mint_next(account, amount).wf(),
{
    let t = s.mint_next(account, amount);
    lemma_with_amount(s.balances, account, (s.balance_of(account) + amount) as u128);
    if !s.accounts.contains(account) {
        lemma_push_fresh(s.accounts, account);
        assert(t.accounts[s.accounts.len() as int] == account);
    }
    assert forall|who: Seq<char>| !t.accounts.contains(who) implies #[trigger] amount_of(
        t.balances,
        who,
    ) == 0 by {
        if s.accounts.contains(who) {
            let i = choose|i: int| 0 <= i < s.accounts.len() && s.accounts[i] == who;
            assert(t.accounts[i] == who);
        }
        assert(amount_of(s.balances, who) == 0);
    }
}

/// Burning keeps the token well formed.
pub proof fn lemma_burn_wf(s: FtState, account: Seq<char>, amount: u128)
    requires
        s.wf(),
        s.balance_of(account) >= amount,
    ensures
        s.total_supply >= amount,
        s.burn_next(account, amount).wf(),
{
    let t = s.burn_next(account, amount);
    lemma_with_amount(s.balances, account, (s.balance_of(account) - amount) as u128);
    assert forall|who: Seq<char>| !t.accounts.contains(who) implies #[trigger] amount_of(
        t.balances,
        who,
    ) == 0 by {
        assert(amount_of(s.balances, who) == 0);
    }
}

} // verus!
