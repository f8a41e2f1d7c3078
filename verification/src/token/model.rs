//! The records of the token, the token as a mathematical value, what holds of
//! every such value, and what each call makes of it.

use crate::keyed::{lemma_position, lemma_position_in_range, lemma_push_fresh, position, Keyed};
use crate::ledger::{amount_of, lemma_with_amount, named_amounts, names, sum, with_amount, NamedAmount};
use vstd::prelude::*;
use vstd::string::*;

verus! {

/// What the token is called, and how much of it there is.
#[derive(Debug)]
pub struct TokenMetadata {
    pub name: String,
    pub symbol: String,
    pub decimals: u8,
    pub total_supply: u128,
}

/// The view of a [`TokenMetadata`].
pub struct TokenMetadataModel {
    pub name: Seq<char>,
    pub symbol: Seq<char>,
    pub decimals: u8,
    pub total_supply: u128,
}

impl View for TokenMetadata {
    type V = TokenMetadataModel;

    open spec fn view(&self) -> TokenMetadataModel {
        TokenMetadataModel {
            name: self.name@,
            symbol: self.symbol@,
            decimals: self.decimals,
            total_supply: self.total_supply,
        }
    }
}

impl Clone for TokenMetadata {
    fn clone(&self) -> (r: Self)
        ensures
            r@ == self@,
    {
        TokenMetadata {
            name: self.name.clone(),
            symbol: self.symbol.clone(),
            decimals: self.decimals,
            total_supply: self.total_supply,
        }
    }
}

/// What the spenders of one owner may spend.
#[derive(Debug)]
pub struct OwnerAllowances {
    pub owner: String,
    pub spenders: Vec<NamedAmount>,
}

impl Keyed for OwnerAllowances {
    open spec fn key_text(&self) -> Seq<char> {
        self.owner@
    }

    fn key(&self) -> (k: &String) {
        &self.owner
    }
}

/// The view of a list of allowances: each owner with its spenders and amounts.
pub open spec fn allowance_table(v: Seq<OwnerAllowances>) -> Seq<(Seq<char>, Seq<(Seq<char>, u128)>)> {
    v.map_values(|o: OwnerAllowances| (o.owner@, named_amounts(o.spenders@)))
}

/// Why a call on the token failed.
#[derive(Clone, Copy, Debug, PartialEq, Eq, Structural)]
pub enum TokenError {
    TransfersPaused,
    InsufficientBalance,
    InsufficientAllowance,
    /// The caller is not the one who may.
    Unauthorized,
    /// The supply would leave the range of its type.
    ArithmeticOverflow,
}

impl TokenError {
    /// The short reason shown to the caller.
    pub open spec fn message_text(self) -> Seq<char> {
        match self {
            TokenError::TransfersPaused => "Transfers are paused"@,
            TokenError::InsufficientBalance => "Insufficient balance"@,
            TokenError::InsufficientAllowance => "Insufficient allowance"@,
            TokenError::Unauthorized => "Not authorized"@,
            TokenError::ArithmeticOverflow => "Arithmetic overflow"@,
        }
    }

    /// The short reason shown to the caller.
    pub fn message(self) -> (s: String)
        ensures
            s@ == self.message_text(),
    {
        let text: &str = match self {
            TokenError::TransfersPaused => "Transfers are paused",
            TokenError::InsufficientBalance => "Insufficient balance",
            TokenError::InsufficientAllowance => "Insufficient allowance",
            TokenError::Unauthorized => "Not authorized",
            TokenError::ArithmeticOverflow => "Arithmetic overflow",
        };
        String::from_str(text)
    }
}

/// The owners of a list of allowances.
pub open spec fn owners(s: Seq<(Seq<char>, Seq<(Seq<char>, u128)>)>) -> Seq<Seq<char>> {
    s.map_values(|e: (Seq<char>, Seq<(Seq<char>, u128)>)| e.0)
}

/// What `spender` may spend of the tokens of `owner`: 0 where nothing was approved.
pub open spec fn allowance_of(
    s: Seq<(Seq<char>, Seq<(Seq<char>, u128)>)>,
    owner: Seq<char>,
    spender: Seq<char>,
) -> nat {
    if owners(s).contains(owner) {
        amount_of(s[position(owners(s), owner)].1, spender)
    } else {
        0
    }
}

/// The allowances with `amount` as what `spender` may spend of the tokens of `owner`.
pub open spec fn with_allowance(
    s: Seq<(Seq<char>, Seq<(Seq<char>, u128)>)>,
    owner: Seq<char>,
    spender: Seq<char>,
    amount: u128,
) -> Seq<(Seq<char>, Seq<(Seq<char>, u128)>)> {
    if owners(s).contains(owner) {
        let at = position(owners(s), owner);
        s.update(at, (owner, with_amount(s[at].1, spender, amount)))
    } else {
        s.push((owner, seq![(spender, amount)]))
    }
}

/// The balances after `amount` has gone from `sender` to `receiver`.
pub open spec fn transferred(
    balances: Seq<(Seq<char>, u128)>,
    sender: Seq<char>,
    receiver: Seq<char>,
    amount: u128,
) -> Seq<(Seq<char>, u128)> {
    let debited = with_amount(balances, sender, (amount_of(balances, sender) - amount) as u128);
    with_amount(debited, receiver, (amount_of(debited, receiver) + amount) as u128)
}

/// The token as a mathematical value.
#[verifier::ext_equal]
pub struct TokenState {
    pub balances: Seq<(Seq<char>, u128)>,
    pub allowances: Seq<(Seq<char>, Seq<(Seq<char>, u128)>)>,
    pub total_supply: u128,
    pub metadata: TokenMetadataModel,
    pub owner: Seq<char>,
    pub minters: Seq<Seq<char>>,
    pub pause_transfers: bool,
}

impl TokenState {
    /// The token is well formed: no account has two balances, the balances add
    /// up to the supply, the metadata tells the supply, no owner has two lists of
    /// spenders and no list a spender twice, and no minter is listed twice.
    pub open spec fn wf(self) -> bool {
        &&& names(self.balances).no_duplicates()
        &&& sum(self.balances) == self.total_supply
        &&& self.metadata.total_supply == self.total_supply
        &&& owners(self.allowances).no_duplicates()
        &&& forall|i: int|
            0 <= i < self.allowances.len() ==> names((#[trigger] self.allowances[i]).1).no_duplicates()
        &&& self.minters.no_duplicates()
    }

    /// The balance of `account`.
    pub open spec fn balance_of(self, account: Seq<char>) -> nat {
        amount_of(self.balances, account)
    }

    /// What `spender` may spend of the tokens of `owner`.
    pub open spec fn allowance(self, owner: Seq<char>, spender: Seq<char>) -> nat {
        allowance_of(self.allowances, owner, spender)
    }

    /// A new token: the whole supply is the owner's, who is the one minter.
    pub open spec fn initial(owner: Seq<char>, total_supply: u128) -> TokenState {
        TokenState {
            balances: seq![(owner, total_supply)],
            allowances: Seq::empty(),
            total_supply,
            metadata: TokenMetadataModel {
                name: "Voice Token"@,
                symbol: "VOICE"@,
                decimals: 24,
                total_supply,
            },
            owner,
            minters: seq![owner],
            pause_transfers: false,
        }
    }

    /// Why `ft_transfer` fails, if it does.
    pub open spec fn transfer_error(self, sender: Seq<char>, amount: u128) -> Option<TokenError> {
        if self.pause_transfers {
            Some(TokenError::TransfersPaused)
        } else if self.balance_of(sender) < amount {
            Some(TokenError::InsufficientBalance)
        } else {
            None
        }
    }

    /// The token after `ft_transfer`.
    pub open spec fn transfer_next(self, sender: Seq<char>, receiver: Seq<char>, amount: u128) -> TokenState {
        TokenState { balances: transferred(self.balances, sender, receiver, amount), ..self }
    }

    /// Why `ft_transfer_from` fails, if it does.
    pub open spec fn transfer_from_error(self, spender: Seq<char>, sender: Seq<char>, amount: u128) -> Option<
        TokenError,
    > {
        if self.pause_transfers {
            Some(TokenError::TransfersPaused)
        } else if self.allowance(sender, spender) < amount {
            Some(TokenError::InsufficientAllowance)
        } else if self.balance_of(sender) < amount {
            Some(TokenError::InsufficientBalance)
        } else {
            None
        }
    }

    /// The token after `ft_transfer_from`: the allowance is less by the amount,
    /// and the amount has gone from the sender to the receiver.
    pub open spec fn transfer_from_next(
        self,
        spender: Seq<char>,
        sender: Seq<char>,
        receiver: Seq<char>,
        amount: u128,
    ) -> TokenState {
        TokenState {
            allowances: with_allowance(
                self.allowances,
                sender,
                spender,
                (self.allowance(sender, spender) - amount) as u128,
            ),
            balances: transferred(self.balances, sender, receiver, amount),
            ..self
        }
    }

    /// Why `mint` fails, if it does.
    pub open spec fn mint_error(self, caller: Seq<char>, amount: u128) -> Option<TokenError> {
        if !self.minters.contains(caller) {
            Some(TokenError::Unauthorized)
        } else if self.total_supply + amount > u128::MAX {
            Some(TokenError::ArithmeticOverflow)
        } else {
            None
        }
    }

    /// The token with the supply `supply`, told by the metadata too.
    pub open spec fn with_supply(self, supply: u128) -> TokenState {
        TokenState {
            total_supply: supply,
            metadata: TokenMetadataModel { total_supply: supply, ..self.metadata },
            ..self
        }
    }

    /// The token after `mint`.
    pub open spec fn mint_next(self, account: Seq<char>, amount: u128) -> TokenState {
        TokenState {
            balances: with_amount(self.balances, account, (self.balance_of(account) + amount) as u128),
            ..self.with_supply((self.total_supply + amount) as u128)
        }
    }

    /// The token after `burn`.
    pub open spec fn burn_next(self, account: Seq<char>, amount: u128) -> TokenState {
        TokenState {
            balances: with_amount(self.balances, account, (self.balance_of(account) - amount) as u128),
            ..self.with_supply((self.total_supply - amount) as u128)
        }
    }

    /// The token with `minter` among the minters.
    pub open spec fn with_minter(self, minter: Seq<char>) -> TokenState {
        if self.minters.contains(minter) {
            self
        } else {
            TokenState { minters: self.minters.push(minter), ..self }
        }
    }

    /// The token without `minter` among the minters; the others keep their order.
    pub open spec fn without_minter(self, minter: Seq<char>) -> TokenState {
        if self.minters.contains(minter) {
            TokenState { minters: self.minters.remove(position(self.minters, minter)), ..self }
        } else {
            self
        }
    }
}

/// What setting an allowance does: owners and spenders stay free of duplicates,
/// the pair has the amount, and every other pair has what it had.
pub proof fn lemma_with_allowance(
    s: Seq<(Seq<char>, Seq<(Seq<char>, u128)>)>,
    owner: Seq<char>,
    spender: Seq<char>,
    amount: u128,
)
    requires
        owners(s).no_duplicates(),
        forall|i: int| 0 <= i < s.len() ==> names((#[trigger] s[i]).1).no_duplicates(),
    ensures
        owners(with_allowance(s, owner, spender, amount)).no_duplicates(),
        forall|i: int|
            0 <= i < with_allowance(s, owner, spender, amount).len() ==> names(
                (#[trigger] with_allowance(s, owner, spender, amount)[i]).1,
            ).no_duplicates(),
        allowance_of(with_allowance(s, owner, spender, amount), owner, spender) == amount,
        forall|o: Seq<char>, p: Seq<char>|
            (o != owner || p != spender) ==> allowance_of(with_allowance(s, owner, spender, amount), o, p)
                == allowance_of(s, o, p),
{
    let t = with_allowance(s, owner, spender, amount);
    if owners(s).contains(owner) {
        lemma_position_in_range(owners(s), owner);
        let at = position(owners(s), owner);
        lemma_with_amount(s[at].1, spender, amount);
        assert(owners(t) =~= owners(s));
        assert forall|i: int| 0 <= i < t.len() implies names((#[trigger] t[i]).1).no_duplicates() by {
            if i != at {
                assert(t[i] == s[i]);
            }
        }
        assert forall|o: Seq<char>, p: Seq<char>| (o != owner || p != spender) implies allowance_of(
            t,
            o,
            p,
        ) == allowance_of(s, o, p) by {
            if o != owner && owners(s).contains(o) {
                lemma_position_in_range(owners(s), o);
                assert(position(owners(s), o) != at);
            }
        }
    } else {
        let fresh = seq![(spender, amount)];
        lemma_push_fresh(owners(s), owner);
        assert(owners(t) =~= owners(s).push(owner));
        assert(owners(t)[s.len() as int] == owner);
        lemma_position(owners(t), owner, s.len() as int);
        assert(names(fresh) =~= seq![spender]);
        assert(names(fresh)[0] == spender);
        lemma_position(names(fresh), spender, 0);
        assert forall|i: int| 0 <= i < t.len() implies names((#[trigger] t[i]).1).no_duplicates() by {
            if i < s.len() {
                assert(t[i] == s[i]);
            }
        }
        assert forall|o: Seq<char>, p: Seq<char>| (o != owner || p != spender) implies allowance_of(
            t,
            o,
            p,
        ) == allowance_of(s, o, p) by {
            if o == owner {
                if names(fresh).contains(p) {
                    lemma_position_in_range(names(fresh), p);
                }
            } else {
                if owners(s).contains(o) {
                    lemma_position_in_range(owners(s), o);
                    let j = position(owners(s), o);
                    assert(owners(t)[j] == o);
                    lemma_position(owners(t), o, j);
                } else if owners(t).contains(o) {
                    lemma_position_in_range(owners(t), o);
                    let j = position(owners(t), o);
                    assert(owners(s)[j] == o);
                }
            }
        }
    }
}

/// What a transfer does: the names stay free of duplicates and the sum is what
/// it was; the sender has the amount less and the receiver the amount more, or
/// the one account what it had where the two are one; every other account has
/// what it had.
pub proof fn lemma_transferred(
    balances: Seq<(Seq<char>, u128)>,
    sender: Seq<char>,
    receiver: Seq<char>,
    amount: u128,
)
    requires
        names(balances).no_duplicates(),
        sum(balances) <= u128::MAX,
        amount_of(balances, sender) >= amount,
    ensures
        names(transferred(balances, sender, receiver, amount)).no_duplicates(),
        sum(transferred(balances, sender, receiver, amount)) == sum(balances),
        amount_of(
            with_amount(balances, sender, (amount_of(balances, sender) - amount) as u128),
            receiver,
        ) + amount <= u128::MAX,
        sender != receiver ==> amount_of(transferred(balances, sender, receiver, amount), sender)
            == amount_of(balances, sender) - amount,
        sender != receiver ==> amount_of(transferred(balances, sender, receiver, amount), receiver)
            == amount_of(balances, receiver) + amount,
        sender == receiver ==> amount_of(transferred(balances, sender, receiver, amount), sender)
            == amount_of(balances, sender),
        forall|other: Seq<char>|
            other != sender && other != receiver ==> amount_of(
                transferred(balances, sender, receiver, amount),
                other,
            ) == amount_of(balances, other),
{
    let low = (amount_of(balances, sender) - amount) as u128;
    let debited = with_amount(balances, sender, low);
    lemma_with_amount(balances, sender, low);
    let high = (amount_of(debited, receiver) + amount) as u128;
    lemma_with_amount(debited, receiver, high);
}

/// A new token is well formed.
pub proof fn lemma_initial_wf(owner: Seq<char>, total_supply: u128)
    ensures
        TokenState::initial(owner, total_supply).wf(),
        TokenState::initial(owner, total_supply).balance_of(owner) == total_supply,
{
    let s = TokenState::initial(owner, total_supply);
    assert(names(s.balances) =~= seq![owner]);
    assert(names(s.balances)[0] == owner);
    lemma_position(names(s.balances), owner, 0);
    assert(s.balances.drop_last() =~= Seq::<(Seq<char>, u128)>::empty());
    assert(sum(s.balances) == total_supply) by {
        reveal_with_fuel(sum, 2);
    }
    assert(owners(s.allowances) =~= Seq::<Seq<char>>::empty());
}

/// Taking a minter off the list keeps the list free of duplicates.
pub proof fn lemma_without_minter(minters: Seq<Seq<char>>, minter: Seq<char>)
    requires
        minters.no_duplicates(),
        minters.contains(minter),
    ensures
        minters.remove(position(minters, minter)).no_duplicates(),
        !minters.remove(position(minters, minter)).contains(minter),
{
    lemma_position_in_range(minters, minter);
    let at = position(minters, minter);
    let t = minters.remove(at);
    assert forall|i: int, j: int| 0 <= i < t.len() && 0 <= j < t.len() && i != j implies t[i] != t[j] by {
        let si = if i < at { i } else { i + 1 };
        let sj = if j < at { j } else { j + 1 };
        assert(t[i] == minters[si]);
        assert(t[j] == minters[sj]);
    }
    assert forall|i: int| 0 <= i < t.len() implies t[i] != minter by {
        let si = if i < at { i } else { i + 1 };
        assert(t[i] == minters[si]);
    }
}

} // verus!
