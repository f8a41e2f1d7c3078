//! Amounts under names: the balances of accounts, the totals of categories.
//! A list holds each name at most once; a name that it does not hold has the
//! amount 0.

use crate::keyed::{
    find, keys_of, lemma_position, lemma_position_in_range, lemma_push_fresh, position, Keyed,
};
use vstd::prelude::*;
use vstd::string::*;

verus! {

/// A running total under a name: a spend category, or a further token held.
#[derive(Debug)]
pub struct NamedAmount {
    pub name: String,
    pub amount: u128,
}

/// The view of a list of [`NamedAmount`]s: names and amounts, in order.
pub open spec fn named_amounts(v: Seq<NamedAmount>) -> Seq<(Seq<char>, u128)> {
    v.map_values(|e: NamedAmount| (e.name@, e.amount))
}

/// A copy of a list of named amounts.
pub fn clone_named_amounts(v: &Vec<NamedAmount>) -> (r: Vec<NamedAmount>)
    ensures
        named_amounts(r@) == named_amounts(v@),
{
    let mut r: Vec<NamedAmount> = Vec::new();
    let mut i: usize = 0;
    while i < v.len()
        invariant
            i <= v.len(),
            r.len() == i,
            forall|j: int| 0 <= j < i ==> r@[j].name@ == v@[j].name@ && r@[j].amount == v@[j].amount,
        decreases v.len() - i,
    {
        r.push(NamedAmount { name: v[i].name.clone(), amount: v[i].amount });
        i += 1;
    }
    assert(named_amounts(r@) =~= named_amounts(v@));
    r
}

impl Keyed for NamedAmount {
    open spec fn key_text(&self) -> Seq<char> {
        self.name@
    }

    fn key(&self) -> (k: &String) {
        &self.name
    }
}

/// The names of a list of named amounts.
pub open spec fn names(s: Seq<(Seq<char>, u128)>) -> Seq<Seq<char>> {
    s.map_values(|e: (Seq<char>, u128)| e.0)
}

/// The amount under `name`, 0 where the list has no such name.
pub open spec fn amount_of(s: Seq<(Seq<char>, u128)>, name: Seq<char>) -> nat {
    if names(s).contains(name) {
        s[position(names(s), name)].1 as nat
    } else {
        0
    }
}

/// The list with `amount` under `name`, in the place of the earlier amount of
/// the name or, where it had none, at the end.
pub open spec fn with_amount(s: Seq<(Seq<char>, u128)>, name: Seq<char>, amount: u128) -> Seq<(Seq<char>, u128)> {
    if names(s).contains(name) {
        s.update(position(names(s), name), (name, amount))
    } else {
        s.push((name, amount))
    }
}

/// All amounts of the list together.
pub open spec fn sum(s: Seq<(Seq<char>, u128)>) -> nat
    decreases s.len(),
{
    if s.len() == 0 {
        0
    } else {
        sum(s.drop_last()) + s.last().1 as nat
    }
}

/// An amount in place of another changes the sum by the difference.
pub proof fn lemma_sum_update(s: Seq<(Seq<char>, u128)>, i: int, e: (Seq<char>, u128))
    requires
        0 <= i < s.len(),
    ensures
        s[i].1 <= sum(s),
        sum(s.update(i, e)) == sum(s) - s[i].1 + e.1,
    decreases s.len(),
{
    if i == s.len() - 1 {
        assert(s.update(i, e).drop_last() =~= s.drop_last());
    } else {
        lemma_sum_update(s.drop_last(), i, e);
        assert(s.update(i, e).drop_last() =~= s.drop_last().update(i, e));
    }
}

/// What setting an amount does: the names stay free of duplicates, the name has
/// the amount, every other name has what it had, and the sum changes by the
/// difference.
pub proof fn lemma_with_amount(s: Seq<(Seq<char>, u128)>, name: Seq<char>, amount: u128)
    requires
        names(s).no_duplicates(),
    ensures
        names(with_amount(s, name, amount)).no_duplicates(),
        names(with_amount(s, name, amount)).contains(name),
        amount_of(with_amount(s, name, amount), name) == amount,
        forall|other: Seq<char>|
            other != name ==> amount_of(with_amount(s, name, amount), other) == amount_of(s, other),
        amount_of(s, name) <= sum(s),
        sum(with_amount(s, name, amount)) == sum(s) - amount_of(s, name) + amount,
{
    let t = with_amount(s, name, amount);
    if names(s).contains(name) {
        lemma_position_in_range(names(s), name);
        let i = position(names(s), name);
        assert(names(t) =~= names(s));
        lemma_sum_update(s, i, (name, amount));
        assert forall|other: Seq<char>| other != name implies amount_of(t, other) == amount_of(
            s,
            other,
        ) by {
            if names(s).contains(other) {
                lemma_position_in_range(names(s), other);
                assert(position(names(s), other) != i);
            }
        }
    } else {
        lemma_push_fresh(names(s), name);
        assert(names(t) =~= names(s).push(name));
        assert(names(t)[s.len() as int] == name);
        lemma_position(names(t), name, s.len() as int);
        assert(t.drop_last() =~= s);
        assert forall|other: Seq<char>| other != name implies amount_of(t, other) == amount_of(
            s,
            other,
        ) by {
            if names(s).contains(other) {
                lemma_position_in_range(names(s), other);
                let j = position(names(s), other);
                assert(names(t)[j] == other);
                lemma_position(names(t), other, j);
            } else {
                if names(t).contains(other) {
                    lemma_position_in_range(names(t), other);
                    let j = position(names(t), other);
                    assert(j < s.len());
                    assert(names(s)[j] == other);
                }
            }
        }
    }
}

/// The amount under `name`, 0 where the list has no such name.
pub fn get_amount(amounts: &Vec<NamedAmount>, name: &String) -> (r: u128)
    requires
        names(named_amounts(amounts@)).no_duplicates(),
    ensures
        r == amount_of(named_amounts(amounts@), name@),
{
    proof {
        assert(keys_of(amounts@) =~= names(named_amounts(amounts@)));
    }
    match find(amounts, name) {
        Some(i) => {
            proof {
                lemma_position(names(named_amounts(amounts@)), name@, i as int);
            }
            amounts[i].amount
        },
        None => 0,
    }
}

/// Puts `amount` under `name`.
pub fn set_amount(amounts: &mut Vec<NamedAmount>, name: &String, amount: u128)
    requires
        names(named_amounts(old(amounts)@)).no_duplicates(),
    ensures
        named_amounts(final(amounts)@) == with_amount(named_amounts(old(amounts)@), name@, amount),
        names(named_amounts(final(amounts)@)).no_duplicates(),
{
    proof {
        assert(keys_of(amounts@) =~= names(named_amounts(amounts@)));
        lemma_with_amount(named_amounts(amounts@), name@, amount);
    }
    match find(amounts, name) {
        Some(i) => {
            proof {
                lemma_position(names(named_amounts(amounts@)), name@, i as int);
            }
            amounts[i].amount = amount;
            proof {
                assert(named_amounts(amounts@) =~= with_amount(named_amounts(old(amounts)@), name@, amount));
            }
        },
        None => {
            amounts.push(NamedAmount { name: name.clone(), amount });
            proof {
                assert(named_amounts(amounts@) =~= with_amount(named_amounts(old(amounts)@), name@, amount));
            }
        },
    }
}

/// The sum of the first amounts of a list is no more than the sum of the list.
pub proof fn lemma_sum_prefix(s: Seq<(Seq<char>, u128)>, k: int)
    requires
        0 <= k <= s.len(),
    ensures
        sum(s.subrange(0, k)) <= sum(s),
    decreases s.len() - k,
{
    if k == s.len() {
        assert(s.subrange(0, k) =~= s);
    } else {
        lemma_sum_prefix(s, k + 1);
        assert(s.subrange(0, k + 1).drop_last() =~= s.subrange(0, k));
    }
}

/// All amounts of the list together, where that is in range.
pub fn total_amount(amounts: &Vec<NamedAmount>) -> (r: Option<u128>)
    ensures
        match r {
            Some(x) => x == sum(named_amounts(amounts@)),
            None => sum(named_amounts(amounts@)) > u128::MAX,
        },
{
    let ghost all = named_amounts(amounts@);
    let mut acc: u128 = 0;
    let mut k: usize = 0;
    assert(all.subrange(0, 0) =~= Seq::<(Seq<char>, u128)>::empty());
    while k < amounts.len()
        invariant
            k <= amounts.len(),
            all == named_amounts(amounts@),
            acc == sum(all.subrange(0, k as int)),
        decreases amounts.len() - k,
    {
        proof {
            assert(all.subrange(0, k + 1).drop_last() =~= all.subrange(0, k as int));
            lemma_sum_prefix(all, k + 1);
        }
        match acc.checked_add(amounts[k].amount) {
            Some(x) => {
                acc = x;
            },
            None => {
                return None;
            },
        }
        k += 1;
    }
    assert(all.subrange(0, k as int) =~= all);
    Some(acc)
}

/// Whether no name is in `amounts` twice.
pub fn distinct_names(amounts: &Vec<NamedAmount>) -> (r: bool)
    ensures
        r == names(named_amounts(amounts@)).no_duplicates(),
{
    proof {
        assert(keys_of(amounts@) =~= names(named_amounts(amounts@)));
    }
    crate::keyed::distinct_keys(amounts)
}

} // verus!
