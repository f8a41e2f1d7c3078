//! Lists of records that are found by a textual key, each key at most once.
//! They stand where the engine keeps a table: the order of a list is the order
//! in which the table is walked.

use vstd::prelude::*;
use vstd::string::*;

verus! {

/// A record that is found by a key.
pub trait Keyed {
    /// The key of the record.
    spec fn key_text(&self) -> Seq<char>;

    /// The key of the record.
    fn key(&self) -> (k: &String)
        ensures
            k@ == self.key_text(),
    ;
}

impl Keyed for String {
    open spec fn key_text(&self) -> Seq<char> {
        self@
    }

    fn key(&self) -> (k: &String) {
        self
    }
}

/// The keys of a list of records, in order.
pub open spec fn keys_of<T: Keyed>(s: Seq<T>) -> Seq<Seq<char>> {
    s.map_values(|t: T| t.key_text())
}

/// The place of `k` among `keys`; meaningful where `keys` holds `k`.
pub open spec fn position<A>(keys: Seq<A>, k: A) -> int {
    choose|i: int| 0 <= i < keys.len() && keys[i] == k
}

/// Among keys without duplicates, a key is at one place only.
pub proof fn lemma_position<A>(keys: Seq<A>, k: A, i: int)
    requires
        keys.no_duplicates(),
        0 <= i < keys.len(),
        keys[i] == k,
    ensures
        keys.contains(k),
        position(keys, k) == i,
{
    let j = position(keys, k);
    assert(0 <= j < keys.len() && keys[j] == k);
}

/// The place of a key that the keys hold is within them and holds the key.
pub proof fn lemma_position_in_range<A>(keys: Seq<A>, k: A)
    requires
        keys.contains(k),
    ensures
        0 <= position(keys, k) < keys.len(),
        keys[position(keys, k)] == k,
{
    let i = choose|i: int| 0 <= i < keys.len() && keys[i] == k;
    assert(0 <= i < keys.len() && keys[i] == k);
}

/// Appending a key that is new keeps the keys free of duplicates.
pub proof fn lemma_push_fresh<A>(keys: Seq<A>, k: A)
    requires
        keys.no_duplicates(),
        !keys.contains(k),
    ensures
        keys.push(k).no_duplicates(),
{
    let after = keys.push(k);
    assert forall|i: int, j: int| 0 <= i < after.len() && 0 <= j < after.len() && i != j implies after[i]
        != after[j] by {
        if i < keys.len() && j < keys.len() {
            assert(keys[i] != keys[j]);
        } else if i < keys.len() {
            assert(keys.contains(keys[i]));
        } else {
            assert(keys.contains(keys[j]));
        }
    }
}

/// The list without the item at place `i`: the last item takes its place.
pub open spec fn swap_removed<A>(s: Seq<A>, i: int) -> Seq<A> {
    s.update(i, s.last()).drop_last()
}

/// Taking a key out by moving the last into its place keeps the keys free of
/// duplicates, takes out that key and no other.
pub proof fn lemma_swap_removed<A>(keys: Seq<A>, i: int)
    requires
        keys.no_duplicates(),
        0 <= i < keys.len(),
    ensures
        swap_removed(keys, i).no_duplicates(),
        !swap_removed(keys, i).contains(keys[i]),
        forall|k: A| k != keys[i] ==> (swap_removed(keys, i).contains(k) <==> keys.contains(k)),
{
    let after = swap_removed(keys, i);
    let last = keys.len() - 1;
    assert forall|a: int, b: int| 0 <= a < after.len() && 0 <= b < after.len() && a != b implies after[a]
        != after[b] by {
        let sa = if a == i { last } else { a };
        let sb = if b == i { last } else { b };
        assert(after[a] == keys[sa]);
        assert(after[b] == keys[sb]);
        assert(keys[sa] != keys[sb]);
    }
    assert forall|k: A| after.contains(k) implies keys.contains(k) && k != keys[i] by {
        let a = choose|a: int| 0 <= a < after.len() && after[a] == k;
        let sa = if a == i { last } else { a };
        assert(after[a] == keys[sa]);
        assert(keys[sa] != keys[i]);
    }
    assert forall|k: A| k != keys[i] && keys.contains(k) implies after.contains(k) by {
        let a = choose|a: int| 0 <= a < keys.len() && keys[a] == k;
        if a == last {
            assert(after[i] == k);
        } else {
            assert(after[a] == k);
        }
    }
}

/// Looks `k` up among the keys of `items`: the first place that holds it.
pub fn find<T: Keyed>(items: &Vec<T>, k: &String) -> (r: Option<usize>)
    ensures
        match r {
            Some(i) => i < items.len() && keys_of(items@)[i as int] == k@ && forall|j: int|
                0 <= j < i ==> keys_of(items@)[j] != k@,
            None => !keys_of(items@).contains(k@),
        },
{
    let mut i: usize = 0;
    while i < items.len()
        invariant
            i <= items.len(),
            forall|j: int| 0 <= j < i ==> keys_of(items@)[j] != k@,
        decreases items.len() - i,
    {
        if *items[i].key() == *k {
            return Some(i);
        }
        i += 1;
    }
    None
}

/// Whether the keys of `items` hold `k`.
pub fn contains_key<T: Keyed>(items: &Vec<T>, k: &String) -> (r: bool)
    ensures
        r == keys_of(items@).contains(k@),
{
    find(items, k).is_some()
}

/// A record that is found by a number.
pub trait Numbered {
    /// The number of the record.
    spec fn number(&self) -> u128;

    /// The number of the record.
    fn id(&self) -> (n: u128)
        ensures
            n == self.number(),
    ;
}

impl Numbered for u128 {
    open spec fn number(&self) -> u128 {
        *self
    }

    fn id(&self) -> (n: u128) {
        *self
    }
}

/// The numbers of a list of records, in order.
pub open spec fn numbers_of<T: Numbered>(s: Seq<T>) -> Seq<u128> {
    s.map_values(|t: T| t.number())
}

/// Looks the number `n` up among the numbers of `items`: the first place that
/// holds it.
pub fn find_number<T: Numbered>(items: &Vec<T>, n: u128) -> (r: Option<usize>)
    ensures
        match r {
            Some(i) => i < items.len() && numbers_of(items@)[i as int] == n && forall|j: int|
                0 <= j < i ==> numbers_of(items@)[j] != n,
            None => !numbers_of(items@).contains(n),
        },
{
    let mut i: usize = 0;
    while i < items.len()
        invariant
            i <= items.len(),
            forall|j: int| 0 <= j < i ==> numbers_of(items@)[j] != n,
        decreases items.len() - i,
    {
        if items[i].id() == n {
            return Some(i);
        }
        i += 1;
    }
    None
}

/// Whether no key is in `items` twice.
pub fn distinct_keys<T: Keyed>(items: &Vec<T>) -> (r: bool)
    ensures
        r == keys_of(items@).no_duplicates(),
{
    let ghost keys = keys_of(items@);
    let mut i: usize = 0;
    while i < items.len()
        invariant
            i <= items.len(),
            keys == keys_of(items@),
            forall|a: int, b: int| 0 <= a < b < i ==> keys[a] != keys[b],
        decreases items.len() - i,
    {
        match find(items, items[i].key()) {
            Some(j) => {
                if j != i {
                    assert(keys[j as int] == keys[i as int]);
                    return false;
                }
            },
            None => {
                assert(keys[i as int] == items@[i as int].key_text());
                assert(keys.contains(keys[i as int]));
            },
        }
        i += 1;
    }
    true
}

/// Whether no number is in `items` twice.
pub fn distinct_numbers<T: Numbered>(items: &Vec<T>) -> (r: bool)
    ensures
        r == numbers_of(items@).no_duplicates(),
{
    let ghost numbers = numbers_of(items@);
    let mut i: usize = 0;
    while i < items.len()
        invariant
            i <= items.len(),
            numbers == numbers_of(items@),
            forall|a: int, b: int| 0 <= a < b < i ==> numbers[a] != numbers[b],
        decreases items.len() - i,
    {
        match find_number(items, items[i].id()) {
            Some(j) => {
                if j != i {
                    assert(numbers[j as int] == numbers[i as int]);
                    return false;
                }
            },
            None => {
                assert(numbers[i as int] == items@[i as int].number());
                assert(numbers.contains(numbers[i as int]));
            },
        }
        i += 1;
    }
    true
}

/// The part of `s` from place `start` on, `limit` items at most.
pub open spec fn page<A>(s: Seq<A>, start: nat, limit: nat) -> Seq<A> {
    if start >= s.len() {
        Seq::empty()
    } else if start + limit >= s.len() {
        s.subrange(start as int, s.len() as int)
    } else {
        s.subrange(start as int, (start + limit) as int)
    }
}

} // verus!
