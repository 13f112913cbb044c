//! One book of balances: moving an amount between two of its accounts.

use vstd::prelude::*;
use crate::lookup::amount_in;
use crate::store::{amounts, amounts_insert, fits, AmountMap, Word};
use crate::sums::{amount_at, lemma_total_bounds_one, lemma_total_insert, total};

verus! {

/// The book after `value` was taken from `from`.
pub open spec fn drawn<K>(m: Map<K, u128>, from: K, value: u128) -> Map<K, u128>
    recommends
        value <= amount_at(m, from),
{
    m.insert(from, (amount_at(m, from) - value) as u128)
}

/// The book after `value` was given to `to`.
pub open spec fn paid<K>(m: Map<K, u128>, to: K, value: u128) -> Map<K, u128> {
    m.insert(to, (amount_at(m, to) + value) as u128)
}

/// The book after `value` moved from `from` to `to`.
pub open spec fn shifted<K>(m: Map<K, u128>, from: K, to: K, value: u128) -> Map<K, u128>
    recommends
        value <= amount_at(m, from),
{
    paid(drawn(m, from, value), to, value)
}

/// Taking an amount that is there lowers the sum by it.
pub proof fn lemma_drawn<K>(m: Map<K, u128>, from: K, value: u128)
    requires
        m.dom().finite(),
        value <= amount_at(m, from),
    ensures
        drawn(m, from, value).dom().finite(),
        total(drawn(m, from, value)) + value == total(m),
        amount_at(drawn(m, from, value), from) == amount_at(m, from) - value,
        forall|k: K| k != from ==> amount_at(drawn(m, from, value), k) == amount_at(m, k),
{
    lemma_total_insert(m, from, (amount_at(m, from) - value) as u128);
}

/// Giving an amount raises the sum by it, if the sum stays in range.
pub proof fn lemma_paid<K>(m: Map<K, u128>, to: K, value: u128)
    requires
        m.dom().finite(),
        total(m) + value <= u128::MAX,
    ensures
        paid(m, to, value).dom().finite(),
        amount_at(m, to) + value <= u128::MAX,
        total(paid(m, to, value)) == total(m) + value,
        amount_at(paid(m, to, value), to) == amount_at(m, to) + value,
        forall|k: K| k != to ==> amount_at(paid(m, to, value), k) == amount_at(m, k),
{
    lemma_total_bounds_one(m, to);
    lemma_total_insert(m, to, (amount_at(m, to) + value) as u128);
}

/// Moving an amount that is there keeps the sum, and cannot overflow the receiver.
pub proof fn lemma_shifted<K>(m: Map<K, u128>, from: K, to: K, value: u128)
    requires
        m.dom().finite(),
        total(m) <= u128::MAX,
        value <= amount_at(m, from),
    ensures
        shifted(m, from, to, value).dom().finite(),
        total(shifted(m, from, to, value)) == total(m),
        amount_at(drawn(m, from, value), to) + value <= u128::MAX,
        from != to ==> amount_at(shifted(m, from, to, value), from) == amount_at(m, from) - value,
        from != to ==> amount_at(shifted(m, from, to, value), to) == amount_at(m, to) + value,
        from == to ==> amount_at(shifted(m, from, to, value), from) == amount_at(m, from),
        forall|k: K| k != from
            && k != to
            ==> amount_at(shifted(m, from, to, value), k) == amount_at(m, k),
{
    lemma_drawn(m, from, value);
    lemma_paid(drawn(m, from, value), to, value);
}

/// Takes `value` from `from`.
pub fn draw(m: &mut AmountMap, from: Word, value: u128)
    requires
        amounts(*old(m)).dom().finite(),
        value <= amount_at(amounts(*old(m)), from),
        fits(amounts(*old(m)), from, from),
    ensures
        amounts(*final(m)) == drawn(amounts(*old(m)), from, value),
{
    let had = amount_in(m, from);
    amounts_insert(m, from, had - value);
}

/// Gives `value` to `to`.
pub fn pay(m: &mut AmountMap, to: Word, value: u128)
    requires
        amounts(*old(m)).dom().finite(),
        amount_at(amounts(*old(m)), to) + value <= u128::MAX,
        fits(amounts(*old(m)), to, to),
    ensures
        amounts(*final(m)) == paid(amounts(*old(m)), to, value),
{
    let had = amount_in(m, to);
    amounts_insert(m, to, had + value);
}

/// Moves `value` from `from` to `to`.
pub fn shift(m: &mut AmountMap, from: Word, to: Word, value: u128)
    requires
        amounts(*old(m)).dom().finite(),
        total(amounts(*old(m))) <= u128::MAX,
        value <= amount_at(amounts(*old(m)), from),
        fits(amounts(*old(m)), from, to),
    ensures
        amounts(*final(m)) == shifted(amounts(*old(m)), from, to, value),
        amounts(*final(m)).dom().finite(),
        total(amounts(*final(m))) == total(amounts(*old(m))),
{
    proof {
        lemma_shifted(amounts(*m), from, to, value);
        assert(amounts(*m).dom().insert(from).len() <= amounts(*m).dom().insert(from).insert(to).len());
    }
    draw(m, from, value);
    pay(m, to, value);
}

} // verus!
