//! Reading a store with its default: an amount that was never written is
//! zero, a flag that was never written is false, a list that was never written
//! is empty.

use vstd::prelude::*;
use crate::store::{
    amounts, amounts_get, flags, flags_get, lists, lists_get, pair_amounts, pair_amounts_get,
    pair_flags, pair_flags_get, AmountMap, FlagMap, ListMap, Pair, PairAmountMap, PairFlagMap, Word,
};
use crate::sums::{amount_at, flag_at};

verus! {

/// The list under `key`, empty where there is none.
pub open spec fn list_at(m: Map<Word, Seq<Word>>, key: Word) -> Seq<Word> {
    if m.contains_key(key) {
        m[key]
    } else {
        Seq::empty()
    }
}

/// The amount under `key`, zero where there is none.
pub fn amount_in(m: &AmountMap, key: Word) -> (v: u128)
    ensures
        v == amount_at(amounts(*m), key),
{
    match amounts_get(m, key) {
        Some(v) => v,
        None => 0,
    }
}

/// The amount under `key`, zero where there is none.
pub fn pair_amount_in(m: &PairAmountMap, key: Pair) -> (v: u128)
    ensures
        v == amount_at(pair_amounts(*m), key),
{
    match pair_amounts_get(m, key) {
        Some(v) => v,
        None => 0,
    }
}

/// The flag under `key`, false where there is none.
pub fn flag_in(m: &FlagMap, key: Word) -> (v: bool)
    ensures
        v == flag_at(flags(*m), key),
{
    match flags_get(m, key) {
        Some(v) => v,
        None => false,
    }
}

/// The flag under `key`, false where there is none.
pub fn pair_flag_in(m: &PairFlagMap, key: Pair) -> (v: bool)
    ensures
        v == flag_at(pair_flags(*m), key),
{
    match pair_flags_get(m, key) {
        Some(v) => v,
        None => false,
    }
}

/// The list under `key`, empty where there is none.
pub fn list_in(m: &ListMap, key: Word) -> (v: Vec<Word>)
    ensures
        v@ == list_at(lists(*m), key),
{
    match lists_get(m, key) {
        Some(v) => v,
        None => Vec::new(),
    }
}

/// Whether `items` holds `item`.
pub fn holds_word(items: &Vec<Word>, item: Word) -> (found: bool)
    ensures
        found == items@.contains(item),
{
    let mut i: usize = 0;
    while i < items.len()
        invariant
            i <= items.len(),
            forall|j: int| 0 <= j < i ==> items@[j] != item,
        decreases items.len() - i,
    {
        let w: Word = items[i];
        if w.0 == item.0 && w.1 == item.1 {
            return true;
        }
        i = i + 1;
    }
    false
}

} // verus!
