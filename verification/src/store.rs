//! Keyed stores, kept in `ink_storage::collections::HashMap`.
//!
//! That map is bounded by traits of its own crate, which the verifier cannot
//! see through, so each store is a struct that hides one map. Nothing in this
//! file is proved. A store has a ghost name for what it holds, and four small
//! functions whose contracts say, over that name, what the map's `new`, `len`,
//! `get` and `insert` do; the rest of the crate is proved against these
//! contracts alone.
//!
//! The contracts describe a map that was made by `new` here and never bound to
//! contract storage: such a map keeps every entry in memory and never asks the
//! host for anything. Nothing is ever removed from a store, so the map's count
//! of live keys is the number of keys it holds.
//!
//! Keys are identifiers as pairs of 128-bit words, or pairs of such pairs; the
//! map orders them as tuples of integers.

use vstd::prelude::*;

verus! {

/// An identifier as a storage key: its high and low 128-bit words.
pub type Word = (u128, u128);

/// Two identifiers as one storage key.
pub type Pair = ((u128, u128), (u128, u128));

/// The largest number of entries a store can hold: the map counts them in a `u32`.
pub open spec fn capacity() -> nat {
    0xffff_ffff
}

/// The largest count at which a store still has room for two entries.
pub const ROOMY: u32 = 0xffff_fffd;

/// Whether a store holding `m` can take the key `a`.
pub open spec fn fits_one<K, V>(m: Map<K, V>, a: K) -> bool {
    m.dom().insert(a).len() <= capacity()
}

/// Whether a store holding `m` can take the keys `a` and `b`.
pub open spec fn fits<K, V>(m: Map<K, V>, a: K, b: K) -> bool {
    m.dom().insert(a).insert(b).len() <= capacity()
}

// ---- one identifier to an amount --------------------------------------------

/// A store from one identifier to an amount: hides one
/// `ink_storage::collections::HashMap`.
#[verifier::external_body]
pub struct AmountMap {
    inner: ink_storage::collections::HashMap<Word, u128>,
}

/// What an `AmountMap` holds.
pub uninterp spec fn amounts(m: AmountMap) -> Map<Word, u128>;

/// Calls `HashMap::new`. Claimed: the new map holds nothing.
#[verifier::external_body]
pub(crate) fn amounts_new() -> (m: AmountMap)
    ensures
        amounts(m) =~= Map::empty(),
{
    AmountMap { inner: ink_storage::collections::HashMap::new() }
}

/// Calls `HashMap::len`. Claimed: it returns the number of keys held.
#[verifier::external_body]
pub(crate) fn amounts_len(m: &AmountMap) -> (n: u32)
    requires
        amounts(*m).dom().finite(),
    ensures
        n == amounts(*m).dom().len(),
{
    m.inner.len()
}

/// Calls `HashMap::get`. Claimed: it finds a value exactly where the key is
/// held, and then the value held under it.
#[verifier::external_body]
pub(crate) fn amounts_get(m: &AmountMap, key: Word) -> (r: Option<u128>)
    ensures
        r.is_some() == amounts(*m).contains_key(key),
        r.is_some() ==> r.unwrap() == amounts(*m)[key],
{
    m.inner.get(&key).copied()
}

/// Calls `HashMap::insert`. Claimed: afterwards `key` maps to `value` and
/// every other key is as before. Demanded: room for a new key, because the map
/// counts its keys in a `u32` and adds one for each new key without a check.
#[verifier::external_body]
pub(crate) fn amounts_insert(m: &mut AmountMap, key: Word, value: u128)
    requires
        amounts(*old(m)).dom().finite(),
        amounts(*old(m)).contains_key(key) || amounts(*old(m)).dom().len() < capacity(),
    ensures
        amounts(*final(m)) == amounts(*old(m)).insert(key, value),
{
    m.inner.insert(key, value);
}

// ---- two identifiers to an amount -------------------------------------------

/// A store from two identifiers to an amount: hides one
/// `ink_storage::collections::HashMap`.
#[verifier::external_body]
pub struct PairAmountMap {
    inner: ink_storage::collections::HashMap<Pair, u128>,
}

/// What a `PairAmountMap` holds.
pub uninterp spec fn pair_amounts(m: PairAmountMap) -> Map<Pair, u128>;

/// Calls `HashMap::new`. Claimed: the new map holds nothing.
#[verifier::external_body]
pub(crate) fn pair_amounts_new() -> (m: PairAmountMap)
    ensures
        pair_amounts(m) =~= Map::empty(),
{
    PairAmountMap { inner: ink_storage::collections::HashMap::new() }
}

/// Calls `HashMap::len`. Claimed: it returns the number of keys held.
#[verifier::external_body]
pub(crate) fn pair_amounts_len(m: &PairAmountMap) -> (n: u32)
    requires
        pair_amounts(*m).dom().finite(),
    ensures
        n == pair_amounts(*m).dom().len(),
{
    m.inner.len()
}

/// Calls `HashMap::get`. Claimed: it finds a value exactly where the key is
/// held, and then the value held under it.
#[verifier::external_body]
pub(crate) fn pair_amounts_get(m: &PairAmountMap, key: Pair) -> (r: Option<u128>)
    ensures
        r.is_some() == pair_amounts(*m).contains_key(key),
        r.is_some() ==> r.unwrap() == pair_amounts(*m)[key],
{
    m.inner.get(&key).copied()
}

/// Calls `HashMap::insert`. Claimed: afterwards `key` maps to `value` and
/// every other key is as before. Demanded: room for a new key, because the map
/// counts its keys in a `u32` and adds one for each new key without a check.
#[verifier::external_body]
pub(crate) fn pair_amounts_insert(m: &mut PairAmountMap, key: Pair, value: u128)
    requires
        pair_amounts(*old(m)).dom().finite(),
        pair_amounts(*old(m)).contains_key(key) || pair_amounts(*old(m)).dom().len() < capacity(),
    ensures
        pair_amounts(*final(m)) == pair_amounts(*old(m)).insert(key, value),
{
    m.inner.insert(key, value);
}

// ---- one identifier to a flag -----------------------------------------------

/// A store from one identifier to a flag: hides one
/// `ink_storage::collections::HashMap`.
#[verifier::external_body]
pub struct FlagMap {
    inner: ink_storage::collections::HashMap<Word, bool>,
}

/// What a `FlagMap` holds.
pub uninterp spec fn flags(m: FlagMap) -> Map<Word, bool>;

/// Calls `HashMap::new`. Claimed: the new map holds nothing.
#[verifier::external_body]
pub(crate) fn flags_new() -> (m: FlagMap)
    ensures
        flags(m) =~= Map::empty(),
{
    FlagMap { inner: ink_storage::collections::HashMap::new() }
}

/// Calls `HashMap::len`. Claimed: it returns the number of keys held.
#[verifier::external_body]
pub(crate) fn flags_len(m: &FlagMap) -> (n: u32)
    requires
        flags(*m).dom().finite(),
    ensures
        n == flags(*m).dom().len(),
{
    m.inner.len()
}

/// Calls `HashMap::get`. Claimed: it finds a value exactly where the key is
/// held, and then the value held under it.
#[verifier::external_body]
pub(crate) fn flags_get(m: &FlagMap, key: Word) -> (r: Option<bool>)
    ensures
        r.is_some() == flags(*m).contains_key(key),
        r.is_some() ==> r.unwrap() == flags(*m)[key],
{
    m.inner.get(&key).copied()
}

/// Calls `HashMap::insert`. Claimed: afterwards `key` maps to `value` and
/// every other key is as before. Demanded: room for a new key, because the map
/// counts its keys in a `u32` and adds one for each new key without a check.
#[verifier::external_body]
pub(crate) fn flags_insert(m: &mut FlagMap, key: Word, value: bool)
    requires
        flags(*old(m)).dom().finite(),
        flags(*old(m)).contains_key(key) || flags(*old(m)).dom().len() < capacity(),
    ensures
        flags(*final(m)) == flags(*old(m)).insert(key, value),
{
    m.inner.insert(key, value);
}

// ---- two identifiers to a flag ----------------------------------------------

/// A store from two identifiers to a flag: hides one
/// `ink_storage::collections::HashMap`.
#[verifier::external_body]
pub struct PairFlagMap {
    inner: ink_storage::collections::HashMap<Pair, bool>,
}

/// What a `PairFlagMap` holds.
pub uninterp spec fn pair_flags(m: PairFlagMap) -> Map<Pair, bool>;

/// Calls `HashMap::new`. Claimed: the new map holds nothing.
#[verifier::external_body]
pub(crate) fn pair_flags_new() -> (m: PairFlagMap)
    ensures
        pair_flags(m) =~= Map::empty(),
{
    PairFlagMap { inner: ink_storage::collections::HashMap::new() }
}

/// Calls `HashMap::len`. Claimed: it returns the number of keys held.
#[verifier::external_body]
pub(crate) fn pair_flags_len(m: &PairFlagMap) -> (n: u32)
    requires
        pair_flags(*m).dom().finite(),
    ensures
        n == pair_flags(*m).dom().len(),
{
    m.inner.len()
}

/// Calls `HashMap::get`. Claimed: it finds a value exactly where the key is
/// held, and then the value held under it.
#[verifier::external_body]
pub(crate) fn pair_flags_get(m: &PairFlagMap, key: Pair) -> (r: Option<bool>)
    ensures
        r.is_some() == pair_flags(*m).contains_key(key),
        r.is_some() ==> r.unwrap() == pair_flags(*m)[key],
{
    m.inner.get(&key).copied()
}

/// Calls `HashMap::insert`. Claimed: afterwards `key` maps to `value` and
/// every other key is as before. Demanded: room for a new key, because the map
/// counts its keys in a `u32` and adds one for each new key without a check.
#[verifier::external_body]
pub(crate) fn pair_flags_insert(m: &mut PairFlagMap, key: Pair, value: bool)
    requires
        pair_flags(*old(m)).dom().finite(),
        pair_flags(*old(m)).contains_key(key) || pair_flags(*old(m)).dom().len() < capacity(),
    ensures
        pair_flags(*final(m)) == pair_flags(*old(m)).insert(key, value),
{
    m.inner.insert(key, value);
}

// ---- one identifier to a list of identifiers --------------------------------

/// A store from one identifier to a list of identifiers: hides one
/// `ink_storage::collections::HashMap`.
#[verifier::external_body]
pub struct ListMap {
    inner: ink_storage::collections::HashMap<Word, Vec<Word>>,
}

/// What a `ListMap` holds.
pub uninterp spec fn lists(m: ListMap) -> Map<Word, Seq<Word>>;

/// Calls `HashMap::new`. Claimed: the new map holds nothing.
#[verifier::external_body]
pub(crate) fn lists_new() -> (m: ListMap)
    ensures
        lists(m) =~= Map::empty(),
{
    ListMap { inner: ink_storage::collections::HashMap::new() }
}

/// Calls `HashMap::len`. Claimed: it returns the number of keys held.
#[verifier::external_body]
pub(crate) fn lists_len(m: &ListMap) -> (n: u32)
    requires
        lists(*m).dom().finite(),
    ensures
        n == lists(*m).dom().len(),
{
    m.inner.len()
}

/// Calls `HashMap::get`. Claimed: it finds a value exactly where the key is
/// held, and then the value held under it.
#[verifier::external_body]
pub(crate) fn lists_get(m: &ListMap, key: Word) -> (r: Option<Vec<Word>>)
    ensures
        r.is_some() == lists(*m).contains_key(key),
        r.is_some() ==> r.unwrap()@ == lists(*m)[key],
{
    m.inner.get(&key).cloned()
}

/// Calls `HashMap::insert`. Claimed: afterwards `key` maps to `value` and
/// every other key is as before. Demanded: room for a new key, because the map
/// counts its keys in a `u32` and adds one for each new key without a check.
#[verifier::external_body]
pub(crate) fn lists_insert(m: &mut ListMap, key: Word, value: Vec<Word>)
    requires
        lists(*old(m)).dom().finite(),
        lists(*old(m)).contains_key(key) || lists(*old(m)).dom().len() < capacity(),
    ensures
        lists(*final(m)) == lists(*old(m)).insert(key, value@),
{
    m.inner.insert(key, value);
}

// ---- one identifier to a time in milliseconds -------------------------------

/// A store from one identifier to a time in milliseconds: hides one
/// `ink_storage::collections::HashMap`.
#[verifier::external_body]
pub struct TimeMap {
    inner: ink_storage::collections::HashMap<Word, u64>,
}

/// What a `TimeMap` holds.
pub uninterp spec fn times(m: TimeMap) -> Map<Word, u64>;

/// Calls `HashMap::new`. Claimed: the new map holds nothing.
#[verifier::external_body]
pub(crate) fn times_new() -> (m: TimeMap)
    ensures
        times(m) =~= Map::empty(),
{
    TimeMap { inner: ink_storage::collections::HashMap::new() }
}

/// Calls `HashMap::len`. Claimed: it returns the number of keys held.
#[verifier::external_body]
pub(crate) fn times_len(m: &TimeMap) -> (n: u32)
    requires
        times(*m).dom().finite(),
    ensures
        n == times(*m).dom().len(),
{
    m.inner.len()
}

/// Calls `HashMap::get`. Claimed: it finds a value exactly where the key is
/// held, and then the value held under it.
#[verifier::external_body]
pub(crate) fn times_get(m: &TimeMap, key: Word) -> (r: Option<u64>)
    ensures
        r.is_some() == times(*m).contains_key(key),
        r.is_some() ==> r.unwrap() == times(*m)[key],
{
    m.inner.get(&key).copied()
}

/// Calls `HashMap::insert`. Claimed: afterwards `key` maps to `value` and
/// every other key is as before. Demanded: room for a new key, because the map
/// counts its keys in a `u32` and adds one for each new key without a check.
#[verifier::external_body]
pub(crate) fn times_insert(m: &mut TimeMap, key: Word, value: u64)
    requires
        times(*old(m)).dom().finite(),
        times(*old(m)).contains_key(key) || times(*old(m)).dom().len() < capacity(),
    ensures
        times(*final(m)) == times(*old(m)).insert(key, value),
{
    m.inner.insert(key, value);
}

// ---- one identifier to a list of times and places ---------------------------

/// A store from one identifier to a list of times and places: hides one
/// `ink_storage::collections::HashMap`.
#[verifier::external_body]
pub struct RecordMap {
    inner: ink_storage::collections::HashMap<Word, Vec<(u64, String)>>,
}

/// What a `RecordMap` holds.
pub uninterp spec fn records(m: RecordMap) -> Map<Word, Seq<(u64, String)>>;

/// Calls `HashMap::new`. Claimed: the new map holds nothing.
#[verifier::external_body]
pub(crate) fn records_new() -> (m: RecordMap)
    ensures
        records(m) =~= Map::empty(),
{
    RecordMap { inner: ink_storage::collections::HashMap::new() }
}

/// Calls `HashMap::len`. Claimed: it returns the number of keys held.
#[verifier::external_body]
pub(crate) fn records_len(m: &RecordMap) -> (n: u32)
    requires
        records(*m).dom().finite(),
    ensures
        n == records(*m).dom().len(),
{
    m.inner.len()
}

/// Calls `HashMap::get`. Claimed: it finds a value exactly where the key is
/// held, and then the value held under it.
#[verifier::external_body]
pub(crate) fn records_get(m: &RecordMap, key: Word) -> (r: Option<Vec<(u64, String)>>)
    ensures
        r.is_some() == records(*m).contains_key(key),
        r.is_some() ==> r.unwrap()@ == records(*m)[key],
{
    m.inner.get(&key).cloned()
}

/// Calls `HashMap::insert`. Claimed: afterwards `key` maps to `value` and
/// every other key is as before. Demanded: room for a new key, because the map
/// counts its keys in a `u32` and adds one for each new key without a check.
#[verifier::external_body]
pub(crate) fn records_insert(m: &mut RecordMap, key: Word, value: Vec<(u64, String)>)
    requires
        records(*old(m)).dom().finite(),
        records(*old(m)).contains_key(key) || records(*old(m)).dom().len() < capacity(),
    ensures
        records(*final(m)) == records(*old(m)).insert(key, value@),
{
    m.inner.insert(key, value);
}

} // verus!
