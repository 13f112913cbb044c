//! Sums of amounts, and the facts about them that the ledgers' invariants need.

use vstd::prelude::*;

verus! {

/// The amount under `key`, zero where there is none.
pub open spec fn amount_at<K>(m: Map<K, u128>, key: K) -> u128 {
    if m.contains_key(key) {
        m[key]
    } else {
        0
    }
}

/// The flag under `key`, false where there is none.
pub open spec fn flag_at<K>(m: Map<K, bool>, key: K) -> bool {
    m.contains_key(key) && m[key]
}

/// The sum of `f` over the entries of `items`, each entry counted once per occurrence.
pub open spec fn sum_over<T>(items: Seq<T>, f: spec_fn(T) -> nat) -> nat
    decreases items.len(),
{
    if items.len() == 0 {
        0
    } else {
        sum_over(items.drop_last(), f) + f(items.last())
    }
}

/// Appending one item adds its term.
pub proof fn lemma_sum_push<T>(items: Seq<T>, f: spec_fn(T) -> nat, item: T)
    ensures
        sum_over(items.push(item), f) == sum_over(items, f) + f(item),
{
    assert(items.push(item).drop_last() =~= items);
}

/// Two functions that agree on every item have the same sum.
pub proof fn lemma_sum_agree<T>(items: Seq<T>, f: spec_fn(T) -> nat, g: spec_fn(T) -> nat)
    requires
        forall|i: int| 0 <= i < items.len() ==> f(#[trigger] items[i]) == g(items[i]),
    ensures
        sum_over(items, f) == sum_over(items, g),
    decreases items.len(),
{
    if items.len() > 0 {
        let rest = items.drop_last();
        assert forall|i: int| 0 <= i < rest.len() implies f(#[trigger] rest[i]) == g(rest[i]) by {
            assert(rest[i] == items[i]);
        }
        lemma_sum_agree(rest, f, g);
        assert(items.last() == items[items.len() - 1]);
    }
}

/// No term exceeds the sum.
pub proof fn lemma_sum_bounds_term<T>(items: Seq<T>, f: spec_fn(T) -> nat, item: T)
    requires
        items.contains(item),
    ensures
        f(item) <= sum_over(items, f),
    decreases items.len(),
{
    let rest = items.drop_last();
    if items.last() != item {
        let i = choose|i: int| 0 <= i < items.len() && items[i] == item;
        assert(rest[i] == item);
        lemma_sum_bounds_term(rest, f, item);
    }
}

/// Where one item of a duplicate-free sequence changes its term, the sum
/// changes by the same difference.
pub proof fn lemma_sum_change<T>(items: Seq<T>, f: spec_fn(T) -> nat, g: spec_fn(T) -> nat, item: T)
    requires
        items.no_duplicates(),
        items.contains(item),
        forall|i: int| 0 <= i < items.len()
            && items[i] != item
            ==> f(#[trigger] items[i]) == g(items[i]),
    ensures
        sum_over(items, g) + f(item) == sum_over(items, f) + g(item),
    decreases items.len(),
{
    let rest = items.drop_last();
    let n = items.len() - 1;
    assert(items.last() == items[n]);
    assert(rest.no_duplicates());
    if items.last() == item {
        assert forall|i: int| 0 <= i < rest.len() implies f(#[trigger] rest[i]) == g(rest[i]) by {
            assert(rest[i] == items[i]);
            assert(items[i] != items[n]);
        }
        lemma_sum_agree(rest, f, g);
    } else {
        let i = choose|i: int| 0 <= i < items.len() && items[i] == item;
        assert(rest[i] == item);
        assert forall|j: int| 0 <= j < rest.len() && rest[j] != item
            implies f(#[trigger] rest[j]) == g(
            rest[j],
        ) by {
            assert(rest[j] == items[j]);
        }
        lemma_sum_change(rest, f, g, item);
    }
}

/// Where at most one item of a duplicate-free sequence changes its term, the
/// sum changes by the same difference if the item is listed, and not at all
/// if it is not.
pub proof fn lemma_sum_point<T>(items: Seq<T>, f: spec_fn(T) -> nat, g: spec_fn(T) -> nat, item: T)
    requires
        items.no_duplicates(),
        forall|x: T| x != item ==> #[trigger] f(x) == g(x),
    ensures
        items.contains(item) ==> sum_over(items, g) + f(item) == sum_over(items, f) + g(item),
        !items.contains(item) ==> sum_over(items, g) == sum_over(items, f),
{
    if items.contains(item) {
        lemma_sum_change(items, f, g, item);
    } else {
        assert forall|i: int| 0 <= i < items.len()
            implies f(#[trigger] items[i]) == g(items[i]) by {
            assert(items.contains(items[i]));
        }
        lemma_sum_agree(items, f, g);
    }
}

/// The sum of all amounts held in a finite map.
pub open spec fn total<K>(m: Map<K, u128>) -> nat
    decreases m.dom().len(),
    when m.dom().finite()
{
    if m.dom().len() == 0 {
        0
    } else {
        let k = m.dom().choose();
        m[k] as nat + total(m.remove(k))
    }
}

/// Any one entry can be split off the sum.
pub proof fn lemma_total_split<K>(m: Map<K, u128>, key: K)
    requires
        m.dom().finite(),
        m.contains_key(key),
    ensures
        total(m) == m[key] as nat + total(m.remove(key)),
    decreases m.dom().len(),
{
    assert(m.dom().len() != 0) by {
        if m.dom().len() == 0 {
            m.dom().lemma_len0_is_empty();
        }
    }
    let c = m.dom().choose();
    assert(m.dom().contains(c));
    if c != key {
        let without_c = m.remove(c);
        let without_key = m.remove(key);
        assert(without_c.dom().finite());
        assert(without_key.dom().finite());
        assert(without_c.dom().len() == m.dom().len() - 1);
        assert(without_key.dom().len() == m.dom().len() - 1);
        lemma_total_split(without_c, key);
        lemma_total_split(without_key, c);
        assert(without_c.remove(key) =~= without_key.remove(c));
    }
}

/// Writing one entry changes the sum by the difference to what was there.
pub proof fn lemma_total_insert<K>(m: Map<K, u128>, key: K, value: u128)
    requires
        m.dom().finite(),
    ensures
        m.insert(key, value).dom().finite(),
        total(m.insert(key, value)) + amount_at(m, key) == total(m) + value,
{
    let after = m.insert(key, value);
    lemma_total_split(after, key);
    if m.contains_key(key) {
        lemma_total_split(m, key);
        assert(after.remove(key) =~= m.remove(key));
    } else {
        assert(after.remove(key) =~= m);
    }
}

/// No entry exceeds the sum.
pub proof fn lemma_total_bounds_one<K>(m: Map<K, u128>, key: K)
    requires
        m.dom().finite(),
    ensures
        amount_at(m, key) <= total(m),
{
    if m.contains_key(key) {
        lemma_total_split(m, key);
    }
}

/// No two entries together exceed the sum.
pub proof fn lemma_total_bounds_two<K>(m: Map<K, u128>, a: K, b: K)
    requires
        m.dom().finite(),
        a != b,
    ensures
        amount_at(m, a) + amount_at(m, b) <= total(m),
{
    if m.contains_key(a) {
        lemma_total_split(m, a);
        lemma_total_bounds_one(m.remove(a), b);
    } else {
        lemma_total_bounds_one(m, b);
    }
}

/// The entries of `m` whose second key is `second`, by their first key.
pub open spec fn column<A, B>(m: Map<(A, B), u128>, second: B) -> Map<A, u128> {
    Map::new(|a: A| m.contains_key((a, second)), |a: A| m[(a, second)])
}

/// Writing an entry writes it in its column, and leaves every other column as it was.
pub proof fn lemma_column_insert<A, B>(
    m: Map<(A, B), u128>,
    first: A,
    second: B,
    value: u128,
    other: B,
)
    ensures
        column(m.insert((first, second), value), second) == column(m, second).insert(first, value),
        other != second ==> column(m.insert((first, second), value), other) == column(m, other),
        amount_at(column(m, second), first) == amount_at(m, (first, second)),
{
    assert(column(m.insert((first, second), value), second) =~= column(m, second).insert(first, value));
    if other != second {
        assert(column(m.insert((first, second), value), other) =~= column(m, other));
    }
}

} // verus!
