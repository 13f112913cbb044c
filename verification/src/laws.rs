//! What holds of the ledger whatever is done to it.
//!
//! Each lemma is about the state machine alone: that a transition keeps the
//! books consistent, and how far it can move an amount. The executable ledger
//! calls them; a user of the library can, too.

use vstd::prelude::*;
use crate::ident::{AccountId, Hash256};
use crate::model::{Action, LedgerState};
use crate::purse::lemma_shifted;
use crate::store::fits_one;
use crate::sums::{
    lemma_column_insert, lemma_sum_agree, lemma_sum_bounds_term, lemma_sum_point, lemma_sum_push,
    lemma_total_bounds_one, lemma_total_bounds_two, lemma_total_insert, sum_over, total,
};

verus! {

/// A holder's balance is the sum of that holder's balances over the registered
/// partitions, and the holder has nothing in any other partition.
pub proof fn lemma_balance_is_sum_of_partitions(st: LedgerState, holder: AccountId)
    requires
        st.consistent(),
    ensures
        st.balance_of(holder) == sum_over(st.partitions, st.position_term(holder)),
        forall|p: Hash256| !st.partitions.contains(p)
            ==> #[trigger] st.balance_of_by_partition(holder, p) == 0,
{
}

/// The total supply is the sum of the supplies of the registered partitions,
/// and nothing exists in any other partition.
pub proof fn lemma_supply_is_sum_of_partitions(st: LedgerState)
    requires
        st.consistent(),
    ensures
        st.total_supply == sum_over(st.partitions, st.supply_term()),
        forall|p: Hash256| !st.partitions.contains(p)
            ==> #[trigger] st.total_supply_by_partition(p) == 0,
{
}

/// No partition holds more than the total supply, no holder more than the
/// total supply, and no holder more in one partition than in all.
pub proof fn lemma_bounds(st: LedgerState, holder: AccountId, partition: Hash256)
    requires
        st.consistent(),
    ensures
        st.total_supply_by_partition(partition) <= st.total_supply,
        st.balance_of(holder) <= st.total_supply,
        st.balance_of_by_partition(holder, partition) <= st.balance_of(holder),
{
    lemma_total_bounds_one(st.balances, holder.key());
    if st.partitions.contains(partition) {
        lemma_sum_bounds_term(st.partitions, st.supply_term(), partition);
        lemma_sum_bounds_term(st.partitions, st.position_term(holder), partition);
    }
}

/// Two different holders together hold no more than the total supply.
pub proof fn lemma_two_holders_bound(st: LedgerState, a: AccountId, b: AccountId)
    requires
        st.consistent(),
        a != b,
    ensures
        st.balance_of(a) + st.balance_of(b) <= st.total_supply,
{
    lemma_total_bounds_two(st.balances, a.key(), b.key());
}

/// A freshly deployed ledger is consistent, with no supply.
pub proof fn lemma_deployed_consistent(deployer: AccountId, symbol: Seq<char>, one_time_issue: bool)
    ensures
        LedgerState::deployed(deployer, symbol, one_time_issue).consistent(),
        LedgerState::deployed(deployer, symbol, one_time_issue).orderly(),
        LedgerState::deployed(deployer, symbol, one_time_issue).total_supply == 0,
        LedgerState::deployed(deployer, symbol, one_time_issue).has_room(),
{
    let st = LedgerState::deployed(deployer, symbol, one_time_issue);
    assert(st.balances.dom() =~= Set::empty());
    assert forall|p: Hash256| (#[trigger] st.held_in(p)).dom().finite() && total(st.held_in(p)) == 0 by {
        assert(st.held_in(p).dom() =~= Set::empty());
    }
}

/// A registry stays in order where the holders' lists stay as they are and
/// no partition leaves the register.
pub proof fn lemma_orderly_kept(a: LedgerState, b: LedgerState)
    requires
        a.orderly(),
        b.holdings == a.holdings,
        forall|p: Hash256| a.partitions.contains(p) ==> b.partitions.contains(p),
    ensures
        b.orderly(),
{
    assert forall|h: AccountId| (#[trigger] b.held_keys(h)).no_duplicates() by {
        assert(b.held_keys(h) == a.held_keys(h));
    }
    assert forall|h: AccountId, p: Hash256| #[trigger]
        b.held_keys(h).contains(p.key()) implies b.partitions.contains(p) by {
        assert(b.held_keys(h) == a.held_keys(h));
        assert(a.held_keys(h).contains(p.key()));
    }
}

/// Issuing keeps the registry in order: the partition is registered, and it
/// is entered in the caller's list only if it is not there yet.
pub proof fn lemma_issue_orderly(st: LedgerState, caller: AccountId, partition: Hash256, amount: u128)
    requires
        st.orderly(),
        st.partitions.no_duplicates(),
        st.total_supply + amount <= u128::MAX,
    ensures
        st.issue(caller, partition, amount).orderly(),
{
    let b = st.issue(caller, partition, amount);
    lemma_registered(st, partition);
    let before = st.held_keys(caller);
    assert forall|h: AccountId| (#[trigger] b.held_keys(h)).no_duplicates() by {
        assert(st.held_keys(h).no_duplicates());
        if h != caller {
            assert(h.key() != caller.key());
            assert(b.held_keys(h) == st.held_keys(h));
        } else if before.contains(partition.key()) {
            assert(b.held_keys(h) == before);
        } else {
            let after = before.push(partition.key());
            assert(b.held_keys(h) == after);
            assert forall|i: int, j: int| 0 <= i < after.len() && 0 <= j < after.len() && i != j
                implies after[i] != after[j] by {
                if i < before.len() {
                    assert(before.contains(before[i]));
                }
                if j < before.len() {
                    assert(before.contains(before[j]));
                }
            }
        }
    }
    assert forall|h: AccountId, p: Hash256| #[trigger]
        b.held_keys(h).contains(p.key()) implies b.partitions.contains(p) by {
        if h != caller {
            assert(h.key() != caller.key());
            assert(b.held_keys(h) == st.held_keys(h));
            assert(st.held_keys(h).contains(p.key()));
        } else if before.contains(partition.key()) {
            assert(b.held_keys(h) == before);
            assert(st.held_keys(h).contains(p.key()));
        } else {
            let after = before.push(partition.key());
            assert(b.held_keys(h) == after);
            let i = choose|i: int| 0 <= i < after.len() && after[i] == p.key();
            if i < before.len() {
                assert(before[i] == p.key());
                assert(st.held_keys(h).contains(p.key()));
            } else {
                assert(p.key() == partition.key());
                assert(p == partition);
            }
        }
    }
}

/// A state that differs from a consistent one only outside the books is consistent.
pub proof fn lemma_same_books(a: LedgerState, b: LedgerState)
    requires
        a.consistent(),
        b.finite(),
        b.total_supply == a.total_supply,
        b.supply == a.supply,
        b.balances == a.balances,
        b.positions == a.positions,
        b.partitions == a.partitions,
    ensures
        b.consistent(),
        a.orderly() && b.holdings == a.holdings ==> b.orderly(),
{
    if a.orderly() && b.holdings == a.holdings {
        lemma_orderly_kept(a, b);
    }
    lemma_sum_agree(a.partitions, a.supply_term(), b.supply_term());
    assert forall|h: AccountId| #[trigger] b.balance_of(h) == sum_over(b.partitions, b.position_term(h)) by {
        assert(a.balance_of(h) == sum_over(a.partitions, a.position_term(h)));
        lemma_sum_agree(a.partitions, a.position_term(h), b.position_term(h));
    }
    assert forall|p: Hash256| #[trigger] b.total_supply_by_partition(p) > 0
        implies b.partitions.contains(p) by {
        assert(a.total_supply_by_partition(p) > 0);
    }
    assert forall|h: AccountId, p: Hash256| #[trigger]
        b.balance_of_by_partition(h, p) > 0 implies b.partitions.contains(p) by {
        assert(a.balance_of_by_partition(h, p) > 0);
    }
    assert forall|p: Hash256| (#[trigger] b.held_in(p)).dom().finite() && total(b.held_in(p))
        == b.total_supply_by_partition(p) by {
        assert(b.held_in(p) == a.held_in(p));
        assert(a.total_supply_by_partition(p) == b.total_supply_by_partition(p));
    }
}

/// Registering a partition keeps the books consistent.
pub proof fn lemma_register_consistent(a: LedgerState, b: LedgerState, partition: Hash256)
    requires
        a.consistent(),
        b.finite(),
        b.total_supply == a.total_supply,
        b.supply == a.supply,
        b.balances == a.balances,
        b.positions == a.positions,
        b.partitions == a.registered(partition),
    ensures
        b.consistent(),
        a.orderly() && b.holdings == a.holdings ==> b.orderly(),
{
    if a.orderly() && b.holdings == a.holdings {
        lemma_registered(a, partition);
        lemma_orderly_kept(a, b);
    }
    if a.partitions.contains(partition) {
        lemma_same_books(a, b);
    } else {
        let mid = LedgerState { partitions: a.partitions, ..b };
        lemma_same_books(a, mid);
        assert(mid.total_supply_by_partition(partition) == 0);
        lemma_sum_push(a.partitions, mid.supply_term(), partition);
        lemma_sum_agree(b.partitions, mid.supply_term(), b.supply_term());
        assert forall|h: AccountId| #[trigger] b.balance_of(h) == sum_over(b.partitions, b.position_term(h)) by {
            assert(mid.balance_of(h) == sum_over(mid.partitions, mid.position_term(h)));
            assert(mid.balance_of_by_partition(h, partition) == 0);
            lemma_sum_push(a.partitions, mid.position_term(h), partition);
            lemma_sum_agree(b.partitions, mid.position_term(h), b.position_term(h));
        }
        assert(b.partitions.no_duplicates()) by {
            assert forall|i: int, j: int| 0 <= i < b.partitions.len() && 0 <= j < b.partitions.len() && i != j
                implies b.partitions[i] != b.partitions[j] by {
                if i < a.partitions.len() {
                    assert(a.partitions.contains(a.partitions[i]));
                }
                if j < a.partitions.len() {
                    assert(a.partitions.contains(a.partitions[j]));
                }
            }
        }
        assert forall|p: Hash256| #[trigger] b.total_supply_by_partition(p) > 0
            implies b.partitions.contains(p) by {
            assert(a.total_supply_by_partition(p) > 0);
            let i = choose|i: int| 0 <= i < a.partitions.len() && a.partitions[i] == p;
            assert(b.partitions[i] == p);
        }
        assert forall|h: AccountId, p: Hash256| #[trigger]
            b.balance_of_by_partition(h, p) > 0 implies b.partitions.contains(p) by {
            assert(a.balance_of_by_partition(h, p) > 0);
            let i = choose|i: int| 0 <= i < a.partitions.len() && a.partitions[i] == p;
            assert(b.partitions[i] == p);
        }
        assert forall|p: Hash256| (#[trigger] b.held_in(p)).dom().finite() && total(b.held_in(p))
            == b.total_supply_by_partition(p) by {
            assert(b.held_in(p) == a.held_in(p));
            assert(a.total_supply_by_partition(p) == b.total_supply_by_partition(p));
        }
    }
}

/// Registering keeps what was registered, adds the partition, and lists nothing twice.
pub proof fn lemma_registered(st: LedgerState, partition: Hash256)
    requires
        st.partitions.no_duplicates(),
    ensures
        st.registered(partition).no_duplicates(),
        st.registered(partition).contains(partition),
        forall|q: Hash256| st.partitions.contains(q)
            ==> #[trigger] st.registered(partition).contains(q),
        forall|q: Hash256| #[trigger]
            st.registered(partition).contains(q) ==> q == partition || st.partitions.contains(q),
{
    let after = st.registered(partition);
    if !st.partitions.contains(partition) {
        assert(after[st.partitions.len() as int] == partition);
        assert forall|q: Hash256| st.partitions.contains(q)
            implies #[trigger] after.contains(q) by {
            let i = choose|i: int| 0 <= i < st.partitions.len() && st.partitions[i] == q;
            assert(after[i] == q);
        }
        assert forall|i: int, j: int| 0 <= i < after.len() && 0 <= j < after.len() && i != j
            implies after[i]
            != after[j] by {
            if i < st.partitions.len() {
                assert(st.partitions.contains(st.partitions[i]));
            }
            if j < st.partitions.len() {
                assert(st.partitions.contains(st.partitions[j]));
            }
        }
        assert forall|q: Hash256| #[trigger] after.contains(q) implies q == partition
            || st.partitions.contains(q) by {
            let i = choose|i: int| 0 <= i < after.len() && after[i] == q;
            if i < st.partitions.len() {
                assert(st.partitions[i] == q);
            }
        }
    }
}

/// Issuing keeps the books consistent, raises the total supply and the
/// partition's supply by the amount, and gives it all to the caller.
pub proof fn lemma_issue_consistent(
    st: LedgerState,
    caller: AccountId,
    partition: Hash256,
    amount: u128,
)
    requires
        st.consistent(),
        st.total_supply + amount <= u128::MAX,
    ensures
        st.issue(caller, partition, amount).consistent(),
        st.issue(caller, partition, amount).total_supply == st.total_supply + amount,
        st.issue(caller, partition, amount).total_supply_by_partition(partition)
            == st.total_supply_by_partition(partition) + amount,
        st.issue(caller, partition, amount).balance_of(caller) == st.balance_of(caller) + amount,
        st.issue(caller, partition, amount).balance_of_by_partition(caller, partition)
            == st.balance_of_by_partition(caller, partition) + amount,
        st.issue(caller, partition, amount).is_partition(partition),
        st.orderly() ==> st.issue(caller, partition, amount).orderly(),
{
    let b = st.issue(caller, partition, amount);
    if st.orderly() {
        lemma_issue_orderly(st, caller, partition, amount);
    }
    lemma_bounds(st, caller, partition);
    lemma_registered(st, partition);
    lemma_total_insert(st.balances, caller.key(), (st.balance_of(caller) + amount) as u128);
    let listed = st.partitions.contains(partition);
    // The supplies.
    assert forall|x: Hash256| x != partition
        implies #[trigger] (st.supply_term())(x) == (b.supply_term())(
        x,
    ) by {
        assert(x.key() != partition.key());
    }
    lemma_sum_point(st.partitions, st.supply_term(), b.supply_term(), partition);
    if !listed {
        lemma_sum_push(st.partitions, b.supply_term(), partition);
    }
    // Each holder's balances.
    assert forall|h: AccountId| #[trigger] b.balance_of(h) == sum_over(b.partitions, b.position_term(h)) by {
        assert(st.balance_of(h) == sum_over(st.partitions, st.position_term(h)));
        assert forall|x: Hash256| x != partition implies #[trigger] (st.position_term(h))(x) == (
        b.position_term(h))(x) by {
            assert(x.key() != partition.key());
        }
        lemma_sum_point(st.partitions, st.position_term(h), b.position_term(h), partition);
        if !listed {
            lemma_sum_push(st.partitions, b.position_term(h), partition);
            assert(st.balance_of_by_partition(h, partition) == 0);
        }
        if h != caller {
            assert(h.key() != caller.key());
        }
    }
    assert forall|p: Hash256| #[trigger] b.total_supply_by_partition(p) > 0
        implies b.partitions.contains(p) by {
        if p != partition {
            assert(p.key() != partition.key());
            assert(st.total_supply_by_partition(p) > 0);
        }
    }
    assert forall|h: AccountId, p: Hash256| #[trigger]
        b.balance_of_by_partition(h, p) > 0 implies b.partitions.contains(p) by {
        if p != partition {
            assert(p.key() != partition.key());
            assert(st.balance_of_by_partition(h, p) > 0);
        }
    }
    // What is held in each partition.
    let written = (st.balance_of_by_partition(caller, partition) + amount) as u128;
    assert forall|p: Hash256| (#[trigger] b.held_in(p)).dom().finite() && total(b.held_in(p))
        == b.total_supply_by_partition(p) by {
        assert(st.held_in(p).dom().finite());
        assert(total(st.held_in(p)) == st.total_supply_by_partition(p));
        lemma_column_insert(st.positions, caller.key(), partition.key(), written, p.key());
        if p == partition {
            lemma_total_insert(st.held_in(p), caller.key(), written);
        } else {
            assert(p.key() != partition.key());
        }
    }
}

/// Moving an amount that the sender has keeps the books consistent and the
/// supply as it was; the receiver's balances cannot overflow.
pub proof fn lemma_moved_consistent(
    st: LedgerState,
    from: AccountId,
    to: AccountId,
    partition: Hash256,
    amount: u128,
)
    requires
        st.consistent(),
        amount <= st.balance_of_by_partition(from, partition),
    ensures
        st.moved(from, to, partition, amount).consistent(),
        st.moved(from, to, partition, amount).total_supply == st.total_supply,
        amount <= st.balance_of(from),
        st.debit(from, partition, amount).balance_of(to) + amount <= u128::MAX,
        st.debit(from, partition, amount).balance_of_by_partition(to, partition) + amount <= u128::MAX,
        from != to
            ==> st.moved(from, to, partition, amount).balance_of(from) == st.balance_of(from) - amount,
        from != to
            ==> st.moved(from, to, partition, amount).balance_of(to) == st.balance_of(to) + amount,
        from != to
            ==> st.moved(from, to, partition, amount).balance_of_by_partition(from, partition)
            == st.balance_of_by_partition(from, partition) - amount,
        from != to ==> st.moved(from, to, partition, amount).balance_of_by_partition(to, partition)
            == st.balance_of_by_partition(to, partition) + amount,
        from == to
            ==> st.moved(from, to, partition, amount).balance_of(from) == st.balance_of(from),
        from == to
            ==> st.moved(from, to, partition, amount).balance_of_by_partition(from, partition)
            == st.balance_of_by_partition(from, partition),
        st.orderly() ==> st.moved(from, to, partition, amount).orderly(),
{
    if st.orderly() {
        lemma_orderly_kept(st, st.moved(from, to, partition, amount));
    }
    let mid = st.debit(from, partition, amount);
    let b = st.moved(from, to, partition, amount);
    lemma_bounds(st, from, partition);
    lemma_bounds(st, to, partition);
    if from != to {
        assert(from.key() != to.key());
        lemma_two_holders_bound(st, from, to);
    }
    lemma_total_insert(st.balances, from.key(), (st.balance_of(from) - amount) as u128);
    lemma_total_insert(mid.balances, to.key(), (mid.balance_of(to) + amount) as u128);
    lemma_sum_agree(st.partitions, st.supply_term(), b.supply_term());
    let listed = st.partitions.contains(partition);
    assert forall|h: AccountId| #[trigger] b.balance_of(h) == sum_over(b.partitions, b.position_term(h)) by {
        assert(st.balance_of(h) == sum_over(st.partitions, st.position_term(h)));
        assert forall|x: Hash256| x != partition implies #[trigger] (st.position_term(h))(x) == (
        b.position_term(h))(x) by {
            assert(x.key() != partition.key());
        }
        lemma_sum_point(st.partitions, st.position_term(h), b.position_term(h), partition);
        if h != from {
            assert(h.key() != from.key());
        }
        if h != to {
            assert(h.key() != to.key());
        }
        if !listed {
            assert(st.balance_of_by_partition(from, partition) == 0);
        }
    }
    assert forall|p: Hash256| #[trigger] b.total_supply_by_partition(p) > 0
        implies b.partitions.contains(p) by {
        assert(st.total_supply_by_partition(p) > 0);
    }
    assert forall|h: AccountId, p: Hash256| #[trigger]
        b.balance_of_by_partition(h, p) > 0 implies b.partitions.contains(p) by {
        if p != partition {
            assert(p.key() != partition.key());
            assert(st.balance_of_by_partition(h, p) > 0);
        } else {
            if !listed {
                assert(st.balance_of_by_partition(from, p) == 0);
                assert(st.balance_of_by_partition(h, p) == 0);
                if h != from {
                    assert(h.key() != from.key());
                }
                if h != to {
                    assert(h.key() != to.key());
                }
            }
        }
    }
    // What is held in each partition.
    let drawn_to = (st.balance_of_by_partition(from, partition) - amount) as u128;
    let paid_to = (mid.balance_of_by_partition(to, partition) + amount) as u128;
    assert forall|p: Hash256| (#[trigger] b.held_in(p)).dom().finite() && total(b.held_in(p))
        == b.total_supply_by_partition(p) by {
        assert(st.held_in(p).dom().finite());
        assert(total(st.held_in(p)) == st.total_supply_by_partition(p));
        lemma_column_insert(st.positions, from.key(), partition.key(), drawn_to, p.key());
        lemma_column_insert(mid.positions, to.key(), partition.key(), paid_to, p.key());
        if p == partition {
            lemma_shifted(st.held_in(p), from.key(), to.key(), amount);
            assert(mid.held_in(p) == crate::purse::drawn(st.held_in(p), from.key(), amount));
            assert(b.held_in(p) == crate::purse::shifted(st.held_in(p), from.key(), to.key(), amount));
        } else {
            assert(p.key() != partition.key());
        }
    }
}

/// Issuing touches nobody but the caller and no partition but the one issued
/// into: every other holder's balances, and every other partition's supply,
/// are as before.
pub proof fn lemma_issue_leaves_others(
    st: LedgerState,
    caller: AccountId,
    partition: Hash256,
    amount: u128,
    other: AccountId,
    elsewhere: Hash256,
)
    requires
        st.consistent(),
        st.total_supply + amount <= u128::MAX,
    ensures
        st.issue(caller, partition, amount).total_supply == st.total_supply + amount,
        st.issue(caller, partition, amount).total_supply_by_partition(partition)
            == st.total_supply_by_partition(partition) + amount,
        other != caller
            ==> st.issue(caller, partition, amount).balance_of(other) == st.balance_of(other),
        other != caller
            ==> st.issue(caller, partition, amount).balance_of_by_partition(other, elsewhere)
            == st.balance_of_by_partition(other, elsewhere),
        elsewhere != partition
            ==> st.issue(caller, partition, amount).total_supply_by_partition(elsewhere)
            == st.total_supply_by_partition(elsewhere),
        elsewhere != partition ==> st.issue(caller, partition, amount).balance_of_by_partition(
            caller,
            elsewhere,
        ) == st.balance_of_by_partition(caller, elsewhere),
{
    lemma_issue_consistent(st, caller, partition, amount);
    if other != caller {
        assert(other.key() != caller.key());
    }
    if elsewhere != partition {
        assert(elsewhere.key() != partition.key());
    }
}

/// Moving tokens touches nobody but the sender and the receiver, and no
/// partition but the one moved in.
pub proof fn lemma_move_leaves_others(
    st: LedgerState,
    from: AccountId,
    to: AccountId,
    partition: Hash256,
    amount: u128,
    other: AccountId,
    elsewhere: Hash256,
)
    requires
        st.consistent(),
        amount <= st.balance_of_by_partition(from, partition),
    ensures
        other != from && other != to ==> st.moved(from, to, partition, amount).balance_of(other)
            == st.balance_of(other),
        other != from
            && other != to
            ==> st.moved(from, to, partition, amount).balance_of_by_partition(
            other,
            elsewhere,
        ) == st.balance_of_by_partition(other, elsewhere),
        elsewhere != partition ==> st.moved(from, to, partition, amount).balance_of_by_partition(
            other,
            elsewhere,
        ) == st.balance_of_by_partition(other, elsewhere),
        st.moved(from, to, partition, amount).total_supply_by_partition(elsewhere)
            == st.total_supply_by_partition(elsewhere),
{
    if other != from {
        assert(other.key() != from.key());
    }
    if other != to {
        assert(other.key() != to.key());
    }
    if elsewhere != partition {
        assert(elsewhere.key() != partition.key());
    }
}

/// A redemption never takes more than was asked for, nor more than the holder
/// has in the partition, and takes one of the two.
pub proof fn lemma_redeemable(st: LedgerState, holder: AccountId, partition: Hash256, amount: u128)
    ensures
        st.redeemable(holder, partition, amount) <= amount,
        st.redeemable(holder, partition, amount) <= st.balance_of_by_partition(holder, partition),
        st.redeemable(holder, partition, amount) == amount || st.redeemable(holder, partition, amount)
            == st.balance_of_by_partition(holder, partition),
{
}

/// Redeeming keeps the books consistent and the supply as it was: what the
/// holder loses in the partition, and in all, is what was redeemable, and the
/// caller gains the same.
pub proof fn lemma_redeemed_consistent(
    st: LedgerState,
    caller: AccountId,
    holder: AccountId,
    partition: Hash256,
    amount: u128,
)
    requires
        st.consistent(),
    ensures
        st.redeemed(caller, holder, partition, amount).consistent(),
        st.redeemed(caller, holder, partition, amount).total_supply == st.total_supply,
        holder != caller ==> st.redeemed(caller, holder, partition, amount).balance_of_by_partition(
            holder,
            partition,
        ) == st.balance_of_by_partition(holder, partition) - st.redeemable(holder, partition, amount),
        holder != caller ==> st.redeemed(caller, holder, partition, amount).balance_of(holder)
            == st.balance_of(holder) - st.redeemable(holder, partition, amount),
        holder != caller ==> st.redeemed(caller, holder, partition, amount).balance_of_by_partition(
            caller,
            partition,
        ) == st.balance_of_by_partition(caller, partition) + st.redeemable(holder, partition, amount),
        holder != caller ==> st.redeemed(caller, holder, partition, amount).balance_of(caller)
            == st.balance_of(caller) + st.redeemable(holder, partition, amount),
{
    lemma_moved_consistent(st, holder, caller, partition, st.redeemable(holder, partition, amount));
}

/// Whoever was just made a controller of a partition has leave for every
/// action in it: to issue, to redeem, to attach documents, to grant, and to
/// transfer any amount to anyone.
pub proof fn lemma_appointed_controller_is_authorized(
    st: LedgerState,
    controller: AccountId,
    partition: Hash256,
    action: Action,
)
    ensures
        st.with_partition_controller(controller, partition).authorize(controller, partition, action),
        st.with_partition_controller(controller, partition).is_partition(partition),
{
    let after = st.with_partition_controller(controller, partition);
    assert(after.is_controller_by_partition(controller, partition));
    if !st.partitions.contains(partition) {
        assert(after.partitions[st.partitions.len() as int] == partition);
    }
}

/// Whoever is neither the owner nor a controller, of every partition or of
/// this one, has leave for nothing in the partition but a transfer, and for
/// that only as an operator or within the receiver's allowance.
pub proof fn lemma_stranger_is_refused(
    st: LedgerState,
    actor: AccountId,
    partition: Hash256,
    action: Action,
)
    requires
        !st.is_owner(actor),
        !st.is_controller(actor),
        !st.is_controller_by_partition(actor, partition),
    ensures
        !(action is Transfer) ==> !st.authorize(actor, partition, action),
        !st.administers(actor, partition),
        action matches Action::Transfer { to, amount }
            ==> (st.authorize(actor, partition, action) <==> (
        st.is_authorized_operator(actor) || st.is_authorized_operator_by_partition(actor, partition)
            || st.allowed_amount(to, partition) >= amount)),
{
}

/// Ownership passes to the one named, and to nobody else: after it, the old
/// owner is the owner only if named.
pub proof fn lemma_single_owner(st: LedgerState, to: AccountId, actor: AccountId)
    ensures
        st.with_owner(to).is_owner(actor) <==> actor == to,
{
}

/// Registration only ever appends: what was registered stays, in its place.
pub proof fn lemma_partitions_only_grow(st: LedgerState, partition: Hash256)
    ensures
        st.partitions.is_prefix_of(st.registered(partition)),
        st.registered(partition).len() <= st.partitions.len() + 1,
{
}

/// A holder's list of partitions only ever grows: after an issue, what was
/// listed stays, in its place.
pub proof fn lemma_holdings_only_grow(
    st: LedgerState,
    caller: AccountId,
    partition: Hash256,
    amount: u128,
    holder: AccountId,
)
    requires
        st.total_supply + amount <= u128::MAX,
    ensures
        st.partitions_of(holder).is_prefix_of(st.issue(caller, partition, amount).partitions_of(holder)),
        st.issue(caller, partition, amount).held_keys(caller).contains(partition.key()),
{
    let after = st.issue(caller, partition, amount);
    let before = st.held_keys(caller);
    if before.contains(partition.key()) {
        assert(after.held_keys(caller) == before);
    } else {
        assert(after.held_keys(caller) == before.push(partition.key()));
        assert(before.push(partition.key())[before.len() as int] == partition.key());
    }
    if holder != caller {
        assert(holder.key() != caller.key());
        assert(after.held_keys(holder) == st.held_keys(holder));
    } else if !before.contains(partition.key()) {
        assert(st.partitions_of(holder) =~= after.partitions_of(holder).subrange(
            0,
            st.partitions_of(holder).len() as int,
        ));
    }
}

/// What the holders hold in a partition is together the partition's supply,
/// and what they hold over all partitions is together the total supply.
pub proof fn lemma_holdings_are_the_supply(st: LedgerState, partition: Hash256)
    requires
        st.consistent(),
    ensures
        total(st.held_in(partition)) == st.total_supply_by_partition(partition),
        total(st.balances) == st.total_supply,
        forall|h: AccountId| #[trigger]
            st.balance_of_by_partition(h, partition) == crate::sums::amount_at(
                st.held_in(partition),
                h.key(),
            ),
{
    assert(st.held_in(partition).dom().finite());
}

/// A ledger with room has room for whatever one call writes.
pub proof fn lemma_room_suffices(st: LedgerState, a: AccountId, b: AccountId, partition: Hash256)
    requires
        st.finite(),
        st.has_room(),
    ensures
        st.fits_issue(a, partition),
        st.fits_move(a, b, partition),
        fits_one(st.controllers, a.key()),
        fits_one(st.operators, a.key()),
        fits_one(st.partition_controllers, (a.key(), partition.key())),
        fits_one(st.partition_operators, (a.key(), partition.key())),
        fits_one(st.allowances, (a.key(), partition.key())),
{
}

/// A grant is switched on or off, never taken away: whatever the ledger had
/// a record of before a grant or a revocation, it has a record of after.
pub proof fn lemma_records_stay(st: LedgerState, actor: AccountId, partition: Hash256, on: bool, amount: u128)
    ensures
        st.controllers.dom().subset_of(st.with_controller(actor, on).controllers.dom()),
        st.partition_controllers.dom().subset_of(
            st.with_partition_controller(actor, partition).partition_controllers.dom(),
        ),
        st.partition_controllers.dom().subset_of(
            st.without_partition_controller(actor, partition).partition_controllers.dom(),
        ),
        st.operators.dom().subset_of(st.with_operator(actor, on).operators.dom()),
        st.partition_operators.dom().subset_of(
            st.with_partition_operator(actor, partition, on).partition_operators.dom(),
        ),
        st.allowances.dom().subset_of(st.with_allowance(actor, partition, amount).allowances.dom()),
        st.with_controller(actor, on).is_controller(actor) == on,
        !st.without_partition_controller(actor, partition).is_controller_by_partition(actor, partition),
        st.with_operator(actor, on).is_authorized_operator(actor) == on,
        st.with_partition_operator(actor, partition, on).is_authorized_operator_by_partition(
            actor,
            partition,
        ) == on,
        st.with_allowance(actor, partition, amount).allowed_amount(actor, partition) == amount,
{
}

/// Documents are only ever appended: after one more, those that were there
/// are there, in their places, and the new one is the last of its partition.
pub proof fn lemma_documents_only_grow(st: LedgerState, document: crate::model::Document)
    ensures
        st.documents.is_prefix_of(st.with_document(document).documents),
        st.with_document(document).documents.last() == document,
        st.with_document(document).documents_of(document.partition)
            == st.documents_of(document.partition).push(document),
        forall|p: Hash256| p != document.partition
            ==> #[trigger] st.with_document(document).documents_of(p) == st.documents_of(p),
{
    assert forall|p: Hash256| #[trigger] st.with_document(document).documents_of(p) == (if p
        == document.partition {
        st.documents_of(p).push(document)
    } else {
        st.documents_of(p)
    }) by {
        st.documents.lemma_filter_push(document, |d: crate::model::Document| d.partition == p);
    }
}

} // verus!
