//! A fixed-supply token that only the owner and the accounts the owner has
//! admitted may send and receive.

use vstd::prelude::*;
use crate::ident::{AccountId, Balance};
use crate::lookup::{amount_in, flag_in};
use crate::purse::{shift, shifted};
use crate::outcome::{done, refused};
use crate::store::{
    amounts, amounts_insert, amounts_len, amounts_new, capacity, fits, fits_one, flags,
    flags_insert, flags_len, flags_new, AmountMap, FlagMap, ROOMY, Word,
};
use crate::sums::{amount_at, flag_at, lemma_total_insert, total};

verus! {

/// Why a call was refused.
#[derive(Clone, Copy, Debug, PartialEq, Eq, Structural)]
pub enum Error {
    /// The sender holds less than was to be moved.
    InsufficientBalance,
    /// The account is neither the owner nor admitted.
    NotPermission,
}

/// What the token holds.
pub struct AdmissionState {
    pub owner: AccountId,
    pub total_supply: u128,
    /// Whether an account is admitted.
    pub partitions: Map<Word, bool>,
    /// Tokens held, by holder.
    pub balances: Map<Word, u128>,
}

impl AdmissionState {
    /// What `owner` holds, zero if nothing was ever written.
    pub open spec fn balance_of(self, owner: AccountId) -> u128 {
        amount_at(self.balances, owner.key())
    }

    /// Whether `account` may send and receive: the owner, and whoever the
    /// owner has admitted and not turned out again.
    pub open spec fn is_partition(self, account: AccountId) -> bool {
        account == self.owner || flag_at(self.partitions, account.key())
    }

    /// All balances together are the supply.
    pub open spec fn consistent(self) -> bool {
        &&& self.balances.dom().finite()
        &&& self.partitions.dom().finite()
        &&& total(self.balances) == self.total_supply
    }

    /// Whether both stores can take two more entries.
    pub open spec fn has_room(self) -> bool {
        &&& self.balances.dom().len() + 2 <= capacity()
        &&& self.partitions.dom().len() + 2 <= capacity()
    }

    /// After `account` was admitted, or turned out.
    pub open spec fn admitted(self, account: AccountId, on: bool) -> AdmissionState {
        AdmissionState { partitions: self.partitions.insert(account.key(), on), ..self }
    }

    /// After `value` moved from `from` to `to`.
    pub open spec fn moved(self, from: AccountId, to: AccountId, value: u128) -> AdmissionState {
        AdmissionState { balances: shifted(self.balances, from.key(), to.key(), value), ..self }
    }
}

/// A token among admitted accounts.
pub struct Erc1400 {
    owner: AccountId,
    total_supply: Balance,
    partitions: FlagMap,
    balances: AmountMap,
}

impl View for Erc1400 {
    type V = AdmissionState;

    closed spec fn view(&self) -> AdmissionState {
        AdmissionState {
            owner: self.owner,
            total_supply: self.total_supply,
            partitions: flags(self.partitions),
            balances: amounts(self.balances),
        }
    }
}

impl Erc1400 {
    /// What every such token satisfies.
    pub open spec fn wf(&self) -> bool {
        self@.consistent()
    }

    /// Deploys a token owned by `caller`, who gets the whole `initial_supply`.
    pub fn new(caller: AccountId, initial_supply: Balance) -> (token: Erc1400)
        ensures
            token.wf(),
            token@.owner == caller,
            token@.total_supply == initial_supply,
            token@.balances == Map::<Word, u128>::empty().insert(caller.key(), initial_supply),
            token@.partitions == Map::<Word, bool>::empty(),
    {
        let mut balances = amounts_new();
        proof {
            assert(amounts(balances).dom() =~= Set::empty());
            assert(amounts(balances) =~= Map::<Word, u128>::empty());
            lemma_total_insert(amounts(balances), caller.key(), initial_supply);
        }
        amounts_insert(&mut balances, caller.word(), initial_supply);
        let partitions = flags_new();
        proof {
            assert(flags(partitions) =~= Map::<Word, bool>::empty());
        }
        Erc1400 { owner: caller, total_supply: initial_supply, partitions, balances }
    }

    /// The owner.
    pub fn owner(&self) -> (r: AccountId)
        ensures
            r == self@.owner,
    {
        self.owner
    }

    /// What `owner` holds.
    pub fn balance_of(&self, owner: AccountId) -> (r: Balance)
        ensures
            r == self@.balance_of(owner),
    {
        self.balance_of_or_zero(owner)
    }

    fn balance_of_or_zero(&self, owner: AccountId) -> (r: Balance)
        ensures
            r == self@.balance_of(owner),
    {
        amount_in(&self.balances, owner.word())
    }

    fn partition_or_not(&self, partition: AccountId) -> (r: bool)
        ensures
            r == flag_at(self@.partitions, partition.key()),
    {
        flag_in(&self.partitions, partition.word())
    }

    /// `Ok` for the owner and for admitted accounts, `NotPermission` for anyone else.
    pub fn is_permission(&self, partition: AccountId) -> (r: Result<(), Error>)
        ensures
            self@.is_partition(partition) ==> r == Ok::<(), Error>(()),
            !self@.is_partition(partition) ==> r == Err::<(), Error>(Error::NotPermission),
    {
        if partition == self.owner {
            Ok(())
        } else if self.partition_or_not(partition) {
            Ok(())
        } else {
            Err(Error::NotPermission)
        }
    }

    /// Whether `partition` may send and receive.
    pub fn is_partition(&self, partition: AccountId) -> (r: bool)
        ensures
            r == self@.is_partition(partition),
    {
        match self.is_permission(partition) {
            Ok(_) => true,
            Err(_) => false,
        }
    }

    /// Whether both stores have room for two more entries, which is as much as
    /// any one call writes.
    pub fn has_room(&self) -> (r: bool)
        requires
            self.wf(),
        ensures
            r == self@.has_room(),
    {
        amounts_len(&self.balances) <= ROOMY && flags_len(&self.partitions) <= ROOMY
    }

    /// Admits `partition`, if the caller is the owner; does nothing otherwise.
    pub fn add_partition(&mut self, caller: AccountId, partition: AccountId)
        requires
            old(self).wf(),
            caller == old(self)@.owner ==> fits_one(old(self)@.partitions, partition.key()),
        ensures
            final(self).wf(),
            caller == old(self)@.owner ==> final(self)@ == old(self)@.admitted(partition, true),
            caller != old(self)@.owner ==> *final(self) == *old(self),
    {
        if caller == self.owner {
            flags_insert(&mut self.partitions, partition.word(), true);
        }
    }

    /// Turns `partition` out, if the caller is the owner; does nothing otherwise.
    pub fn revoke_partition(&mut self, caller: AccountId, partition: AccountId)
        requires
            old(self).wf(),
            caller == old(self)@.owner ==> fits_one(old(self)@.partitions, partition.key()),
        ensures
            final(self).wf(),
            caller == old(self)@.owner ==> final(self)@ == old(self)@.admitted(partition, false),
            caller != old(self)@.owner ==> *final(self) == *old(self),
    {
        if caller == self.owner {
            flags_insert(&mut self.partitions, partition.word(), false);
        }
    }

    fn transfer_from_to(
        &mut self,
        from: AccountId,
        to: AccountId,
        value: Balance,
    ) -> (r: Result<(), Error>)
        requires
            old(self).wf(),
            value <= old(self)@.balance_of(from)
                ==> fits(old(self)@.balances, from.key(), to.key()),
        ensures
            final(self).wf(),
            old(self)@.balance_of(from) < value
                ==> refused(*old(self), *final(self), r, Error::InsufficientBalance),
            value <= old(self)@.balance_of(from)
                ==> done(final(self)@, r, old(self)@.moved(from, to, value), ()),
    {
        let from_balance = self.balance_of_or_zero(from);
        if from_balance < value {
            return Err(Error::InsufficientBalance);
        }
        shift(&mut self.balances, from.word(), to.word(), value);
        Ok(())
    }

    /// Moves `value` from the caller to `to`. Refused with `NotPermission`
    /// unless both may send and receive, then with `InsufficientBalance` if the
    /// caller holds less than `value`; a refusal changes nothing.
    pub fn transfer(
        &mut self,
        caller: AccountId,
        to: AccountId,
        value: Balance,
    ) -> (r: Result<(), Error>)
        requires
            old(self).wf(),
            old(self)@.is_partition(caller)
                && old(self)@.is_partition(to)
                && value <= old(self)@.balance_of(caller)
                ==> fits(old(self)@.balances, caller.key(), to.key()),
        ensures
            final(self).wf(),
            !(old(self)@.is_partition(caller) && old(self)@.is_partition(to))
                ==> refused(*old(self), *final(self), r, Error::NotPermission),
            old(self)@.is_partition(caller)
                && old(self)@.is_partition(to)
                && old(self)@.balance_of(caller) < value
                ==> refused(*old(self), *final(self), r, Error::InsufficientBalance),
            old(self)@.is_partition(caller)
                && old(self)@.is_partition(to)
                && value <= old(self)@.balance_of(caller)
                ==> done(final(self)@, r, old(self)@.moved(caller, to, value), ()),
    {
        match self.is_permission(caller) {
            Err(e) => {
                return Err(e);
            },
            Ok(_) => {},
        }
        match self.is_permission(to) {
            Err(e) => {
                return Err(e);
            },
            Ok(_) => {},
        }
        self.transfer_from_to(caller, to, value)
    }

    /// Passes the token to a new owner. For the owner only; anyone else gets
    /// `NotPermission`.
    pub fn transfer_ownership(&mut self, caller: AccountId, to: AccountId) -> (r: Result<(), Error>)
        requires
            old(self).wf(),
        ensures
            final(self).wf(),
            caller == old(self)@.owner
                ==> done(final(self)@, r, (AdmissionState { owner: to, ..old(self)@ }), ()),
            caller != old(self)@.owner
                ==> refused(*old(self), *final(self), r, Error::NotPermission),
    {
        if caller == self.owner {
            self.owner = to;
            Ok(())
        } else {
            Err(Error::NotPermission)
        }
    }
}

} // verus!
