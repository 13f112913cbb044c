//! A single-owner currency whose owner can raise and lower the supply.
//!
//! Calls name their caller. Where the contract would notify the outside world,
//! the call returns the notice and leaves sending it to the host.

use vstd::prelude::*;
use crate::ident::{AccountId, Balance};
use crate::lookup::{amount_in, pair_amount_in};
use crate::purse::{draw, drawn, lemma_drawn, lemma_paid, paid, pay, shift, shifted};
use crate::outcome::{done, refused};
use crate::store::{
    amounts, amounts_insert, amounts_len, amounts_new, capacity, fits, fits_one, pair_amounts,
    pair_amounts_insert, pair_amounts_len, pair_amounts_new, AmountMap, Pair, PairAmountMap, ROOMY,
    Word,
};
use crate::sums::{amount_at, lemma_total_insert, total};

verus! {

/// Why a call was refused.
#[derive(Clone, Copy, Debug, PartialEq, Eq, Structural)]
pub enum Error {
    /// The sender holds less than was to be moved.
    InsufficientBalance,
    /// The spender is allowed less than was to be moved.
    InsufficientAllowance,
    /// Only the owner may do this.
    OnlyOwner,
}

/// Notice that tokens moved; `from` is absent where they were created.
#[derive(Clone, Copy, Debug, PartialEq, Eq)]
pub struct Transfer {
    pub from: Option<AccountId>,
    pub to: Option<AccountId>,
    pub value: Balance,
}

/// Notice that `spender` may withdraw up to `value` from `owner`.
#[derive(Clone, Copy, Debug, PartialEq, Eq)]
pub struct Approval {
    pub owner: AccountId,
    pub spender: AccountId,
    pub value: Balance,
}

/// Notice that ownership passed from `from` to `to`.
#[derive(Clone, Copy, Debug, PartialEq, Eq)]
pub struct TransferOwnerShip {
    pub from: AccountId,
    pub to: AccountId,
}

/// Notice that the owner raised the supply by `value`.
#[derive(Clone, Copy, Debug, PartialEq, Eq)]
pub struct IncrementSupply {
    pub from: AccountId,
    pub value: Balance,
}

/// Notice that the owner lowered the supply by `value`.
#[derive(Clone, Copy, Debug, PartialEq, Eq)]
pub struct DecrementSupply {
    pub from: AccountId,
    pub value: Balance,
}

/// What a currency holds.
pub struct CurrencyState {
    pub owner: AccountId,
    pub total_supply: u128,
    /// Tokens held, by holder.
    pub balances: Map<Word, u128>,
    /// What a spender may withdraw, by holder and spender.
    pub allowances: Map<Pair, u128>,
}

impl CurrencyState {
    /// What `owner` holds.
    pub open spec fn balance_of(self, owner: AccountId) -> u128 {
        amount_at(self.balances, owner.key())
    }

    /// What `spender` may still withdraw from `owner`.
    pub open spec fn allowance(self, owner: AccountId, spender: AccountId) -> u128 {
        amount_at(self.allowances, (owner.key(), spender.key()))
    }

    /// All balances together are the supply.
    pub open spec fn consistent(self) -> bool {
        &&& self.balances.dom().finite()
        &&& self.allowances.dom().finite()
        &&& total(self.balances) == self.total_supply
    }

    /// Whether both stores can take two more entries.
    pub open spec fn has_room(self) -> bool {
        &&& self.balances.dom().len() + 2 <= capacity()
        &&& self.allowances.dom().len() + 2 <= capacity()
    }

    /// After `value` moved from `from` to `to`.
    pub open spec fn moved(self, from: AccountId, to: AccountId, value: u128) -> CurrencyState {
        CurrencyState { balances: shifted(self.balances, from.key(), to.key(), value), ..self }
    }

    /// After `spender` was allowed to withdraw up to `value` from `owner`.
    pub open spec fn approved(
        self,
        owner: AccountId,
        spender: AccountId,
        value: u128,
    ) -> CurrencyState {
        CurrencyState { allowances: self.allowances.insert((owner.key(), spender.key()), value), ..self }
    }

    /// After `spender` moved `value` from `from` to `to` out of their allowance.
    pub open spec fn withdrawn(
        self,
        spender: AccountId,
        from: AccountId,
        to: AccountId,
        value: u128,
    ) -> CurrencyState {
        self.moved(from, to, value).approved(from, spender, (self.allowance(from, spender) - value) as u128)
    }

    /// After the owner created `value` tokens for themselves.
    pub open spec fn raised(self, value: u128) -> CurrencyState {
        CurrencyState {
            total_supply: (self.total_supply + value) as u128,
            balances: paid(self.balances, self.owner.key(), value),
            ..self
        }
    }

    /// After the owner destroyed `value` of their tokens.
    pub open spec fn lowered(self, value: u128) -> CurrencyState {
        CurrencyState {
            total_supply: (self.total_supply - value) as u128,
            balances: drawn(self.balances, self.owner.key(), value),
            ..self
        }
    }
}

/// A currency with one owner.
pub struct StableCurrency {
    owner: AccountId,
    total_supply: Balance,
    balances: AmountMap,
    allowances: PairAmountMap,
}

impl View for StableCurrency {
    type V = CurrencyState;

    closed spec fn view(&self) -> CurrencyState {
        CurrencyState {
            owner: self.owner,
            total_supply: self.total_supply,
            balances: amounts(self.balances),
            allowances: pair_amounts(self.allowances),
        }
    }
}

impl StableCurrency {
    /// What every currency satisfies.
    pub open spec fn wf(&self) -> bool {
        self@.consistent()
    }

    /// Deploys a currency owned by `caller`, who gets the whole `initial_supply`.
    pub fn new(caller: AccountId, initial_supply: Balance) -> (r: (StableCurrency, Transfer))
        ensures
            r.0.wf(),
            r.0@.owner == caller,
            r.0@.total_supply == initial_supply,
            r.0@.balances == Map::<Word, u128>::empty().insert(caller.key(), initial_supply),
            r.0@.allowances == Map::<Pair, u128>::empty(),
            r.1 == (Transfer { from: None, to: Some(caller), value: initial_supply }),
    {
        let mut balances = amounts_new();
        proof {
            assert(amounts(balances).dom() =~= Set::empty());
            assert(amounts(balances) =~= Map::<Word, u128>::empty());
            lemma_total_insert(amounts(balances), caller.key(), initial_supply);
        }
        amounts_insert(&mut balances, caller.word(), initial_supply);
        let allowances = pair_amounts_new();
        proof {
            assert(pair_amounts(allowances) =~= Map::<Pair, u128>::empty());
        }
        let currency = StableCurrency { owner: caller, total_supply: initial_supply, balances, allowances };
        (currency, Transfer { from: None, to: Some(caller), value: initial_supply })
    }

    /// All tokens in existence.
    pub fn total_supply(&self) -> (r: Balance)
        ensures
            r == self@.total_supply,
    {
        self.total_supply
    }

    /// What `owner` holds.
    pub fn balance_of(&self, owner: AccountId) -> (r: Balance)
        ensures
            r == self@.balance_of(owner),
    {
        amount_in(&self.balances, owner.word())
    }

    /// What `spender` may still withdraw from `owner`.
    pub fn allowance(&self, owner: AccountId, spender: AccountId) -> (r: Balance)
        ensures
            r == self@.allowance(owner, spender),
    {
        pair_amount_in(&self.allowances, (owner.word(), spender.word()))
    }

    /// `Ok` for the owner, `OnlyOwner` for anyone else.
    pub fn only_owner(&self, caller: AccountId) -> (r: Result<(), Error>)
        ensures
            caller == self@.owner ==> r == Ok::<(), Error>(()),
            caller != self@.owner ==> r == Err::<(), Error>(Error::OnlyOwner),
    {
        if self.owner == caller {
            Ok(())
        } else {
            Err(Error::OnlyOwner)
        }
    }

    /// Whether both stores have room for two more entries, which is as much as
    /// any one call writes.
    pub fn has_room(&self) -> (r: bool)
        requires
            self.wf(),
        ensures
            r == self@.has_room(),
    {
        amounts_len(&self.balances) <= ROOMY && pair_amounts_len(&self.allowances) <= ROOMY
    }

    /// Lets `spender` withdraw up to `value` from the caller.
    pub fn approve(
        &mut self,
        caller: AccountId,
        spender: AccountId,
        value: Balance,
    ) -> (r: (bool, Approval))
        requires
            old(self).wf(),
            fits_one(old(self)@.allowances, (caller.key(), spender.key())),
        ensures
            final(self).wf(),
            final(self)@ == old(self)@.approved(caller, spender, value),
            r.0,
            r.1 == (Approval { owner: caller, spender: spender, value: value }),
    {
        pair_amounts_insert(&mut self.allowances, (caller.word(), spender.word()), value);
        (true, Approval { owner: caller, spender, value })
    }

    /// Moves `value` from `from` to `to`.
    fn transfer_from_to(
        &mut self,
        from: AccountId,
        to: AccountId,
        value: Balance,
    ) -> (r: Result<Transfer, Error>)
        requires
            old(self).wf(),
            value <= old(self)@.balance_of(from)
                ==> fits(old(self)@.balances, from.key(), to.key()),
        ensures
            final(self).wf(),
            old(self)@.balance_of(from) < value
                ==> refused(*old(self), *final(self), r, Error::InsufficientBalance),
            value <= old(self)@.balance_of(from)
                ==> done(
                    final(self)@,
                    r,
                    old(self)@.moved(from, to, value),
                    (Transfer { from: Some(from), to: Some(to), value: value }),
                ),
    {
        let from_balance = amount_in(&self.balances, from.word());
        if from_balance < value {
            return Err(Error::InsufficientBalance);
        }
        shift(&mut self.balances, from.word(), to.word(), value);
        Ok(Transfer { from: Some(from), to: Some(to), value })
    }

    /// Moves `value` from the caller to `to`; refused with
    /// `InsufficientBalance`, and nothing changed, if the caller holds less.
    pub fn transfer(
        &mut self,
        caller: AccountId,
        to: AccountId,
        value: Balance,
    ) -> (r: Result<Transfer, Error>)
        requires
            old(self).wf(),
            value <= old(self)@.balance_of(caller)
                ==> fits(old(self)@.balances, caller.key(), to.key()),
        ensures
            final(self).wf(),
            old(self)@.balance_of(caller) < value
                ==> refused(*old(self), *final(self), r, Error::InsufficientBalance),
            value <= old(self)@.balance_of(caller)
                ==> done(
                    final(self)@,
                    r,
                    old(self)@.moved(caller, to, value),
                    (Transfer { from: Some(caller), to: Some(to), value: value }),
                ),
    {
        self.transfer_from_to(caller, to, value)
    }

    /// Moves `value` from `from` to `to` out of what the caller may withdraw
    /// from `from`, and lowers that allowance by `value`. Refused with
    /// `InsufficientAllowance` if the allowance is less than `value`, else with
    /// `InsufficientBalance` if `from` holds less; a refusal changes nothing.
    pub fn transfer_from(
        &mut self,
        caller: AccountId,
        from: AccountId,
        to: AccountId,
        value: Balance,
    ) -> (r: Result<Transfer, Error>)
        requires
            old(self).wf(),
            value <= old(self)@.allowance(from, caller) && value <= old(self)@.balance_of(from)
                ==> fits(old(self)@.balances, from.key(), to.key())
                && fits_one(old(self)@.allowances, (from.key(), caller.key())),
        ensures
            final(self).wf(),
            old(self)@.allowance(from, caller) < value
                ==> refused(*old(self), *final(self), r, Error::InsufficientAllowance),
            value <= old(self)@.allowance(from, caller) && old(self)@.balance_of(from) < value
                ==> refused(*old(self), *final(self), r, Error::InsufficientBalance),
            value <= old(self)@.allowance(from, caller) && value <= old(self)@.balance_of(from)
                ==> done(
                    final(self)@,
                    r,
                    old(self)@.withdrawn(caller, from, to, value),
                    (Transfer { from: Some(from), to: Some(to), value: value }),
                ),
    {
        let allowance = pair_amount_in(&self.allowances, (from.word(), caller.word()));
        if allowance < value {
            return Err(Error::InsufficientAllowance);
        }
        let moved = self.transfer_from_to(from, to, value);
        match moved {
            Err(e) => Err(e),
            Ok(notice) => {
                pair_amounts_insert(&mut self.allowances, (from.word(), caller.word()), allowance - value);
                Ok(notice)
            },
        }
    }

    /// Passes the currency to a new owner. For the owner only.
    pub fn transfer_ownership(
        &mut self,
        caller: AccountId,
        to: AccountId,
    ) -> (r: Result<TransferOwnerShip, Error>)
        requires
            old(self).wf(),
        ensures
            final(self).wf(),
            caller == old(self)@.owner
                ==> done(
                    final(self)@,
                    r,
                    (CurrencyState { owner: to, ..old(self)@ }),
                    (TransferOwnerShip { from: caller, to: to }),
                ),
            caller != old(self)@.owner ==> refused(*old(self), *final(self), r, Error::OnlyOwner),
    {
        if self.owner != caller {
            return Err(Error::OnlyOwner);
        }
        let owner = self.owner;
        self.owner = to;
        Ok(TransferOwnerShip { from: owner, to })
    }

    /// Creates `value` tokens for the owner. For the owner only.
    pub fn inc_supply(
        &mut self,
        caller: AccountId,
        value: Balance,
    ) -> (r: Result<IncrementSupply, Error>)
        requires
            old(self).wf(),
            caller == old(self)@.owner ==> old(self)@.total_supply + value <= u128::MAX,
            caller == old(self)@.owner ==> fits(old(self)@.balances, caller.key(), caller.key()),
        ensures
            final(self).wf(),
            caller == old(self)@.owner
                ==> done(
                    final(self)@,
                    r,
                    old(self)@.raised(value),
                    (IncrementSupply { from: caller, value: value }),
                ),
            caller != old(self)@.owner ==> refused(*old(self), *final(self), r, Error::OnlyOwner),
    {
        if self.owner != caller {
            return Err(Error::OnlyOwner);
        }
        proof {
            lemma_paid(self@.balances, caller.key(), value);
        }
        self.total_supply = self.total_supply + value;
        pay(&mut self.balances, caller.word(), value);
        Ok(IncrementSupply { from: self.owner, value })
    }

    /// Destroys `value` of the owner's tokens. For the owner only; refused with
    /// `InsufficientBalance` if the owner holds less.
    pub fn dec_supply(
        &mut self,
        caller: AccountId,
        value: Balance,
    ) -> (r: Result<DecrementSupply, Error>)
        requires
            old(self).wf(),
            caller == old(self)@.owner && value <= old(self)@.balance_of(caller)
                ==> fits(old(self)@.balances, caller.key(), caller.key()),
        ensures
            final(self).wf(),
            caller != old(self)@.owner ==> refused(*old(self), *final(self), r, Error::OnlyOwner),
            caller == old(self)@.owner && old(self)@.balance_of(caller) < value
                ==> refused(*old(self), *final(self), r, Error::InsufficientBalance),
            caller == old(self)@.owner && value <= old(self)@.balance_of(caller)
                ==> done(
                    final(self)@,
                    r,
                    old(self)@.lowered(value),
                    (DecrementSupply { from: caller, value: value }),
                ),
    {
        if self.owner != caller {
            return Err(Error::OnlyOwner);
        }
        let owner_balance = amount_in(&self.balances, caller.word());
        if owner_balance < value {
            return Err(Error::InsufficientBalance);
        }
        proof {
            lemma_drawn(self@.balances, caller.key(), value);
        }
        self.total_supply = self.total_supply - value;
        draw(&mut self.balances, caller.word(), value);
        Ok(DecrementSupply { from: self.owner, value })
    }
}

} // verus!
