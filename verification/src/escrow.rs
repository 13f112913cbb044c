//! A single-owner token with payments held in escrow between a buyer and a
//! seller until the buyer completes them or the seller refunds them.
//!
//! Calls name their caller. Where the contract would notify the outside world,
//! the call returns the notice and leaves sending it to the host.

use vstd::prelude::*;
use crate::ident::{AccountId, Balance};
use crate::lookup::{amount_in, pair_amount_in};
use crate::purse::{draw, drawn, lemma_drawn, lemma_paid, paid, pay, shift, shifted};
use crate::outcome::{done, refused};
use crate::store::{
    amounts, amounts_insert, amounts_len, amounts_new, capacity, fits, fits_one, pair_amounts,
    pair_amounts_insert, pair_amounts_len, pair_amounts_new, AmountMap, Pair, PairAmountMap, ROOMY,
    Word,
};
use crate::sums::{amount_at, lemma_total_bounds_one, lemma_total_insert, total};

verus! {

/// Why a call was refused.
#[derive(Clone, Copy, Debug, PartialEq, Eq, Structural)]
pub enum Error {
    /// The sender holds less than was to be moved.
    InsufficientBalance,
    /// The spender is allowed less than was to be moved.
    InsufficientAllowance,
    /// The caller is neither a party entitled to this nor the owner.
    NoPermission,
    /// Only the owner may do this.
    OnlyOwner,
}

/// Notice that tokens moved; `from` is absent where they were created.
#[derive(Clone, Copy, Debug, PartialEq, Eq)]
pub struct Transfer {
    pub from: Option<AccountId>,
    pub to: Option<AccountId>,
    pub value: Balance,
}

/// Notice that `spender` may withdraw up to `value` from `owner`.
#[derive(Clone, Copy, Debug, PartialEq, Eq)]
pub struct Approval {
    pub owner: AccountId,
    pub spender: AccountId,
    pub value: Balance,
}

/// Notice that ownership passed from `from` to `to`.
#[derive(Clone, Copy, Debug, PartialEq, Eq)]
pub struct TransferOwnerShip {
    pub from: AccountId,
    pub to: AccountId,
}

/// What an escrow token holds.
pub struct EscrowState {
    pub owner: AccountId,
    pub total_supply: u128,
    /// Tokens held, by holder.
    pub balances: Map<Word, u128>,
    /// What a spender may withdraw, by holder and spender.
    pub allowances: Map<Pair, u128>,
    /// Tokens in escrow, by buyer and seller.
    pub escrow_balances: Map<Pair, u128>,
}

impl EscrowState {
    /// What `owner` holds, not counting what is in escrow.
    pub open spec fn balance_of(self, owner: AccountId) -> u128 {
        amount_at(self.balances, owner.key())
    }

    /// What `spender` may still withdraw from `owner`.
    pub open spec fn allowance(self, owner: AccountId, spender: AccountId) -> u128 {
        amount_at(self.allowances, (owner.key(), spender.key()))
    }

    /// What `from` has in escrow for `to`.
    pub open spec fn escrow_balance(self, from: AccountId, to: AccountId) -> u128 {
        amount_at(self.escrow_balances, (from.key(), to.key()))
    }

    /// What is held and what is in escrow are together the supply.
    pub open spec fn consistent(self) -> bool {
        &&& self.balances.dom().finite()
        &&& self.allowances.dom().finite()
        &&& self.escrow_balances.dom().finite()
        &&& total(self.balances) + total(self.escrow_balances) == self.total_supply
    }

    /// Whether every store can take two more entries.
    pub open spec fn has_room(self) -> bool {
        &&& self.balances.dom().len() + 2 <= capacity()
        &&& self.allowances.dom().len() + 2 <= capacity()
        &&& self.escrow_balances.dom().len() + 2 <= capacity()
    }

    /// After `value` moved from `from` to `to`.
    pub open spec fn moved(self, from: AccountId, to: AccountId, value: u128) -> EscrowState {
        EscrowState { balances: shifted(self.balances, from.key(), to.key(), value), ..self }
    }

    /// After `spender` was allowed to withdraw up to `value` from `owner`.
    pub open spec fn approved(
        self,
        owner: AccountId,
        spender: AccountId,
        value: u128,
    ) -> EscrowState {
        EscrowState { allowances: self.allowances.insert((owner.key(), spender.key()), value), ..self }
    }

    /// After `spender` moved `value` from `from` to `to` out of their allowance.
    pub open spec fn withdrawn(
        self,
        spender: AccountId,
        from: AccountId,
        to: AccountId,
        value: u128,
    ) -> EscrowState {
        self.moved(from, to, value).approved(from, spender, (self.allowance(from, spender) - value) as u128)
    }

    /// After `buyer` put `value` in escrow for `seller`.
    pub open spec fn escrowed(
        self,
        buyer: AccountId,
        seller: AccountId,
        value: u128,
    ) -> EscrowState {
        EscrowState {
            balances: drawn(self.balances, buyer.key(), value),
            escrow_balances: paid(self.escrow_balances, (buyer.key(), seller.key()), value),
            ..self
        }
    }

    /// After all that `from` had in escrow for `to` was paid out to `receiver`.
    pub open spec fn released(
        self,
        from: AccountId,
        to: AccountId,
        receiver: AccountId,
    ) -> EscrowState {
        EscrowState {
            balances: paid(self.balances, receiver.key(), self.escrow_balance(from, to)),
            escrow_balances: self.escrow_balances.insert((from.key(), to.key()), 0),
            ..self
        }
    }

    /// Whether the stores can take what releasing the escrow of `from` for
    /// `to` to `receiver` writes.
    pub open spec fn fits_release(
        self,
        from: AccountId,
        to: AccountId,
        receiver: AccountId,
    ) -> bool {
        &&& fits(self.balances, receiver.key(), receiver.key())
        &&& fits(self.escrow_balances, (from.key(), to.key()), (from.key(), to.key()))
    }
}

/// A token whose holders can pay each other through escrow.
pub struct Escrow {
    owner: AccountId,
    total_supply: Balance,
    balances: AmountMap,
    allowances: PairAmountMap,
    escrow_balances: PairAmountMap,
}

impl View for Escrow {
    type V = EscrowState;

    closed spec fn view(&self) -> EscrowState {
        EscrowState {
            owner: self.owner,
            total_supply: self.total_supply,
            balances: amounts(self.balances),
            allowances: pair_amounts(self.allowances),
            escrow_balances: pair_amounts(self.escrow_balances),
        }
    }
}

impl Escrow {
    /// What every escrow token satisfies.
    pub open spec fn wf(&self) -> bool {
        self@.consistent()
    }

    /// Deploys a token owned by `caller`, who gets the whole `initial_supply`.
    pub fn new(caller: AccountId, initial_supply: Balance) -> (r: (Escrow, Transfer))
        ensures
            r.0.wf(),
            r.0@.owner == caller,
            r.0@.total_supply == initial_supply,
            r.0@.balances == Map::<Word, u128>::empty().insert(caller.key(), initial_supply),
            r.0@.allowances == Map::<Pair, u128>::empty(),
            r.0@.escrow_balances == Map::<Pair, u128>::empty(),
            r.1 == (Transfer { from: None, to: Some(caller), value: initial_supply }),
    {
        let mut balances = amounts_new();
        proof {
            assert(amounts(balances).dom() =~= Set::empty());
            assert(amounts(balances) =~= Map::<Word, u128>::empty());
            lemma_total_insert(amounts(balances), caller.key(), initial_supply);
        }
        amounts_insert(&mut balances, caller.word(), initial_supply);
        let allowances = pair_amounts_new();
        let escrow_balances = pair_amounts_new();
        proof {
            assert(pair_amounts(allowances) =~= Map::<Pair, u128>::empty());
            assert(pair_amounts(escrow_balances) =~= Map::<Pair, u128>::empty());
            assert(pair_amounts(escrow_balances).dom() =~= Set::empty());
        }
        let token = Escrow { owner: caller, total_supply: initial_supply, balances, allowances, escrow_balances };
        (token, Transfer { from: None, to: Some(caller), value: initial_supply })
    }

    /// All tokens in existence.
    pub fn total_supply(&self) -> (r: Balance)
        ensures
            r == self@.total_supply,
    {
        self.total_supply
    }

    /// What `owner` holds, not counting what is in escrow.
    pub fn balance_of(&self, owner: AccountId) -> (r: Balance)
        ensures
            r == self@.balance_of(owner),
    {
        amount_in(&self.balances, owner.word())
    }

    /// What `spender` may still withdraw from `owner`.
    pub fn allowance(&self, owner: AccountId, spender: AccountId) -> (r: Balance)
        ensures
            r == self@.allowance(owner, spender),
    {
        pair_amount_in(&self.allowances, (owner.word(), spender.word()))
    }

    /// What `from` has in escrow for `to`.
    pub fn escrow_balance(&self, from: AccountId, to: AccountId) -> (r: Balance)
        ensures
            r == self@.escrow_balance(from, to),
    {
        pair_amount_in(&self.escrow_balances, (from.word(), to.word()))
    }

    /// `Ok` for the owner, `OnlyOwner` for anyone else.
    pub fn only_owner(&self, caller: AccountId) -> (r: Result<(), Error>)
        ensures
            caller == self@.owner ==> r == Ok::<(), Error>(()),
            caller != self@.owner ==> r == Err::<(), Error>(Error::OnlyOwner),
    {
        if self.owner == caller {
            Ok(())
        } else {
            Err(Error::OnlyOwner)
        }
    }

    /// Whether every store has room for two more entries, which is as much as
    /// any one call writes.
    pub fn has_room(&self) -> (r: bool)
        requires
            self.wf(),
        ensures
            r == self@.has_room(),
    {
        amounts_len(&self.balances) <= ROOMY && pair_amounts_len(&self.allowances) <= ROOMY
            && pair_amounts_len(&self.escrow_balances) <= ROOMY
    }

    /// Puts `value` of the caller's tokens in escrow for `seller`; refused with
    /// `InsufficientBalance`, and nothing changed, if the caller holds less.
    pub fn create_payment(
        &mut self,
        caller: AccountId,
        seller: AccountId,
        value: Balance,
    ) -> (r: Result<(), Error>)
        requires
            old(self).wf(),
            value <= old(self)@.balance_of(caller)
                ==> fits(old(self)@.balances, caller.key(), caller.key())
                && fits(
                    old(self)@.escrow_balances,
                    (caller.key(), seller.key()),
                    (caller.key(), seller.key()),
                ),
        ensures
            final(self).wf(),
            old(self)@.balance_of(caller) < value
                ==> refused(*old(self), *final(self), r, Error::InsufficientBalance),
            value <= old(self)@.balance_of(caller)
                ==> done(final(self)@, r, old(self)@.escrowed(caller, seller, value), ()),
    {
        let buyer_balance = amount_in(&self.balances, caller.word());
        if buyer_balance < value {
            return Err(Error::InsufficientBalance);
        }
        proof {
            lemma_drawn(self@.balances, caller.key(), value);
            lemma_paid(self@.escrow_balances, (caller.key(), seller.key()), value);
        }
        draw(&mut self.balances, caller.word(), value);
        let escrow_balance = pair_amount_in(&self.escrow_balances, (caller.word(), seller.word()));
        pair_amounts_insert(&mut self.escrow_balances, (caller.word(), seller.word()), escrow_balance + value);
        Ok(())
    }

    /// Pays all that `from` has in escrow for `to` out to `receiver`.
    fn release(&mut self, from: AccountId, to: AccountId, receiver: AccountId)
        requires
            old(self).wf(),
            old(self)@.fits_release(from, to, receiver),
        ensures
            final(self).wf(),
            final(self)@ == old(self)@.released(from, to, receiver),
    {
        let esbalance = pair_amount_in(&self.escrow_balances, (from.word(), to.word()));
        proof {
            lemma_total_bounds_one(self@.escrow_balances, (from.key(), to.key()));
            lemma_paid(self@.balances, receiver.key(), esbalance);
            lemma_total_insert(self@.escrow_balances, (from.key(), to.key()), 0);
        }
        pay(&mut self.balances, receiver.word(), esbalance);
        pair_amounts_insert(&mut self.escrow_balances, (from.word(), to.word()), 0);
    }

    /// Completes the payment of `from` to `to`: what was in escrow goes to
    /// `to`. For `from` and for the owner; anyone else gets `NoPermission`.
    pub fn complete_payment(
        &mut self,
        caller: AccountId,
        from: AccountId,
        to: AccountId,
    ) -> (r: Result<(), Error>)
        requires
            old(self).wf(),
            caller == from || caller == old(self)@.owner ==> old(self)@.fits_release(from, to, to),
        ensures
            final(self).wf(),
            caller == from || caller == old(self)@.owner
                ==> done(final(self)@, r, old(self)@.released(from, to, to), ()),
            !(caller == from || caller == old(self)@.owner)
                ==> refused(*old(self), *final(self), r, Error::NoPermission),
    {
        if caller == from || caller == self.owner {
            self.release(from, to, to);
            Ok(())
        } else {
            Err(Error::NoPermission)
        }
    }

    /// Refunds the payment of `from` to `to`: what was in escrow goes back to
    /// `from`. For `to` and for the owner; anyone else gets `NoPermission`.
    pub fn refund(
        &mut self,
        caller: AccountId,
        from: AccountId,
        to: AccountId,
    ) -> (r: Result<(), Error>)
        requires
            old(self).wf(),
            caller == to || caller == old(self)@.owner ==> old(self)@.fits_release(from, to, from),
        ensures
            final(self).wf(),
            caller == to || caller == old(self)@.owner
                ==> done(final(self)@, r, old(self)@.released(from, to, from), ()),
            !(caller == to || caller == old(self)@.owner)
                ==> refused(*old(self), *final(self), r, Error::NoPermission),
    {
        if caller == to || caller == self.owner {
            self.release(from, to, from);
            Ok(())
        } else {
            Err(Error::NoPermission)
        }
    }

    /// Lets `spender` withdraw up to `value` from the caller.
    pub fn approve(
        &mut self,
        caller: AccountId,
        spender: AccountId,
        value: Balance,
    ) -> (r: (bool, Approval))
        requires
            old(self).wf(),
            fits_one(old(self)@.allowances, (caller.key(), spender.key())),
        ensures
            final(self).wf(),
            final(self)@ == old(self)@.approved(caller, spender, value),
            r.0,
            r.1 == (Approval { owner: caller, spender: spender, value: value }),
    {
        pair_amounts_insert(&mut self.allowances, (caller.word(), spender.word()), value);
        (true, Approval { owner: caller, spender, value })
    }

    /// Moves `value` from `from` to `to`.
    fn transfer_from_to(
        &mut self,
        from: AccountId,
        to: AccountId,
        value: Balance,
    ) -> (r: Result<Transfer, Error>)
        requires
            old(self).wf(),
            value <= old(self)@.balance_of(from)
                ==> fits(old(self)@.balances, from.key(), to.key()),
        ensures
            final(self).wf(),
            old(self)@.balance_of(from) < value
                ==> refused(*old(self), *final(self), r, Error::InsufficientBalance),
            value <= old(self)@.balance_of(from)
                ==> done(
                    final(self)@,
                    r,
                    old(self)@.moved(from, to, value),
                    (Transfer { from: Some(from), to: Some(to), value: value }),
                ),
    {
        let from_balance = amount_in(&self.balances, from.word());
        if from_balance < value {
            return Err(Error::InsufficientBalance);
        }
        shift(&mut self.balances, from.word(), to.word(), value);
        Ok(Transfer { from: Some(from), to: Some(to), value })
    }

    /// Moves `value` from the caller to `to`; refused with
    /// `InsufficientBalance`, and nothing changed, if the caller holds less.
    pub fn transfer(
        &mut self,
        caller: AccountId,
        to: AccountId,
        value: Balance,
    ) -> (r: Result<Transfer, Error>)
        requires
            old(self).wf(),
            value <= old(self)@.balance_of(caller)
                ==> fits(old(self)@.balances, caller.key(), to.key()),
        ensures
            final(self).wf(),
            old(self)@.balance_of(caller) < value
                ==> refused(*old(self), *final(self), r, Error::InsufficientBalance),
            value <= old(self)@.balance_of(caller)
                ==> done(
                    final(self)@,
                    r,
                    old(self)@.moved(caller, to, value),
                    (Transfer { from: Some(caller), to: Some(to), value: value }),
                ),
    {
        self.transfer_from_to(caller, to, value)
    }

    /// Moves `value` from `from` to `to` out of what the caller may withdraw
    /// from `from`, and lowers that allowance by `value`. Refused with
    /// `InsufficientAllowance` if the allowance is less than `value`, else with
    /// `InsufficientBalance` if `from` holds less; a refusal changes nothing.
    pub fn transfer_from(
        &mut self,
        caller: AccountId,
        from: AccountId,
        to: AccountId,
        value: Balance,
    ) -> (r: Result<Transfer, Error>)
        requires
            old(self).wf(),
            value <= old(self)@.allowance(from, caller) && value <= old(self)@.balance_of(from)
                ==> fits(old(self)@.balances, from.key(), to.key())
                && fits_one(old(self)@.allowances, (from.key(), caller.key())),
        ensures
            final(self).wf(),
            old(self)@.allowance(from, caller) < value
                ==> refused(*old(self), *final(self), r, Error::InsufficientAllowance),
            value <= old(self)@.allowance(from, caller) && old(self)@.balance_of(from) < value
                ==> refused(*old(self), *final(self), r, Error::InsufficientBalance),
            value <= old(self)@.allowance(from, caller) && value <= old(self)@.balance_of(from)
                ==> done(
                    final(self)@,
                    r,
                    old(self)@.withdrawn(caller, from, to, value),
                    (Transfer { from: Some(from), to: Some(to), value: value }),
                ),
    {
        let allowance = pair_amount_in(&self.allowances, (from.word(), caller.word()));
        if allowance < value {
            return Err(Error::InsufficientAllowance);
        }
        let moved = self.transfer_from_to(from, to, value);
        match moved {
            Err(e) => Err(e),
            Ok(notice) => {
                pair_amounts_insert(&mut self.allowances, (from.word(), caller.word()), allowance - value);
                Ok(notice)
            },
        }
    }

    /// Passes the token to a new owner. For the owner only.
    pub fn transfer_ownership(
        &mut self,
        caller: AccountId,
        to: AccountId,
    ) -> (r: Result<TransferOwnerShip, Error>)
        requires
            old(self).wf(),
        ensures
            final(self).wf(),
            caller == old(self)@.owner
                ==> done(
                    final(self)@,
                    r,
                    (EscrowState { owner: to, ..old(self)@ }),
                    (TransferOwnerShip { from: caller, to: to }),
                ),
            caller != old(self)@.owner ==> refused(*old(self), *final(self), r, Error::OnlyOwner),
    {
        if self.owner != caller {
            return Err(Error::OnlyOwner);
        }
        let owner = self.owner;
        self.owner = to;
        Ok(TransferOwnerShip { from: owner, to })
    }
}

} // verus!
