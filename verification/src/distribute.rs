//! A fund from which the owner credits accounts, and from which an account
//! draws what it was credited.
//!
//! Paying out is the host's work. A withdrawal therefore takes three steps:
//! the fund says whether the claim is covered, the host pays, and the fund
//! books the withdrawal if the payment went through.

use vstd::prelude::*;
use crate::ident::{AccountId, Balance};
use crate::lookup::amount_in;
use crate::purse::{draw, drawn, paid, pay};
use crate::outcome::{done, refused};
use crate::store::{
    amounts, amounts_len, amounts_new, capacity, fits, AmountMap, ROOMY, Word,
};
use crate::sums::amount_at;

verus! {

/// Why a call was refused.
#[derive(Clone, Copy, Debug, PartialEq, Eq, Structural)]
pub enum Error {
    /// The host could not pay out.
    TransferFailed,
    /// The account was credited less than it claims.
    InsufficientFunds,
    /// Only the owner may do this.
    OnlyOwner,
}

/// What a fund holds.
pub struct FundState {
    pub owner: AccountId,
    /// What each account may still draw.
    pub balances: Map<Word, u128>,
}

impl FundState {
    /// What `owner` may still draw.
    pub open spec fn balance_of(self, owner: AccountId) -> u128 {
        amount_at(self.balances, owner.key())
    }
}

/// A fund with one owner.
pub struct DistributeSel {
    owner: AccountId,
    balances: AmountMap,
}

impl View for DistributeSel {
    type V = FundState;

    closed spec fn view(&self) -> FundState {
        FundState { owner: self.owner, balances: amounts(self.balances) }
    }
}

impl DistributeSel {
    /// What every fund satisfies.
    pub open spec fn wf(&self) -> bool {
        self@.balances.dom().finite()
    }

    /// Deploys a fund owned by `caller`, with nothing credited.
    pub fn new(caller: AccountId) -> (fund: DistributeSel)
        ensures
            fund.wf(),
            fund@.owner == caller,
            fund@.balances == Map::<Word, u128>::empty(),
    {
        let balances = amounts_new();
        proof {
            assert(amounts(balances) =~= Map::<Word, u128>::empty());
        }
        DistributeSel { owner: caller, balances }
    }

    /// What `owner` may still draw.
    pub fn balance_of(&self, owner: AccountId) -> (r: Balance)
        ensures
            r == self@.balance_of(owner),
    {
        self.balance_of_or_zero(owner)
    }

    fn balance_of_or_zero(&self, owner: AccountId) -> (r: Balance)
        ensures
            r == self@.balance_of(owner),
    {
        amount_in(&self.balances, owner.word())
    }

    /// `Ok` for the owner, `OnlyOwner` for anyone else.
    pub fn only_owner(&self, caller: AccountId) -> (r: Result<(), Error>)
        ensures
            caller == self@.owner ==> r == Ok::<(), Error>(()),
            caller != self@.owner ==> r == Err::<(), Error>(Error::OnlyOwner),
    {
        if self.owner == caller {
            Ok(())
        } else {
            Err(Error::OnlyOwner)
        }
    }

    /// Whether the store has room for two more entries, which is more than any
    /// one call writes.
    pub fn has_room(&self) -> (r: bool)
        requires
            self.wf(),
        ensures
            r == (self@.balances.dom().len() + 2 <= capacity()),
    {
        amounts_len(&self.balances) <= ROOMY
    }

    /// Credits `account` with `value` more. For the owner only.
    pub fn distribute(
        &mut self,
        caller: AccountId,
        account: AccountId,
        value: Balance,
    ) -> (r: Result<(), Error>)
        requires
            old(self).wf(),
            caller == old(self)@.owner ==> old(self)@.balance_of(account) + value <= u128::MAX,
            caller == old(self)@.owner ==> fits(old(self)@.balances, account.key(), account.key()),
        ensures
            final(self).wf(),
            caller == old(self)@.owner
                ==> done(
                    final(self)@,
                    r,
                    (FundState { balances: paid(old(self)@.balances, account.key(), value), ..old(self)@ }),
                    (),
                ),
            caller != old(self)@.owner ==> refused(*old(self), *final(self), r, Error::OnlyOwner),
    {
        match self.only_owner(caller) {
            Err(e) => {
                return Err(e);
            },
            Ok(_) => {},
        }
        pay(&mut self.balances, account.word(), value);
        Ok(())
    }

    /// Whether `caller` was credited at least `value`: the host pays out only
    /// after an `Ok`.
    pub fn claim(&self, caller: AccountId, value: Balance) -> (r: Result<(), Error>)
        ensures
            self@.balance_of(caller) < value ==> r == Err::<(), Error>(Error::InsufficientFunds),
            value <= self@.balance_of(caller) ==> r == Ok::<(), Error>(()),
    {
        if self.balance_of_or_zero(caller) < value {
            Err(Error::InsufficientFunds)
        } else {
            Ok(())
        }
    }

    /// What the fund makes of the host's attempt to pay out.
    pub fn transfer_balance(transferred: bool) -> (r: Result<(), Error>)
        ensures
            transferred ==> r == Ok::<(), Error>(()),
            !transferred ==> r == Err::<(), Error>(Error::TransferFailed),
    {
        if transferred {
            Ok(())
        } else {
            Err(Error::TransferFailed)
        }
    }

    /// Books a withdrawal of `value` by `caller`, given whether the host paid
    /// it out. Refused with `InsufficientFunds` if the caller was credited
    /// less, then with `TransferFailed` if the payment did not go through; a
    /// refusal changes nothing.
    pub fn get_balance(
        &mut self,
        caller: AccountId,
        value: Balance,
        transferred: bool,
    ) -> (r: Result<(), Error>)
        requires
            old(self).wf(),
            value <= old(self)@.balance_of(caller) && transferred
                ==> fits(old(self)@.balances, caller.key(), caller.key()),
        ensures
            final(self).wf(),
            old(self)@.balance_of(caller) < value
                ==> refused(*old(self), *final(self), r, Error::InsufficientFunds),
            value <= old(self)@.balance_of(caller) && !transferred
                ==> refused(*old(self), *final(self), r, Error::TransferFailed),
            value <= old(self)@.balance_of(caller) && transferred
                ==> done(
                    final(self)@,
                    r,
                    (FundState { balances: drawn(old(self)@.balances, caller.key(), value), ..old(self)@ }),
                    (),
                ),
    {
        match self.claim(caller, value) {
            Err(e) => {
                return Err(e);
            },
            Ok(_) => {},
        }
        match Self::transfer_balance(transferred) {
            Err(e) => {
                return Err(e);
            },
            Ok(_) => {},
        }
        draw(&mut self.balances, caller.word(), value);
        Ok(())
    }

    /// Passes the fund to a new owner. For the owner only.
    pub fn transfer_ownership(&mut self, caller: AccountId, to: AccountId) -> (r: Result<(), Error>)
        requires
            old(self).wf(),
        ensures
            final(self).wf(),
            caller == old(self)@.owner
                ==> done(final(self)@, r, (FundState { owner: to, ..old(self)@ }), ()),
            caller != old(self)@.owner ==> refused(*old(self), *final(self), r, Error::OnlyOwner),
    {
        match self.only_owner(caller) {
            Err(e) => {
                return Err(e);
            },
            Ok(_) => {},
        }
        self.owner = to;
        Ok(())
    }
}

} // verus!
