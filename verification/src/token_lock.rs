//! A lock that pays a fixed amount to each admitted account once a release
//! date has passed.
//!
//! The clock, the lock's own funds and the payment belong to the host: calls
//! take the time and the funds as arguments, `get_token` answers with the
//! amount to pay, and `transfer_result` says what a failed payment means.

use vstd::prelude::*;
use crate::ident::{AccountId, Balance};
use crate::lookup::flag_in;
use crate::outcome::{done, refused};
use crate::store::{
    capacity, fits_one, flags, flags_insert, flags_len, flags_new, FlagMap, ROOMY, Word,
};
use crate::sums::flag_at;

verus! {

/// Why a call was refused.
#[derive(Clone, Copy, Debug, PartialEq, Eq, Structural)]
pub enum Error {
    /// The release date has not come yet.
    IsUnlockPerior,
    /// The caller is not admitted, or is not the owner where the owner is asked for.
    NoPermissionAllow,
    /// The lock holds less than one payment.
    InsufficientFunds,
    /// The payment would leave the lock with less than it needs to exist.
    BelowSubsistenceThreshold,
    /// The payment failed for another reason.
    TransferFailed,
}

/// How the host's payment failed.
#[derive(Clone, Copy, Debug, PartialEq, Eq, Structural)]
pub enum TransferFailure {
    /// It would have left the payer with less than it needs to exist.
    BelowSubsistenceThreshold,
    /// Anything else.
    Other,
}

/// Milliseconds in a minute.
pub const MINUTE: u64 = 60000;

/// What a lock holds.
pub struct LockState {
    /// Whether an account is admitted.
    pub lst_account: Map<Word, bool>,
    /// What each admitted account is paid.
    pub amount: u128,
    /// From when on payments are made, in milliseconds.
    pub release_date: u64,
    pub owner: AccountId,
}

impl LockState {
    /// Whether `account` is admitted.
    pub open spec fn allow(self, account: AccountId) -> bool {
        flag_at(self.lst_account, account.key())
    }

    /// How long until the release date, zero from then on.
    pub open spec fn time_count_down(self, now: u64) -> u64 {
        if now < self.release_date {
            (self.release_date - now) as u64
        } else {
            0
        }
    }

    /// What `get_token` answers: the checks are made in this order.
    pub open spec fn claim(
        self,
        caller: AccountId,
        now: u64,
        balance: u128,
    ) -> Result<u128, Error> {
        if now < self.release_date {
            Err(Error::IsUnlockPerior)
        } else if !self.allow(caller) {
            Err(Error::NoPermissionAllow)
        } else if self.amount > balance {
            Err(Error::InsufficientFunds)
        } else {
            Ok(self.amount)
        }
    }
}

/// A lock with one owner.
pub struct TokenLock {
    lst_account: FlagMap,
    amount: Balance,
    release_date: u64,
    owner: AccountId,
}

impl View for TokenLock {
    type V = LockState;

    closed spec fn view(&self) -> LockState {
        LockState {
            lst_account: flags(self.lst_account),
            amount: self.amount,
            release_date: self.release_date,
            owner: self.owner,
        }
    }
}

impl TokenLock {
    /// What every lock satisfies.
    pub open spec fn wf(&self) -> bool {
        self@.lst_account.dom().finite()
    }

    /// Deploys a lock owned by `caller` that pays `amount` to each admitted
    /// account from `lock_time` minutes after `now`.
    pub fn new(caller: AccountId, amount: Balance, lock_time: u64, now: u64) -> (lock: TokenLock)
        requires
            now + lock_time * MINUTE <= u64::MAX,
        ensures
            lock.wf(),
            lock@.owner == caller,
            lock@.amount == amount,
            lock@.release_date == now + lock_time * MINUTE,
            lock@.lst_account == Map::<Word, bool>::empty(),
    {
        let minute = lock_time * MINUTE;
        let lst_account = flags_new();
        proof {
            assert(flags(lst_account) =~= Map::<Word, bool>::empty());
        }
        TokenLock { lst_account, amount, release_date: now + minute, owner: caller }
    }

    /// What the host is to pay `caller` now, given the time and what the lock
    /// holds: the lock's amount, once the release date has come, if the caller
    /// is admitted and the lock can afford it.
    pub fn get_token(
        &self,
        caller: AccountId,
        now: u64,
        balance: Balance,
    ) -> (r: Result<Balance, Error>)
        ensures
            r == self@.claim(caller, now, balance),
    {
        if now < self.release_date {
            return Err(Error::IsUnlockPerior);
        } else if self.allow(caller) == false {
            return Err(Error::NoPermissionAllow);
        } else if self.amount > balance {
            return Err(Error::InsufficientFunds);
        }
        Ok(self.amount)
    }

    /// What a call to `get_token` ends with, given how the host's payment went.
    pub fn transfer_result(outcome: Result<(), TransferFailure>) -> (r: Result<(), Error>)
        ensures
            outcome is Ok ==> r == Ok::<(), Error>(()),
            outcome == Err::<(), TransferFailure>(TransferFailure::BelowSubsistenceThreshold)
                ==> r == Err::<(), Error>(Error::BelowSubsistenceThreshold),
            outcome == Err::<(), TransferFailure>(TransferFailure::Other)
                ==> r == Err::<(), Error>(Error::TransferFailed),
    {
        match outcome {
            Ok(_) => Ok(()),
            Err(TransferFailure::BelowSubsistenceThreshold) => Err(Error::BelowSubsistenceThreshold),
            Err(TransferFailure::Other) => Err(Error::TransferFailed),
        }
    }

    /// Whether the store has room for two more entries, which is more than any
    /// one call writes.
    pub fn has_room(&self) -> (r: bool)
        requires
            self.wf(),
        ensures
            r == (self@.lst_account.dom().len() + 2 <= capacity()),
    {
        flags_len(&self.lst_account) <= ROOMY
    }

    /// Admits `account`. For the owner only, and only while the lock holds at
    /// least one payment.
    pub fn add_allow_account(
        &mut self,
        caller: AccountId,
        account: AccountId,
        balance: Balance,
    ) -> (r: Result<(), Error>)
        requires
            old(self).wf(),
            caller == old(self)@.owner && old(self)@.amount <= balance
                ==> fits_one(old(self)@.lst_account, account.key()),
        ensures
            final(self).wf(),
            caller != old(self)@.owner
                ==> refused(*old(self), *final(self), r, Error::NoPermissionAllow),
            caller == old(self)@.owner && old(self)@.amount > balance
                ==> refused(*old(self), *final(self), r, Error::InsufficientFunds),
            caller == old(self)@.owner && old(self)@.amount <= balance
                ==> done(
                    final(self)@,
                    r,
                    (LockState { lst_account: old(self)@.lst_account.insert(account.key(), true), ..old(self)@ }),
                    (),
                ),
    {
        if self.owner == caller {
            if self.amount > balance {
                return Err(Error::InsufficientFunds);
            }
            flags_insert(&mut self.lst_account, account.word(), true);
            Ok(())
        } else {
            Err(Error::NoPermissionAllow)
        }
    }

    /// Passes the lock to a new owner, if the caller is the owner; does
    /// nothing otherwise.
    pub fn transfer_ownership(&mut self, caller: AccountId, new_owner: AccountId)
        requires
            old(self).wf(),
        ensures
            final(self).wf(),
            caller == old(self)@.owner
                ==> final(self)@ == (LockState { owner: new_owner, ..old(self)@ }),
            caller != old(self)@.owner ==> *final(self) == *old(self),
    {
        if self.owner == caller {
            self.owner = new_owner;
        }
    }

    /// How long until the release date, zero from then on.
    pub fn time_count_down(&self, now: u64) -> (r: u64)
        ensures
            r == self@.time_count_down(now),
    {
        let mut time: u64 = 0;
        if now < self.release_date {
            time = self.release_date - now;
        }
        time
    }

    /// Whether `account` is admitted.
    pub fn allow(&self, account: AccountId) -> (r: bool)
        ensures
            r == self@.allow(account),
    {
        flag_in(&self.lst_account, account.word())
    }
}

} // verus!
