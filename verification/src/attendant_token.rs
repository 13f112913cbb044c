//! An attendance token: checking in with the day's hash earns tokens, and so
//! does checking out after a full day.
//!
//! The clock and the source of fresh hashes belong to the host: a call takes
//! the time, and the hash that replaces the current one if hashes are set to
//! change after every use.

use vstd::prelude::*;
use crate::ident::{AccountId, Balance, Hash256};
use crate::lookup::{amount_in, flag_in};
use crate::purse::{paid, pay};
use crate::outcome::{done, refused};
use crate::store::{
    amounts, amounts_len, amounts_new, capacity, fits, fits_one, flags, flags_insert, flags_len,
    flags_new, records, records_get, records_insert, records_len, records_new, times, times_get,
    times_insert, times_len, times_new, AmountMap, FlagMap, ROOMY, RecordMap, TimeMap, Word,
};
use crate::sums::{amount_at, flag_at};

verus! {

/// Why a call was refused.
#[derive(Clone, Copy, Debug, PartialEq, Eq, Structural)]
pub enum Error {
    /// The hash presented is not the current one.
    InvalidHash,
    /// The attender's status does not admit this: checking in while checked
    /// in, or checking out while checked out.
    CheckOutFail,
    /// No call ends with this.
    CheckInFail,
    /// No call ends with this.
    ChangeFail,
    /// Only the owner may do this.
    PermissionDeny,
}

/// One check-in or check-out: when and where.
#[derive(Debug)]
pub struct Attendant {
    pub time: u64,
    pub location: String,
}

/// Tokens for checking in.
pub const CHECK_IN_REWARD: u128 = 8;

/// Tokens for checking out after a full day.
pub const FULL_DAY_REWARD: u128 = 2;

/// A full day: eight hours, in milliseconds.
pub const FULL_DAY: u64 = 28800000;

/// The time under `key`, zero where there is none.
pub open spec fn time_at(m: Map<Word, u64>, key: Word) -> u64 {
    if m.contains_key(key) {
        m[key]
    } else {
        0
    }
}

/// The records under `key`, none where there is no entry.
pub open spec fn records_at(m: Map<Word, Seq<(u64, String)>>, key: Word) -> Seq<(u64, String)> {
    if m.contains_key(key) {
        m[key]
    } else {
        Seq::empty()
    }
}

/// What an attendance token holds.
pub struct AttendanceState {
    /// Tokens earned, by attender.
    pub token: Map<Word, u128>,
    /// The hash that a check-in or check-out must present.
    pub attendant_hash: Hash256,
    /// Check-ins, by attender, in order.
    pub check_in: Map<Word, Seq<(u64, String)>>,
    /// Check-outs, by attender, in order.
    pub check_out: Map<Word, Seq<(u64, String)>>,
    /// Whether an attender is checked in.
    pub check_in_status: Map<Word, bool>,
    /// When an attender last checked in.
    pub check_in_time: Map<Word, u64>,
    /// Whether the hash changes after every use.
    pub change_able: bool,
    pub owner: AccountId,
}

impl AttendanceState {
    /// The tokens `attender` has earned.
    pub open spec fn get_token(self, attender: AccountId) -> u128 {
        amount_at(self.token, attender.key())
    }

    /// Whether `attender` is checked in.
    pub open spec fn checked_in_status(self, attender: AccountId) -> bool {
        flag_at(self.check_in_status, attender.key())
    }

    /// When `attender` last checked in, zero if never.
    pub open spec fn get_checked_time(self, attender: AccountId) -> u64 {
        time_at(self.check_in_time, attender.key())
    }

    /// The check-ins of `attender`, in order.
    pub open spec fn checked_in_list(self, attender: AccountId) -> Seq<(u64, String)> {
        records_at(self.check_in, attender.key())
    }

    /// The check-outs of `attender`, in order.
    pub open spec fn checked_out_list(self, attender: AccountId) -> Seq<(u64, String)> {
        records_at(self.check_out, attender.key())
    }

    /// Every store holds finitely many entries.
    pub open spec fn finite(self) -> bool {
        &&& self.token.dom().finite()
        &&& self.check_in.dom().finite()
        &&& self.check_out.dom().finite()
        &&& self.check_in_status.dom().finite()
        &&& self.check_in_time.dom().finite()
    }

    /// Whether every store can take two more entries.
    pub open spec fn has_room(self) -> bool {
        &&& self.token.dom().len() + 2 <= capacity()
        &&& self.check_in.dom().len() + 2 <= capacity()
        &&& self.check_out.dom().len() + 2 <= capacity()
        &&& self.check_in_status.dom().len() + 2 <= capacity()
        &&& self.check_in_time.dom().len() + 2 <= capacity()
    }

    /// Whether the stores can take what a check-in or check-out by `caller` writes.
    pub open spec fn fits_attender(self, caller: AccountId) -> bool {
        &&& fits(self.token, caller.key(), caller.key())
        &&& fits_one(self.check_in, caller.key())
        &&& fits_one(self.check_out, caller.key())
        &&& fits_one(self.check_in_status, caller.key())
        &&& fits_one(self.check_in_time, caller.key())
    }

    /// The hash after a use: the fresh one if hashes change, else the same.
    pub open spec fn next_hash(self, fresh_hash: Hash256) -> Hash256 {
        if self.change_able {
            fresh_hash
        } else {
            self.attendant_hash
        }
    }

    /// Whether `caller` can check in with `attendant_hash`.
    pub open spec fn can_check_in(self, caller: AccountId, attendant_hash: Hash256) -> bool {
        attendant_hash == self.attendant_hash && !self.checked_in_status(caller)
    }

    /// Whether `caller` can check out with `attendant_hash`.
    pub open spec fn can_check_out(self, caller: AccountId, attendant_hash: Hash256) -> bool {
        attendant_hash == self.attendant_hash && self.checked_in_status(caller)
    }

    /// After `caller` checked in at `location` at time `now`.
    pub open spec fn after_check_in(
        self,
        caller: AccountId,
        location: String,
        now: u64,
        fresh_hash: Hash256,
    ) -> AttendanceState {
        AttendanceState {
            check_in_time: self.check_in_time.insert(caller.key(), now),
            check_in: self.check_in.insert(caller.key(), self.checked_in_list(caller).push((now, location))),
            token: paid(self.token, caller.key(), CHECK_IN_REWARD),
            check_in_status: self.check_in_status.insert(caller.key(), true),
            attendant_hash: self.next_hash(fresh_hash),
            ..self
        }
    }

    /// Whether a check-out at `now` ends a full day for `caller`.
    pub open spec fn full_day(self, caller: AccountId, now: u64) -> bool {
        now - self.get_checked_time(caller) > FULL_DAY
    }

    /// After `caller` checked out at `location` at time `now`.
    pub open spec fn after_check_out(
        self,
        caller: AccountId,
        location: String,
        now: u64,
        fresh_hash: Hash256,
    ) -> AttendanceState {
        AttendanceState {
            check_out: self.check_out.insert(caller.key(), self.checked_out_list(caller).push((now, location))),
            token: if self.full_day(caller, now) {
                paid(self.token, caller.key(), FULL_DAY_REWARD)
            } else {
                self.token
            },
            check_in_status: self.check_in_status.insert(caller.key(), false),
            attendant_hash: self.next_hash(fresh_hash),
            ..self
        }
    }
}

/// What a list of records says, entry by entry.
pub open spec fn as_records(list: Seq<Attendant>) -> Seq<(u64, String)> {
    list.map_values(|a: Attendant| (a.time, a.location))
}

/// An attendance token with one owner.
pub struct AttendantToken {
    token: AmountMap,
    attendant_hash: Hash256,
    check_in: RecordMap,
    check_out: RecordMap,
    check_in_status: FlagMap,
    check_in_time: TimeMap,
    change_able: bool,
    owner: AccountId,
}

impl View for AttendantToken {
    type V = AttendanceState;

    closed spec fn view(&self) -> AttendanceState {
        AttendanceState {
            token: amounts(self.token),
            attendant_hash: self.attendant_hash,
            check_in: records(self.check_in),
            check_out: records(self.check_out),
            check_in_status: flags(self.check_in_status),
            check_in_time: times(self.check_in_time),
            change_able: self.change_able,
            owner: self.owner,
        }
    }
}

/// The records in `list` as a list of check-ins or check-outs.
fn to_attendants(list: Vec<(u64, String)>) -> (out: Vec<Attendant>)
    ensures
        as_records(out@) == list@,
{
    let mut out: Vec<Attendant> = Vec::new();
    let mut i: usize = 0;
    while i < list.len()
        invariant
            i <= list.len(),
            as_records(out@) == list@.take(i as int),
        decreases list.len() - i,
    {
        let time: u64 = list[i].0;
        let location: String = list[i].1.clone();
        let ghost before = out@;
        out.push(Attendant { time, location });
        proof {
            assert(list@.take(i + 1) =~= list@.take(i as int).push(list@[i as int]));
            assert(as_records(out@) =~= as_records(before).push((time, location)));
        }
        i = i + 1;
    }
    proof {
        assert(list@.take(i as int) =~= list@);
    }
    out
}

impl AttendantToken {
    /// What every attendance token satisfies.
    pub open spec fn wf(&self) -> bool {
        self@.finite()
    }

    /// The hash that a ledger starts with: every byte of it is one.
    pub open spec fn first_hash() -> Hash256 {
        Hash256 { hi: 0x0101_0101_0101_0101_0101_0101_0101_0101, lo: 0x0101_0101_0101_0101_0101_0101_0101_0101 }
    }

    /// Deploys a token owned by `caller`, whose hash does not change with use.
    pub fn new(caller: AccountId) -> (t: AttendantToken)
        ensures
            t.wf(),
            t@.owner == caller,
            t@.attendant_hash == Self::first_hash(),
            !t@.change_able,
            t@.token == Map::<Word, u128>::empty(),
            t@.check_in == Map::<Word, Seq<(u64, String)>>::empty(),
            t@.check_out == Map::<Word, Seq<(u64, String)>>::empty(),
            t@.check_in_status == Map::<Word, bool>::empty(),
            t@.check_in_time == Map::<Word, u64>::empty(),
    {
        let hash = Hash256 {
            hi: 0x0101_0101_0101_0101_0101_0101_0101_0101,
            lo: 0x0101_0101_0101_0101_0101_0101_0101_0101,
        };
        let t = AttendantToken {
            token: amounts_new(),
            attendant_hash: hash,
            check_in: records_new(),
            check_out: records_new(),
            check_in_status: flags_new(),
            check_in_time: times_new(),
            change_able: false,
            owner: caller,
        };
        proof {
            assert(t@.token =~= Map::<Word, u128>::empty());
            assert(t@.check_in =~= Map::<Word, Seq<(u64, String)>>::empty());
            assert(t@.check_out =~= Map::<Word, Seq<(u64, String)>>::empty());
            assert(t@.check_in_status =~= Map::<Word, bool>::empty());
            assert(t@.check_in_time =~= Map::<Word, u64>::empty());
        }
        t
    }

    /// The bytes that the host hands to its source of randomness when it
    /// makes a fresh hash.
    pub fn hash_subject() -> (x: Vec<u8>)
        ensures
            x@ == seq![0u8, 1u8, 2u8, 3u8, 4u8, 5u8, 6u8, 7u8, 8u8, 9u8, 12u8, 34u8, 56u8, 78u8, 90u8],
    {
        let x: Vec<u8> = vec![0, 1, 2, 3, 4, 5, 6, 7, 8, 9, 12, 34, 56, 78, 90];
        x
    }

    /// The tokens `attender` has earned.
    pub fn get_token(&self, attender: AccountId) -> (r: Balance)
        ensures
            r == self@.get_token(attender),
    {
        amount_in(&self.token, attender.word())
    }

    /// Whether `attender` is checked in.
    pub fn checked_in_status(&self, attender: AccountId) -> (r: bool)
        ensures
            r == self@.checked_in_status(attender),
    {
        flag_in(&self.check_in_status, attender.word())
    }

    /// When `attender` last checked in, zero if never.
    pub fn get_checked_time(&self, attender: AccountId) -> (r: u64)
        ensures
            r == self@.get_checked_time(attender),
    {
        match times_get(&self.check_in_time, attender.word()) {
            Some(t) => t,
            None => 0,
        }
    }

    fn check_in_records(&self, attender: AccountId) -> (r: Vec<(u64, String)>)
        ensures
            r@ == self@.checked_in_list(attender),
    {
        match records_get(&self.check_in, attender.word()) {
            Some(l) => l,
            None => Vec::new(),
        }
    }

    fn check_out_records(&self, attender: AccountId) -> (r: Vec<(u64, String)>)
        ensures
            r@ == self@.checked_out_list(attender),
    {
        match records_get(&self.check_out, attender.word()) {
            Some(l) => l,
            None => Vec::new(),
        }
    }

    /// The check-ins of `attender`, in order.
    pub fn checked_in_list(&self, attender: AccountId) -> (r: Vec<Attendant>)
        ensures
            as_records(r@) == self@.checked_in_list(attender),
    {
        to_attendants(self.check_in_records(attender))
    }

    /// The check-outs of `attender`, in order.
    pub fn checked_out_list(&self, attender: AccountId) -> (r: Vec<Attendant>)
        ensures
            as_records(r@) == self@.checked_out_list(attender),
    {
        to_attendants(self.check_out_records(attender))
    }

    /// The hash that a check-in or check-out must present.
    pub fn get_hash(&self) -> (r: Hash256)
        ensures
            r == self@.attendant_hash,
    {
        self.attendant_hash
    }

    /// Whether every store has room for two more entries, which is more than
    /// any one call writes.
    pub fn has_room(&self) -> (r: bool)
        requires
            self.wf(),
        ensures
            r == self@.has_room(),
    {
        amounts_len(&self.token) <= ROOMY && records_len(&self.check_in) <= ROOMY
            && records_len(&self.check_out) <= ROOMY && flags_len(&self.check_in_status)
            <= ROOMY && times_len(&self.check_in_time) <= ROOMY
    }

    /// Sets whether the hash changes after every use. For the owner only.
    pub fn is_changeable(&mut self, caller: AccountId, can: bool) -> (r: Result<(), Error>)
        requires
            old(self).wf(),
        ensures
            final(self).wf(),
            caller == old(self)@.owner
                ==> done(final(self)@, r, (AttendanceState { change_able: can, ..old(self)@ }), ()),
            caller != old(self)@.owner
                ==> refused(*old(self), *final(self), r, Error::PermissionDeny),
    {
        if caller == self.owner {
            self.change_able = can;
            Ok(())
        } else {
            Err(Error::PermissionDeny)
        }
    }

    fn generate_hash(&mut self, fresh_hash: Hash256)
        ensures
            final(self)@ == (AttendanceState { attendant_hash: fresh_hash, ..old(self)@ }),
    {
        self.attendant_hash = fresh_hash;
    }

    /// Checks `caller` in at `location` at time `now`, for eight tokens.
    /// Refused with `InvalidHash` unless `attendant_hash` is the current hash,
    /// then with `CheckOutFail` if the caller is checked in already; a refusal
    /// changes nothing. If hashes change with use, `fresh_hash` becomes the
    /// current one.
    pub fn checked_in(
        &mut self,
        caller: AccountId,
        attendant_hash: Hash256,
        location: String,
        now: u64,
        fresh_hash: Hash256,
    ) -> (r: Result<(), Error>)
        requires
            old(self).wf(),
            old(self)@.can_check_in(caller, attendant_hash) ==> old(self)@.fits_attender(caller),
            old(self)@.can_check_in(caller, attendant_hash)
                ==> old(self)@.get_token(caller) + CHECK_IN_REWARD <= u128::MAX,
        ensures
            final(self).wf(),
            attendant_hash != old(self)@.attendant_hash
                ==> refused(*old(self), *final(self), r, Error::InvalidHash),
            attendant_hash == old(self)@.attendant_hash && old(self)@.checked_in_status(caller)
                ==> refused(*old(self), *final(self), r, Error::CheckOutFail),
            old(self)@.can_check_in(caller, attendant_hash)
                ==> done(
                    final(self)@,
                    r,
                    old(self)@.after_check_in(caller, location, now, fresh_hash),
                    (),
                ),
    {
        if attendant_hash != self.attendant_hash {
            return Err(Error::InvalidHash);
        }
        if self.checked_in_status(caller) == true {
            return Err(Error::CheckOutFail);
        }
        times_insert(&mut self.check_in_time, caller.word(), now);

        let mut attendant_list = self.check_in_records(caller);
        attendant_list.push((now, location));
        records_insert(&mut self.check_in, caller.word(), attendant_list);

        pay(&mut self.token, caller.word(), CHECK_IN_REWARD);

        flags_insert(&mut self.check_in_status, caller.word(), true);
        if self.change_able {
            self.generate_hash(fresh_hash);
        }
        Ok(())
    }

    /// Checks `caller` out at `location` at time `now`, for two tokens if more
    /// than eight hours have passed since the check-in. Refused with
    /// `InvalidHash` unless `attendant_hash` is the current hash, then with
    /// `CheckOutFail` if the caller is not checked in; a refusal changes
    /// nothing. If hashes change with use, `fresh_hash` becomes the current one.
    pub fn checked_out(
        &mut self,
        caller: AccountId,
        attendant_hash: Hash256,
        location: String,
        now: u64,
        fresh_hash: Hash256,
    ) -> (r: Result<(), Error>)
        requires
            old(self).wf(),
            old(self)@.can_check_out(caller, attendant_hash) ==> old(self)@.fits_attender(caller),
            old(self)@.can_check_out(caller, attendant_hash)
                ==> old(self)@.get_checked_time(caller) <= now,
            old(self)@.can_check_out(caller, attendant_hash)
                ==> old(self)@.get_token(caller) + FULL_DAY_REWARD <= u128::MAX,
        ensures
            final(self).wf(),
            attendant_hash != old(self)@.attendant_hash
                ==> refused(*old(self), *final(self), r, Error::InvalidHash),
            attendant_hash == old(self)@.attendant_hash && !old(self)@.checked_in_status(caller)
                ==> refused(*old(self), *final(self), r, Error::CheckOutFail),
            old(self)@.can_check_out(caller, attendant_hash)
                ==> done(
                    final(self)@,
                    r,
                    old(self)@.after_check_out(caller, location, now, fresh_hash),
                    (),
                ),
    {
        if attendant_hash != self.attendant_hash {
            return Err(Error::InvalidHash);
        }
        if self.checked_in_status(caller) == false {
            return Err(Error::CheckOutFail);
        }
        let mut attendant_list = self.check_out_records(caller);
        attendant_list.push((now, location));
        records_insert(&mut self.check_out, caller.word(), attendant_list);

        if now - self.get_checked_time(caller) > FULL_DAY {
            pay(&mut self.token, caller.word(), FULL_DAY_REWARD);
        }
        flags_insert(&mut self.check_in_status, caller.word(), false);
        if self.change_able {
            self.generate_hash(fresh_hash);
        }
        Ok(())
    }
}

} // verus!
