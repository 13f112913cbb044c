//! The partitioned token ledger.
//!
//! Every call names its caller: the host that runs the ledger has already
//! established who that is. A call first asks whether the caller may do what
//! is asked, and changes nothing unless the answer is yes; what it then does is
//! one transition of the state machine in `model`.

use vstd::prelude::*;
use crate::ident::{AccountId, Balance, Hash256};
use crate::laws::{
    lemma_bounds, lemma_deployed_consistent, lemma_issue_consistent, lemma_moved_consistent,
    lemma_register_consistent, lemma_same_books,
};
use crate::lookup::{amount_in, flag_in, holds_word, list_in, pair_amount_in, pair_flag_in};
use crate::model::{Action, Document, LedgerState};
use crate::outcome::{done, refused};
use crate::store::{
    amounts, amounts_insert, amounts_len, amounts_new, fits_one, flags, flags_insert, flags_len,
    flags_new, lists, lists_insert, lists_len, lists_new, pair_amounts, pair_amounts_insert,
    pair_amounts_len, pair_amounts_new, pair_flags, pair_flags_insert, pair_flags_len,
    pair_flags_new, AmountMap, FlagMap, ListMap, PairAmountMap, PairFlagMap, ROOMY, Word,
};

verus! {

/// Why a call was refused.
#[derive(Clone, Copy, Debug, PartialEq, Eq, Structural)]
pub enum Error {
    /// The caller has no leave to do this in this partition.
    NotAllowed,
    /// The sender holds less in the partition than was to be moved.
    InsufficientBalance,
    /// Only the owner may do this.
    OnlyOwner,
    /// A digest that the ledger does not know.
    InvalidHash,
    /// A partition that the ledger does not know.
    InvalidPartition,
}

/// A ledger of tokens in partitions, with its roles, allowances and documents.
pub struct Erc1400 {
    symbol: String,
    owner: AccountId,
    one_time_issue: bool,
    total_supply: Balance,
    total_supply_by_partition: AmountMap,
    balances: AmountMap,
    documents: Vec<Document>,
    total_partitions: Vec<Hash256>,
    partitions_of: ListMap,
    balance_of_partition: PairAmountMap,
    allow_by_partition: PairAmountMap,
    authorized_operator: FlagMap,
    controllers: FlagMap,
    authorized_operator_by_partition: PairFlagMap,
    controllers_by_partition: PairFlagMap,
}

impl View for Erc1400 {
    type V = LedgerState;

    closed spec fn view(&self) -> LedgerState {
        LedgerState {
            owner: self.owner,
            symbol: self.symbol@,
            one_time_issue: self.one_time_issue,
            total_supply: self.total_supply,
            supply: amounts(self.total_supply_by_partition),
            balances: amounts(self.balances),
            positions: pair_amounts(self.balance_of_partition),
            allowances: pair_amounts(self.allow_by_partition),
            partitions: self.total_partitions@,
            holdings: lists(self.partitions_of),
            documents: self.documents@,
            controllers: flags(self.controllers),
            partition_controllers: pair_flags(self.controllers_by_partition),
            operators: flags(self.authorized_operator),
            partition_operators: pair_flags(self.authorized_operator_by_partition),
        }
    }
}

/// How a call that needs leave ends. With leave it succeeds, and the ledger is
/// then in the state `after`. Without leave it is refused with `NotAllowed`, and
/// the ledger is as it was.
pub open spec fn needs_leave(
    leave: bool,
    before: Erc1400,
    now: Erc1400,
    r: Result<(), Error>,
    after: LedgerState,
) -> bool {
    if leave {
        done(now@, r, after, ())
    } else {
        refused(before, now, r, Error::NotAllowed)
    }
}

impl Erc1400 {
    /// What every ledger satisfies: its books are consistent and its registry
    /// is in order.
    pub open spec fn wf(&self) -> bool {
        self@.sound()
    }

    /// Deploys a ledger owned by `caller`, with no supply, no partition, no role
    /// granted and no document.
    pub fn new(caller: AccountId, token_symbol: String, one_time_issue: bool) -> (ledger: Erc1400)
        ensures
            ledger.wf(),
            ledger@ == LedgerState::deployed(caller, token_symbol@, one_time_issue),
    {
        proof {
            lemma_deployed_consistent(caller, token_symbol@, one_time_issue);
        }
        Erc1400 {
            symbol: token_symbol,
            owner: caller,
            one_time_issue,
            total_supply: 0,
            total_supply_by_partition: amounts_new(),
            balances: amounts_new(),
            documents: Vec::new(),
            total_partitions: Vec::new(),
            partitions_of: lists_new(),
            balance_of_partition: pair_amounts_new(),
            allow_by_partition: pair_amounts_new(),
            authorized_operator: flags_new(),
            controllers: flags_new(),
            authorized_operator_by_partition: pair_flags_new(),
            controllers_by_partition: pair_flags_new(),
        }
    }

    // ---- reading -----------------------------------------------------------

    /// All tokens in existence.
    pub fn total_supply(&self) -> (r: Balance)
        ensures
            r == self@.total_supply,
    {
        self.total_supply
    }

    /// The tokens in existence in `partition`.
    pub fn total_supply_by_partition(&self, partition: Hash256) -> (r: Balance)
        ensures
            r == self@.total_supply_by_partition(partition),
    {
        amount_in(&self.total_supply_by_partition, partition.word())
    }

    /// What `token_holder` holds over all partitions.
    pub fn balance_of(&self, token_holder: AccountId) -> (r: Balance)
        ensures
            r == self@.balance_of(token_holder),
    {
        amount_in(&self.balances, token_holder.word())
    }

    /// What `token_holder` holds in `partition`.
    pub fn balance_of_by_partition(
        &self,
        token_holder: AccountId,
        partition: Hash256,
    ) -> (r: Balance)
        ensures
            r == self@.balance_of_by_partition(token_holder, partition),
    {
        pair_amount_in(&self.balance_of_partition, (token_holder.word(), partition.word()))
    }

    /// What `token_holder` may receive in `partition` from a sender without a role.
    pub fn get_allowed_amout(&self, token_holder: AccountId, partition: Hash256) -> (r: Balance)
        ensures
            r == self@.allowed_amount(token_holder, partition),
    {
        pair_amount_in(&self.allow_by_partition, (token_holder.word(), partition.word()))
    }

    /// Every partition, in the order of registration.
    pub fn list_of_partition(&self) -> (r: Vec<Hash256>)
        ensures
            r@ == self@.partitions,
    {
        let mut out: Vec<Hash256> = Vec::new();
        let mut i: usize = 0;
        while i < self.total_partitions.len()
            invariant
                i <= self.total_partitions.len(),
                out@ == self.total_partitions@.take(i as int),
            decreases self.total_partitions.len() - i,
        {
            out.push(self.total_partitions[i]);
            proof {
                assert(self.total_partitions@.take(i + 1) =~= self.total_partitions@.take(i as int).push(
                    self.total_partitions@[i as int],
                ));
            }
            i = i + 1;
        }
        proof {
            assert(self.total_partitions@.take(i as int) =~= self.total_partitions@);
        }
        out
    }

    /// The partitions that `token_holder` was issued into, in order.
    pub fn partion_of_token_holder(&self, token_holder: AccountId) -> (r: Vec<Hash256>)
        ensures
            r@ == self@.partitions_of(token_holder),
    {
        let held: Vec<Word> = list_in(&self.partitions_of, token_holder.word());
        let mut out: Vec<Hash256> = Vec::new();
        let mut i: usize = 0;
        while i < held.len()
            invariant
                i <= held.len(),
                out@ == held@.take(i as int).map_values(|w: Word| Hash256 { hi: w.0, lo: w.1 }),
            decreases held.len() - i,
        {
            out.push(Hash256::of_word(held[i]));
            proof {
                assert(held@.take(i + 1) =~= held@.take(i as int).push(held@[i as int]));
                assert(held@.take(i + 1).map_values(|w: Word| Hash256 { hi: w.0, lo: w.1 }) =~= held@.take(
                    i as int,
                ).map_values(|w: Word| Hash256 { hi: w.0, lo: w.1 }).push(
                    Hash256 { hi: held@[i as int].0, lo: held@[i as int].1 },
                ));
            }
            i = i + 1;
        }
        proof {
            assert(held@.take(i as int) =~= held@);
        }
        out
    }

    /// The token's symbol.
    pub fn symbol(&self) -> (r: String)
        ensures
            r@ == self@.symbol,
    {
        self.symbol.clone()
    }

    /// The documents attached to `partition`, in the order of attachment.
    pub fn get_document(&self, partition: Hash256) -> (r: Vec<Document>)
        ensures
            r@ == self@.documents_of(partition),
    {
        let ghost wanted = |d: Document| d.partition == partition;
        let mut out: Vec<Document> = Vec::new();
        let mut i: usize = 0;
        proof {
            assert(self.documents@.take(0) =~= Seq::<Document>::empty());
            assert(Seq::<Document>::empty().filter(wanted) =~= Seq::<Document>::empty()) by {
                reveal(Seq::filter);
            }
        }
        while i < self.documents.len()
            invariant
                i <= self.documents.len(),
                wanted == (|d: Document| d.partition == partition),
                out@ == self.documents@.take(i as int).filter(wanted),
            decreases self.documents.len() - i,
        {
            let d: &Document = &self.documents[i];
            proof {
                assert(self.documents@.take(i + 1) =~= self.documents@.take(i as int).push(
                    self.documents@[i as int],
                ));
                self.documents@.take(i as int).lemma_filter_push(self.documents@[i as int], wanted);
            }
            if d.partition == partition {
                out.push(
                    Document { partition: d.partition, doc_uri: d.doc_uri.clone(), doc_hash: d.doc_hash },
                );
            }
            i = i + 1;
        }
        proof {
            assert(self.documents@.take(i as int) =~= self.documents@);
        }
        out
    }

    /// Whether `partition` is registered.
    pub fn is_partition(&self, partition: Hash256) -> (r: bool)
        ensures
            r == self@.is_partition(partition),
    {
        let mut i: usize = 0;
        while i < self.total_partitions.len()
            invariant
                i <= self.total_partitions.len(),
                forall|j: int| 0 <= j < i ==> self.total_partitions@[j] != partition,
            decreases self.total_partitions.len() - i,
        {
            if self.total_partitions[i] == partition {
                return true;
            }
            i = i + 1;
        }
        false
    }

    /// Whether `partition` can be issued into: always, unless the ledger lets a
    /// partition be issued into only once and that has happened.
    pub fn is_issuable(&self, partition: Hash256) -> (r: bool)
        ensures
            r == self@.is_issuable(partition),
    {
        if !self.one_time_issue {
            return true;
        }
        crate::store::amounts_get(&self.total_supply_by_partition, partition.word()).is_none()
    }

    // ---- roles -------------------------------------------------------------

    /// Whether `caller` is the owner.
    pub fn only_owner(&self, caller: AccountId) -> (r: bool)
        ensures
            r == self@.is_owner(caller),
    {
        caller == self.owner
    }

    /// Whether `caller` is a controller of every partition.
    pub fn is_controller(&self, caller: AccountId) -> (r: bool)
        ensures
            r == self@.is_controller(caller),
    {
        flag_in(&self.controllers, caller.word())
    }

    /// Whether `caller` is a controller of `partition`.
    pub fn is_controller_by_partition(&self, caller: AccountId, partition: Hash256) -> (r: bool)
        ensures
            r == self@.is_controller_by_partition(caller, partition),
    {
        pair_flag_in(&self.controllers_by_partition, (caller.word(), partition.word()))
    }

    /// Whether `caller` is an operator of every partition.
    pub fn is_authorized_operator(&self, caller: AccountId) -> (r: bool)
        ensures
            r == self@.is_authorized_operator(caller),
    {
        flag_in(&self.authorized_operator, caller.word())
    }

    /// Whether `caller` is an operator of `partition`.
    pub fn is_authorized_operator_by_partition(
        &self,
        caller: AccountId,
        partition: Hash256,
    ) -> (r: bool)
        ensures
            r == self@.is_authorized_operator_by_partition(caller, partition),
    {
        pair_flag_in(&self.authorized_operator_by_partition, (caller.word(), partition.word()))
    }

    /// Whether `caller` may issue, redeem, attach documents and grant within
    /// `partition`: the owner, a controller of every partition, or one of this.
    pub fn is_issue_redeem_able(&self, caller: AccountId, partition: Hash256) -> (r: bool)
        ensures
            r == self@.administers(caller, partition),
    {
        self.only_owner(caller) || self.is_controller(caller) || self.is_controller_by_partition(
            caller,
            partition,
        )
    }

    /// Whether `caller` may move `amount` of `partition` to `token_holder`:
    /// with any role always, without one only within the receiver's allowance.
    pub fn is_allowed(
        &self,
        caller: AccountId,
        token_holder: AccountId,
        partition: Hash256,
        amount: Balance,
    ) -> (r: bool)
        ensures
            r == self@.is_allowed(caller, token_holder, partition, amount),
    {
        if self.only_owner(caller) || self.is_controller(caller) || self.is_controller_by_partition(
            caller,
            partition,
        ) || self.is_authorized_operator(caller) || self.is_authorized_operator_by_partition(
            caller,
            partition,
        ) {
            true
        } else {
            let allow_balance = self.get_allowed_amout(token_holder, partition);
            !(allow_balance < amount)
        }
    }

    /// Whether `actor` may do `action` in `partition`.
    pub fn authorize(&self, actor: AccountId, partition: Hash256, action: Action) -> (r: bool)
        ensures
            r == self@.authorize(actor, partition, action),
    {
        match action {
            Action::Transfer { to, amount } => self.is_allowed(actor, to, partition, amount),
            _ => self.is_issue_redeem_able(actor, partition),
        }
    }

    /// Whether every store has room for two more entries, which is as much as
    /// any one call writes to it.
    pub fn has_room(&self) -> (r: bool)
        requires
            self.wf(),
        ensures
            r == self@.has_room(),
    {
        amounts_len(&self.total_supply_by_partition) <= ROOMY
            && amounts_len(&self.balances) <= ROOMY
            && pair_amounts_len(&self.balance_of_partition) <= ROOMY && pair_amounts_len(
            &self.allow_by_partition,
        ) <= ROOMY && lists_len(&self.partitions_of) <= ROOMY && flags_len(&self.controllers) <= ROOMY
            && pair_flags_len(&self.controllers_by_partition) <= ROOMY && flags_len(
            &self.authorized_operator,
        ) <= ROOMY && pair_flags_len(&self.authorized_operator_by_partition) <= ROOMY
    }
}

impl Erc1400 {
    // ---- the books ---------------------------------------------------------

    /// Registers `partition`, once.
    fn register(&mut self, partition: Hash256)
        ensures
            final(self)@ == (LedgerState { partitions: old(self)@.registered(partition), ..old(self)@ }),
    {
        if !self.is_partition(partition) {
            self.total_partitions.push(partition);
        }
    }

    /// Moves `amount` of `partition` from `from` to `to`.
    fn transfer_from_to(
        &mut self,
        from: AccountId,
        to: AccountId,
        partition: Hash256,
        amount: Balance,
    )
        requires
            old(self).wf(),
            amount <= old(self)@.balance_of_by_partition(from, partition),
            old(self)@.fits_move(from, to, partition),
        ensures
            final(self).wf(),
            final(self)@ == old(self)@.moved(from, to, partition, amount),
    {
        proof {
            lemma_moved_consistent(self@, from, to, partition, amount);
        }
        let from_key = (from.word(), partition.word());
        let to_key = (to.word(), partition.word());
        let from_balance = pair_amount_in(&self.balance_of_partition, from_key);
        pair_amounts_insert(&mut self.balance_of_partition, from_key, from_balance - amount);
        let from_balances = amount_in(&self.balances, from.word());
        amounts_insert(&mut self.balances, from.word(), from_balances - amount);
        assert(self@ == old(self)@.debit(from, partition, amount));
        let to_balances = amount_in(&self.balances, to.word());
        amounts_insert(&mut self.balances, to.word(), to_balances + amount);
        let to_balance = pair_amount_in(&self.balance_of_partition, to_key);
        pair_amounts_insert(&mut self.balance_of_partition, to_key, to_balance + amount);
    }

    /// Issues `amount` new tokens in `partition` to the caller, who must be the
    /// owner or a controller of the partition. Registers the partition, and
    /// enters it in the caller's list, if it is new there. Where the ledger lets
    /// a partition be issued into only once, a second issue is refused.
    ///
    /// The supply must stay within a `u128`.
    pub fn issue_by_partition(
        &mut self,
        caller: AccountId,
        partition: Hash256,
        amount: Balance,
    ) -> (r: Result<(), Error>)
        requires
            old(self).wf(),
            old(self)@.may_issue(caller, partition)
                ==> old(self)@.total_supply + amount <= u128::MAX,
            old(self)@.may_issue(caller, partition) ==> old(self)@.fits_issue(caller, partition),
        ensures
            final(self).wf(),
            needs_leave(
                old(self)@.may_issue(caller, partition),
                *old(self),
                *final(self),
                r,
                old(self)@.issue(caller, partition, amount),
            ),
    {
        if !(self.is_issue_redeem_able(caller, partition) && self.is_issuable(partition)) {
            return Err(Error::NotAllowed);
        }
        proof {
            lemma_issue_consistent(self@, caller, partition, amount);
            lemma_bounds(self@, caller, partition);
        }
        let caller_key = caller.word();
        let partition_key = partition.word();
        self.total_supply = self.total_supply + amount;

        let tpb = amount_in(&self.total_supply_by_partition, partition_key);
        amounts_insert(&mut self.total_supply_by_partition, partition_key, tpb + amount);

        let balance = amount_in(&self.balances, caller_key);
        amounts_insert(&mut self.balances, caller_key, balance + amount);

        self.register(partition);

        let mut own_partition = list_in(&self.partitions_of, caller_key);
        if !holds_word(&own_partition, partition_key) {
            own_partition.push(partition_key);
            lists_insert(&mut self.partitions_of, caller_key, own_partition);
        }
        let p_balance = pair_amount_in(&self.balance_of_partition, (caller_key, partition_key));
        pair_amounts_insert(&mut self.balance_of_partition, (caller_key, partition_key), p_balance + amount);
        Ok(())
    }

    /// Moves `amount` of `partition` from the caller to `to`. Refused with
    /// `NotAllowed` unless the caller holds a role or `to` is allowed to receive
    /// that much; then refused with `InsufficientBalance` if the caller holds
    /// less than `amount` in the partition. A refusal changes nothing.
    pub fn transfer(
        &mut self,
        caller: AccountId,
        to: AccountId,
        partition: Hash256,
        amount: Balance,
    ) -> (r: Result<(), Error>)
        requires
            old(self).wf(),
            old(self)@.is_allowed(caller, to, partition, amount)
                && amount <= old(self)@.balance_of_by_partition(caller, partition)
                ==> old(self)@.fits_move(caller, to, partition),
        ensures
            final(self).wf(),
            !old(self)@.is_allowed(caller, to, partition, amount)
                ==> refused(*old(self), *final(self), r, Error::NotAllowed),
            old(self)@.is_allowed(caller, to, partition, amount)
                && old(self)@.balance_of_by_partition(caller, partition) < amount
                ==> refused(*old(self), *final(self), r, Error::InsufficientBalance),
            old(self)@.is_allowed(caller, to, partition, amount)
                && amount <= old(self)@.balance_of_by_partition(caller, partition)
                ==> done(final(self)@, r, old(self)@.moved(caller, to, partition, amount), ()),
    {
        if !self.is_allowed(caller, to, partition, amount) {
            return Err(Error::NotAllowed);
        }
        if self.balance_of_by_partition(caller, partition) < amount {
            return Err(Error::InsufficientBalance);
        }
        self.transfer_from_to(caller, to, partition, amount);
        Ok(())
    }

    /// Takes up to `amount` of `partition` from `token_holder`: all of it, or
    /// what the holder has there if that is less. What is taken is credited to
    /// the caller, who must be the owner or a controller of the partition.
    pub fn redeem_from(
        &mut self,
        caller: AccountId,
        token_holder: AccountId,
        partition: Hash256,
        amount: Balance,
    ) -> (r: Result<(), Error>)
        requires
            old(self).wf(),
            old(self)@.administers(caller, partition)
                ==> old(self)@.fits_move(token_holder, caller, partition),
        ensures
            final(self).wf(),
            needs_leave(
                old(self)@.administers(caller, partition),
                *old(self),
                *final(self),
                r,
                old(self)@.redeemed(caller, token_holder, partition, amount),
            ),
    {
        if !self.is_issue_redeem_able(caller, partition) {
            return Err(Error::NotAllowed);
        }
        let held = self.balance_of_by_partition(token_holder, partition);
        let taken = if held < amount { held } else { amount };
        self.transfer_from_to(token_holder, caller, partition, taken);
        Ok(())
    }

    /// Redeems as `redeem_from` does.
    pub fn redeem(
        &mut self,
        caller: AccountId,
        token_holder: AccountId,
        partition: Hash256,
        amount: Balance,
    ) -> (r: Result<(), Error>)
        requires
            old(self).wf(),
            old(self)@.administers(caller, partition)
                ==> old(self)@.fits_move(token_holder, caller, partition),
        ensures
            final(self).wf(),
            needs_leave(
                old(self)@.administers(caller, partition),
                *old(self),
                *final(self),
                r,
                old(self)@.redeemed(caller, token_holder, partition, amount),
            ),
    {
        self.redeem_from(caller, token_holder, partition, amount)
    }
}

impl Erc1400 {
    // ---- grants ------------------------------------------------------------

    /// Makes `controller` a controller of every partition. For the owner and
    /// for controllers of every partition.
    pub fn set_controller(
        &mut self,
        caller: AccountId,
        controller: AccountId,
    ) -> (r: Result<(), Error>)
        requires
            old(self).wf(),
            old(self)@.administers_all(caller)
                ==> fits_one(old(self)@.controllers, controller.key()),
        ensures
            final(self).wf(),
            needs_leave(
                old(self)@.administers_all(caller),
                *old(self),
                *final(self),
                r,
                old(self)@.with_controller(controller, true),
            ),
    {
        if !(self.only_owner(caller) || self.is_controller(caller)) {
            return Err(Error::NotAllowed);
        }
        flags_insert(&mut self.controllers, controller.word(), true);
        proof {
            lemma_same_books(old(self)@, self@);
        }
        Ok(())
    }

    /// Ends `controller`'s being a controller of every partition; the record
    /// stays, switched off. For the owner and for controllers of every partition.
    pub fn renounce_controller(
        &mut self,
        caller: AccountId,
        controller: AccountId,
    ) -> (r: Result<(), Error>)
        requires
            old(self).wf(),
            old(self)@.administers_all(caller)
                ==> fits_one(old(self)@.controllers, controller.key()),
        ensures
            final(self).wf(),
            needs_leave(
                old(self)@.administers_all(caller),
                *old(self),
                *final(self),
                r,
                old(self)@.with_controller(controller, false),
            ),
    {
        if !(self.only_owner(caller) || self.is_controller(caller)) {
            return Err(Error::NotAllowed);
        }
        flags_insert(&mut self.controllers, controller.word(), false);
        proof {
            lemma_same_books(old(self)@, self@);
        }
        Ok(())
    }

    /// Makes `controller` a controller of `partition`, and registers the
    /// partition if it is new. For the owner and for controllers of the partition.
    pub fn set_controller_by_partition(
        &mut self,
        caller: AccountId,
        controller: AccountId,
        partition: Hash256,
    ) -> (r: Result<(), Error>)
        requires
            old(self).wf(),
            old(self)@.administers(caller, partition)
                ==> fits_one(old(self)@.partition_controllers, (controller.key(), partition.key())),
        ensures
            final(self).wf(),
            needs_leave(
                old(self)@.administers(caller, partition),
                *old(self),
                *final(self),
                r,
                old(self)@.with_partition_controller(controller, partition),
            ),
    {
        if !(self.is_issue_redeem_able(caller, partition)) {
            return Err(Error::NotAllowed);
        }
        let key = (controller.word(), partition.word());
        pair_flags_insert(&mut self.controllers_by_partition, key, true);
        self.register(partition);
        proof {
            lemma_register_consistent(old(self)@, self@, partition);
        }
        Ok(())
    }

    /// Ends `controller`'s being a controller of `partition`; the record stays,
    /// switched off. For the owner and for controllers of the partition.
    pub fn renounce_controller_by_partitons(
        &mut self,
        caller: AccountId,
        controller: AccountId,
        partition: Hash256,
    ) -> (r: Result<(), Error>)
        requires
            old(self).wf(),
            old(self)@.administers(caller, partition)
                ==> fits_one(old(self)@.partition_controllers, (controller.key(), partition.key())),
        ensures
            final(self).wf(),
            needs_leave(
                old(self)@.administers(caller, partition),
                *old(self),
                *final(self),
                r,
                old(self)@.without_partition_controller(controller, partition),
            ),
    {
        if !(self.is_issue_redeem_able(caller, partition)) {
            return Err(Error::NotAllowed);
        }
        let key = (controller.word(), partition.word());
        pair_flags_insert(&mut self.controllers_by_partition, key, false);
        proof {
            lemma_same_books(old(self)@, self@);
        }
        Ok(())
    }

    /// Makes `authorized` an operator of every partition. For the owner and for
    /// controllers of every partition.
    pub fn set_authorized_operator(
        &mut self,
        caller: AccountId,
        authorized: AccountId,
    ) -> (r: Result<(), Error>)
        requires
            old(self).wf(),
            old(self)@.administers_all(caller) ==> fits_one(old(self)@.operators, authorized.key()),
        ensures
            final(self).wf(),
            needs_leave(
                old(self)@.administers_all(caller),
                *old(self),
                *final(self),
                r,
                old(self)@.with_operator(authorized, true),
            ),
    {
        if !(self.only_owner(caller) || self.is_controller(caller)) {
            return Err(Error::NotAllowed);
        }
        flags_insert(&mut self.authorized_operator, authorized.word(), true);
        proof {
            lemma_same_books(old(self)@, self@);
        }
        Ok(())
    }

    /// Ends `authorized`'s being an operator of every partition; the record
    /// stays, switched off. For the owner and for controllers of every partition.
    pub fn revoke_authorized_operator(
        &mut self,
        caller: AccountId,
        authorized: AccountId,
    ) -> (r: Result<(), Error>)
        requires
            old(self).wf(),
            old(self)@.administers_all(caller) ==> fits_one(old(self)@.operators, authorized.key()),
        ensures
            final(self).wf(),
            needs_leave(
                old(self)@.administers_all(caller),
                *old(self),
                *final(self),
                r,
                old(self)@.with_operator(authorized, false),
            ),
    {
        if !(self.only_owner(caller) || self.is_controller(caller)) {
            return Err(Error::NotAllowed);
        }
        flags_insert(&mut self.authorized_operator, authorized.word(), false);
        proof {
            lemma_same_books(old(self)@, self@);
        }
        Ok(())
    }

    /// Makes `authorized` an operator of `partition`. For the owner and for
    /// controllers of the partition.
    pub fn set_authorized_operator_by_partition(
        &mut self,
        caller: AccountId,
        authorized: AccountId,
        partition: Hash256,
    ) -> (r: Result<(), Error>)
        requires
            old(self).wf(),
            old(self)@.administers(caller, partition)
                ==> fits_one(old(self)@.partition_operators, (authorized.key(), partition.key())),
        ensures
            final(self).wf(),
            needs_leave(
                old(self)@.administers(caller, partition),
                *old(self),
                *final(self),
                r,
                old(self)@.with_partition_operator(authorized, partition, true),
            ),
    {
        if !(self.is_issue_redeem_able(caller, partition)) {
            return Err(Error::NotAllowed);
        }
        let key = (authorized.word(), partition.word());
        pair_flags_insert(&mut self.authorized_operator_by_partition, key, true);
        proof {
            lemma_same_books(old(self)@, self@);
        }
        Ok(())
    }

    /// Ends `authorized`'s being an operator of `partition`; the record stays,
    /// switched off. For the owner and for controllers of the partition.
    pub fn revoke_authorized_operator_by_partitons(
        &mut self,
        caller: AccountId,
        authorized: AccountId,
        partition: Hash256,
    ) -> (r: Result<(), Error>)
        requires
            old(self).wf(),
            old(self)@.administers(caller, partition)
                ==> fits_one(old(self)@.partition_operators, (authorized.key(), partition.key())),
        ensures
            final(self).wf(),
            needs_leave(
                old(self)@.administers(caller, partition),
                *old(self),
                *final(self),
                r,
                old(self)@.with_partition_operator(authorized, partition, false),
            ),
    {
        if !(self.is_issue_redeem_able(caller, partition)) {
            return Err(Error::NotAllowed);
        }
        let key = (authorized.word(), partition.word());
        pair_flags_insert(&mut self.authorized_operator_by_partition, key, false);
        proof {
            lemma_same_books(old(self)@, self@);
        }
        Ok(())
    }

    /// Lets `user` receive up to `amount` in `partition` from senders without a
    /// role. For the owner and for controllers of the partition.
    pub fn set_allow_amount_by_partition(
        &mut self,
        caller: AccountId,
        user: AccountId,
        partition: Hash256,
        amount: Balance,
    ) -> (r: Result<(), Error>)
        requires
            old(self).wf(),
            old(self)@.administers(caller, partition)
                ==> fits_one(old(self)@.allowances, (user.key(), partition.key())),
        ensures
            final(self).wf(),
            needs_leave(
                old(self)@.administers(caller, partition),
                *old(self),
                *final(self),
                r,
                old(self)@.with_allowance(user, partition, amount),
            ),
    {
        if !(self.is_issue_redeem_able(caller, partition)) {
            return Err(Error::NotAllowed);
        }
        pair_amounts_insert(&mut self.allow_by_partition, (user.word(), partition.word()), amount);
        proof {
            lemma_same_books(old(self)@, self@);
        }
        Ok(())
    }

    /// Attaches a document to `partition`. For the owner and for controllers of
    /// the partition.
    pub fn set_document(
        &mut self,
        caller: AccountId,
        partition: Hash256,
        document_hash: Hash256,
        document_uri: String,
    ) -> (r: Result<(), Error>)
        requires
            old(self).wf(),
        ensures
            final(self).wf(),
            needs_leave(
                old(self)@.administers(caller, partition),
                *old(self),
                *final(self),
                r,
                old(self)@.with_document(
                    (Document { partition: partition, doc_uri: document_uri, doc_hash: document_hash }),
                ),
            ),
    {
        if !self.is_issue_redeem_able(caller, partition) {
            return Err(Error::NotAllowed);
        }
        let doc = Document { partition: partition, doc_uri: document_uri, doc_hash: document_hash };
        self.documents.push(doc);
        proof {
            lemma_same_books(old(self)@, self@);
        }
        Ok(())
    }

    /// Passes the ledger to a new owner. For the owner only: anyone else is
    /// refused with `OnlyOwner`, and the owner stays who it was.
    pub fn transfer_ownership(&mut self, caller: AccountId, to: AccountId) -> (r: Result<(), Error>)
        requires
            old(self).wf(),
        ensures
            final(self).wf(),
            old(self)@.is_owner(caller) ==> done(final(self)@, r, old(self)@.with_owner(to), ()),
            !old(self)@.is_owner(caller) ==> refused(*old(self), *final(self), r, Error::OnlyOwner),
    {
        if !self.only_owner(caller) {
            return Err(Error::OnlyOwner);
        }
        self.owner = to;
        proof {
            lemma_same_books(old(self)@, self@);
        }
        Ok(())
    }
}

} // verus!
