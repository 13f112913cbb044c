//! The partitioned ledger as a mathematical state machine.
//!
//! `LedgerState` is what a ledger holds, `consistent` is what always holds of
//! it, and each transition is a function from one state to the next. The
//! executable ledger is specified against these, and the laws are proved of
//! them.

use vstd::prelude::*;
use crate::ident::{AccountId, Hash256};
use crate::store::{capacity, fits, fits_one, Pair, Word};
use crate::sums::{amount_at, column, flag_at, sum_over, total};

verus! {

/// A record attached to a partition: where a document lives, and its digest.
#[derive(Debug)]
pub struct Document {
    pub partition: Hash256,
    pub doc_uri: String,
    pub doc_hash: Hash256,
}

/// What a caller may ask leave for.
#[derive(Clone, Copy, Debug, PartialEq, Eq, Structural)]
pub enum Action {
    /// Creating tokens in a partition.
    Issue,
    /// Taking tokens back from a holder.
    Redeem,
    /// Attaching a document to a partition.
    SetDocument,
    /// Granting or revoking a role, or setting an allowance.
    Administer,
    /// Moving `amount` tokens of a partition to `to`.
    Transfer { to: AccountId, amount: u128 },
}

/// Everything a ledger holds.
pub struct LedgerState {
    /// The single owner.
    pub owner: AccountId,
    /// The token's symbol.
    pub symbol: Seq<char>,
    /// Whether a partition can be issued into only once.
    pub one_time_issue: bool,
    /// All tokens in existence.
    pub total_supply: u128,
    /// Tokens in existence, by partition.
    pub supply: Map<Word, u128>,
    /// Tokens held, by holder.
    pub balances: Map<Word, u128>,
    /// Tokens held, by holder and partition.
    pub positions: Map<Pair, u128>,
    /// The most a holder may receive in a partition without the sender holding a role.
    pub allowances: Map<Pair, u128>,
    /// Every partition, in the order of registration.
    pub partitions: Seq<Hash256>,
    /// The partitions each holder was issued into, in order.
    pub holdings: Map<Word, Seq<Word>>,
    /// Every document, in the order of attachment.
    pub documents: Seq<Document>,
    /// Controllers of every partition.
    pub controllers: Map<Word, bool>,
    /// Controllers of one partition.
    pub partition_controllers: Map<Pair, bool>,
    /// Operators of every partition.
    pub operators: Map<Word, bool>,
    /// Operators of one partition.
    pub partition_operators: Map<Pair, bool>,
}

impl LedgerState {
    // ---- what is held ------------------------------------------------------

    /// What `holder` holds over all partitions.
    pub open spec fn balance_of(self, holder: AccountId) -> u128 {
        amount_at(self.balances, holder.key())
    }

    /// What `holder` holds in `partition`.
    pub open spec fn balance_of_by_partition(self, holder: AccountId, partition: Hash256) -> u128 {
        amount_at(self.positions, (holder.key(), partition.key()))
    }

    /// The tokens in existence in `partition`.
    pub open spec fn total_supply_by_partition(self, partition: Hash256) -> u128 {
        amount_at(self.supply, partition.key())
    }

    /// What `holder` may receive in `partition` from a sender without a role.
    pub open spec fn allowed_amount(self, holder: AccountId, partition: Hash256) -> u128 {
        amount_at(self.allowances, (holder.key(), partition.key()))
    }

    /// Whether `partition` is registered.
    pub open spec fn is_partition(self, partition: Hash256) -> bool {
        self.partitions.contains(partition)
    }

    /// What each holder holds in `partition`.
    pub open spec fn held_in(self, partition: Hash256) -> Map<Word, u128> {
        column(self.positions, partition.key())
    }

    /// Whether anything was ever issued into `partition`.
    pub open spec fn issued(self, partition: Hash256) -> bool {
        self.supply.contains_key(partition.key())
    }

    /// The keys of the partitions `holder` was issued into.
    pub open spec fn held_keys(self, holder: AccountId) -> Seq<Word> {
        if self.holdings.contains_key(holder.key()) {
            self.holdings[holder.key()]
        } else {
            Seq::empty()
        }
    }

    /// The partitions `holder` was issued into, in order.
    pub open spec fn partitions_of(self, holder: AccountId) -> Seq<Hash256> {
        self.held_keys(holder).map_values(|w: Word| Hash256 { hi: w.0, lo: w.1 })
    }

    /// The documents of `partition`, in the order of attachment.
    pub open spec fn documents_of(self, partition: Hash256) -> Seq<Document> {
        self.documents.filter(|d: Document| d.partition == partition)
    }

    // ---- who may do what ---------------------------------------------------

    /// Whether `actor` is the owner.
    pub open spec fn is_owner(self, actor: AccountId) -> bool {
        actor == self.owner
    }

    /// Whether `actor` is a controller of every partition.
    pub open spec fn is_controller(self, actor: AccountId) -> bool {
        flag_at(self.controllers, actor.key())
    }

    /// Whether `actor` is a controller of `partition`.
    pub open spec fn is_controller_by_partition(
        self,
        actor: AccountId,
        partition: Hash256,
    ) -> bool {
        flag_at(self.partition_controllers, (actor.key(), partition.key()))
    }

    /// Whether `actor` is an operator of every partition.
    pub open spec fn is_authorized_operator(self, actor: AccountId) -> bool {
        flag_at(self.operators, actor.key())
    }

    /// Whether `actor` is an operator of `partition`.
    pub open spec fn is_authorized_operator_by_partition(
        self,
        actor: AccountId,
        partition: Hash256,
    ) -> bool {
        flag_at(self.partition_operators, (actor.key(), partition.key()))
    }

    /// Owner or controller of every partition: what a grant across all
    /// partitions takes.
    pub open spec fn administers_all(self, actor: AccountId) -> bool {
        self.is_owner(actor) || self.is_controller(actor)
    }

    /// Owner or controller, of every partition or of this one: what issuing,
    /// redeeming, attaching a document and every grant within a partition take.
    pub open spec fn administers(self, actor: AccountId, partition: Hash256) -> bool {
        self.is_owner(actor) || self.is_controller(actor) || self.is_controller_by_partition(
            actor,
            partition,
        )
    }

    /// Any of the five roles, in their order of precedence.
    pub open spec fn has_role(self, actor: AccountId, partition: Hash256) -> bool {
        self.is_owner(actor) || self.is_controller(actor) || self.is_controller_by_partition(
            actor,
            partition,
        ) || self.is_authorized_operator(actor) || self.is_authorized_operator_by_partition(
            actor,
            partition,
        )
    }

    /// Whether `actor` may move `amount` of `partition` to `to`: with a role
    /// always, without one only within what `to` is allowed to receive.
    pub open spec fn is_allowed(
        self,
        actor: AccountId,
        to: AccountId,
        partition: Hash256,
        amount: u128,
    ) -> bool {
        self.has_role(actor, partition) || self.allowed_amount(to, partition) >= amount
    }

    /// Whether `partition` can be issued into.
    pub open spec fn is_issuable(self, partition: Hash256) -> bool {
        !self.one_time_issue || !self.issued(partition)
    }

    /// The one place where leave is decided.
    pub open spec fn authorize(self, actor: AccountId, partition: Hash256, action: Action) -> bool {
        match action {
            Action::Transfer { to, amount } => self.is_allowed(actor, to, partition, amount),
            _ => self.administers(actor, partition),
        }
    }

    // ---- what always holds -------------------------------------------------

    /// The term of one partition in the total supply.
    pub open spec fn supply_term(self) -> spec_fn(Hash256) -> nat {
        |p: Hash256| self.total_supply_by_partition(p) as nat
    }

    /// The term of one partition in a holder's balance.
    pub open spec fn position_term(self, holder: AccountId) -> spec_fn(Hash256) -> nat {
        |p: Hash256| self.balance_of_by_partition(holder, p) as nat
    }

    /// Every store holds finitely many entries.
    pub open spec fn finite(self) -> bool {
        &&& self.supply.dom().finite()
        &&& self.balances.dom().finite()
        &&& self.positions.dom().finite()
        &&& self.allowances.dom().finite()
        &&& self.holdings.dom().finite()
        &&& self.controllers.dom().finite()
        &&& self.partition_controllers.dom().finite()
        &&& self.operators.dom().finite()
        &&& self.partition_operators.dom().finite()
    }

    /// The two views of the books agree: the supply is the sum of the
    /// partitions' supplies, each balance is the sum of the holder's balances
    /// by partition, all balances together are the supply, what is held in a
    /// partition is together its supply, and tokens exist only in registered
    /// partitions, none of which is listed twice.
    pub open spec fn consistent(self) -> bool {
        &&& self.finite()
        &&& self.partitions.no_duplicates()
        &&& forall|p: Hash256| #[trigger] self.total_supply_by_partition(p) > 0
            ==> self.partitions.contains(p)
        &&& forall|h: AccountId, p: Hash256| #[trigger]
            self.balance_of_by_partition(h, p) > 0 ==> self.partitions.contains(p)
        &&& self.total_supply == sum_over(self.partitions, self.supply_term())
        &&& forall|h: AccountId| #[trigger]
            self.balance_of(h) == sum_over(self.partitions, self.position_term(h))
        &&& total(self.balances) == self.total_supply
        &&& forall|p: Hash256| (#[trigger] self.held_in(p)).dom().finite()
        &&& forall|p: Hash256| total(#[trigger] self.held_in(p)) == self.total_supply_by_partition(p)
    }

    /// The registry is in order: each holder's list names registered
    /// partitions, and none of them twice.
    pub open spec fn orderly(self) -> bool {
        &&& forall|h: AccountId| (#[trigger] self.held_keys(h)).no_duplicates()
        &&& forall|h: AccountId, p: Hash256| #[trigger]
            self.held_keys(h).contains(p.key()) ==> self.partitions.contains(p)
    }

    /// What always holds of a ledger.
    pub open spec fn sound(self) -> bool {
        self.consistent() && self.orderly()
    }

    // ---- transitions -------------------------------------------------------

    /// The state of a ledger just deployed by `deployer`.
    pub open spec fn deployed(
        deployer: AccountId,
        symbol: Seq<char>,
        one_time_issue: bool,
    ) -> LedgerState {
        LedgerState {
            owner: deployer,
            symbol,
            one_time_issue,
            total_supply: 0,
            supply: Map::empty(),
            balances: Map::empty(),
            positions: Map::empty(),
            allowances: Map::empty(),
            partitions: Seq::empty(),
            holdings: Map::empty(),
            documents: Seq::empty(),
            controllers: Map::empty(),
            partition_controllers: Map::empty(),
            operators: Map::empty(),
            partition_operators: Map::empty(),
        }
    }

    /// `partition` registered, once.
    pub open spec fn registered(self, partition: Hash256) -> Seq<Hash256> {
        if self.partitions.contains(partition) {
            self.partitions
        } else {
            self.partitions.push(partition)
        }
    }

    /// `partition` entered in `holder`'s list, once.
    pub open spec fn holding(self, holder: AccountId, partition: Hash256) -> Map<Word, Seq<Word>> {
        if self.held_keys(holder).contains(partition.key()) {
            self.holdings
        } else {
            self.holdings.insert(holder.key(), self.held_keys(holder).push(partition.key()))
        }
    }

    /// Whether `caller` may issue into `partition` now.
    pub open spec fn may_issue(self, caller: AccountId, partition: Hash256) -> bool {
        self.administers(caller, partition) && self.is_issuable(partition)
    }

    /// After `caller` issued `amount` into `partition`, to themselves.
    pub open spec fn issue(self, caller: AccountId, partition: Hash256, amount: u128) -> LedgerState
        recommends
            self.total_supply + amount <= u128::MAX,
    {
        LedgerState {
            total_supply: (self.total_supply + amount) as u128,
            supply: self.supply.insert(
                partition.key(),
                (self.total_supply_by_partition(partition) + amount) as u128,
            ),
            balances: self.balances.insert(caller.key(), (self.balance_of(caller) + amount) as u128),
            positions: self.positions.insert(
                (caller.key(), partition.key()),
                (self.balance_of_by_partition(caller, partition) + amount) as u128,
            ),
            partitions: self.registered(partition),
            holdings: self.holding(caller, partition),
            ..self
        }
    }

    /// After `amount` of `partition` was taken from `from`.
    pub open spec fn debit(self, from: AccountId, partition: Hash256, amount: u128) -> LedgerState
        recommends
            amount <= self.balance_of_by_partition(from, partition),
    {
        LedgerState {
            balances: self.balances.insert(from.key(), (self.balance_of(from) - amount) as u128),
            positions: self.positions.insert(
                (from.key(), partition.key()),
                (self.balance_of_by_partition(from, partition) - amount) as u128,
            ),
            ..self
        }
    }

    /// After `amount` of `partition` was given to `to`.
    pub open spec fn credit(self, to: AccountId, partition: Hash256, amount: u128) -> LedgerState {
        LedgerState {
            balances: self.balances.insert(to.key(), (self.balance_of(to) + amount) as u128),
            positions: self.positions.insert(
                (to.key(), partition.key()),
                (self.balance_of_by_partition(to, partition) + amount) as u128,
            ),
            ..self
        }
    }

    /// After `amount` of `partition` moved from `from` to `to`.
    pub open spec fn moved(
        self,
        from: AccountId,
        to: AccountId,
        partition: Hash256,
        amount: u128,
    ) -> LedgerState
        recommends
            amount <= self.balance_of_by_partition(from, partition),
    {
        self.debit(from, partition, amount).credit(to, partition, amount)
    }

    /// What a redemption of `amount` takes from `holder`: all of it, or what is there.
    pub open spec fn redeemable(self, holder: AccountId, partition: Hash256, amount: u128) -> u128 {
        if self.balance_of_by_partition(holder, partition) < amount {
            self.balance_of_by_partition(holder, partition)
        } else {
            amount
        }
    }

    /// After `caller` redeemed up to `amount` of `partition` from `holder`: what
    /// was taken is credited to the caller.
    pub open spec fn redeemed(
        self,
        caller: AccountId,
        holder: AccountId,
        partition: Hash256,
        amount: u128,
    ) -> LedgerState {
        self.moved(holder, caller, partition, self.redeemable(holder, partition, amount))
    }

    /// After `actor` was made, or unmade, a controller of every partition.
    pub open spec fn with_controller(self, actor: AccountId, on: bool) -> LedgerState {
        LedgerState { controllers: self.controllers.insert(actor.key(), on), ..self }
    }

    /// After `actor` was made a controller of `partition`, which is thereby registered.
    pub open spec fn with_partition_controller(
        self,
        actor: AccountId,
        partition: Hash256,
    ) -> LedgerState {
        LedgerState {
            partition_controllers: self.partition_controllers.insert((actor.key(), partition.key()), true),
            partitions: self.registered(partition),
            ..self
        }
    }

    /// After `actor` stopped being a controller of `partition`.
    pub open spec fn without_partition_controller(
        self,
        actor: AccountId,
        partition: Hash256,
    ) -> LedgerState {
        LedgerState {
            partition_controllers: self.partition_controllers.insert((actor.key(), partition.key()), false),
            ..self
        }
    }

    /// After `actor` was made, or unmade, an operator of every partition.
    pub open spec fn with_operator(self, actor: AccountId, on: bool) -> LedgerState {
        LedgerState { operators: self.operators.insert(actor.key(), on), ..self }
    }

    /// After `actor` was made, or unmade, an operator of `partition`.
    pub open spec fn with_partition_operator(
        self,
        actor: AccountId,
        partition: Hash256,
        on: bool,
    ) -> LedgerState {
        LedgerState {
            partition_operators: self.partition_operators.insert((actor.key(), partition.key()), on),
            ..self
        }
    }

    /// After `holder` was allowed to receive up to `amount` in `partition`.
    pub open spec fn with_allowance(
        self,
        holder: AccountId,
        partition: Hash256,
        amount: u128,
    ) -> LedgerState {
        LedgerState { allowances: self.allowances.insert((holder.key(), partition.key()), amount), ..self }
    }

    /// After a document was attached.
    pub open spec fn with_document(self, document: Document) -> LedgerState {
        LedgerState { documents: self.documents.push(document), ..self }
    }

    /// After ownership passed to `to`.
    pub open spec fn with_owner(self, to: AccountId) -> LedgerState {
        LedgerState { owner: to, ..self }
    }

    // ---- room --------------------------------------------------------------

    /// Whether the stores can take what an issue by `caller` into `partition` writes.
    pub open spec fn fits_issue(self, caller: AccountId, partition: Hash256) -> bool {
        &&& fits(self.supply, partition.key(), partition.key())
        &&& fits(self.balances, caller.key(), caller.key())
        &&& fits(self.positions, (caller.key(), partition.key()), (caller.key(), partition.key()))
        &&& fits_one(self.holdings, caller.key())
    }

    /// Whether the stores can take what a move from `from` to `to` writes.
    pub open spec fn fits_move(self, from: AccountId, to: AccountId, partition: Hash256) -> bool {
        &&& fits(self.balances, from.key(), to.key())
        &&& fits(self.positions, (from.key(), partition.key()), (to.key(), partition.key()))
    }

    /// Whether every store can take two more entries: enough for any one call.
    pub open spec fn has_room(self) -> bool {
        &&& self.supply.dom().len() + 2 <= capacity()
        &&& self.balances.dom().len() + 2 <= capacity()
        &&& self.positions.dom().len() + 2 <= capacity()
        &&& self.allowances.dom().len() + 2 <= capacity()
        &&& self.holdings.dom().len() + 2 <= capacity()
        &&& self.controllers.dom().len() + 2 <= capacity()
        &&& self.partition_controllers.dom().len() + 2 <= capacity()
        &&& self.operators.dom().len() + 2 <= capacity()
        &&& self.partition_operators.dom().len() + 2 <= capacity()
    }
}

} // verus!
