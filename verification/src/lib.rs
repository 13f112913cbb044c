//! Token ledgers for a host that runs contracts on behalf of authenticated
//! callers.
//!
//! The centre is [`erc1400`], a ledger of tokens kept in partitions, with an
//! owner, controllers and operators (of every partition or of one), allowances
//! and documents. [`model`] states what the ledger holds and does as a state
//! machine, and [`laws`] proves what holds of it in every state: above all
//! that the books agree, whether read by holder, by partition or in total.
//!
//! Around it stand smaller contracts over the same stores and the same way of
//! moving a balance ([`purse`]): a currency whose owner sets the supply
//! ([`stable_currency`]), a token with escrowed payments ([`escrow`]), a token
//! among admitted accounts ([`admission`]), a fund ([`distribute`]), a time
//! lock ([`token_lock`]) and an attendance token ([`attendant_token`]).
//!
//! Nothing here talks to the host. A call is given its caller, and where it
//! matters the time and what the contract holds; what it wants sent or paid it
//! returns. The keyed stores are the host library's maps, behind the few
//! functions of [`store`] whose contracts are taken on trust.

pub mod admission;
pub mod attendant_token;
pub mod distribute;
pub mod erc1400;
pub mod escrow;
pub mod ident;
pub mod laws;
pub mod lookup;
pub mod model;
pub mod outcome;
pub mod purse;
pub mod stable_currency;
pub mod store;
pub mod sums;
pub mod token_lock;
