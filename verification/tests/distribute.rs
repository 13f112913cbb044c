use token_ledger::distribute::{DistributeSel, Error};
use token_ledger::ident::AccountId;

fn account(n: u128) -> AccountId {
    AccountId { hi: 0, lo: n }
}

#[test]
fn the_owner_credits_and_accounts_draw() {
    let (owner, a) = (account(1), account(2));
    let mut fund = DistributeSel::new(owner);
    assert_eq!(fund.balance_of(a), 0);
    assert_eq!(fund.distribute(owner, a, 30), Ok(()));
    assert_eq!(fund.distribute(owner, a, 12), Ok(()));
    assert_eq!(fund.balance_of(a), 42);
    assert_eq!(fund.distribute(a, a, 1), Err(Error::OnlyOwner));
    assert_eq!(fund.balance_of(a), 42);

    assert_eq!(fund.claim(a, 42), Ok(()));
    assert_eq!(fund.claim(a, 43), Err(Error::InsufficientFunds));
    assert_eq!(fund.get_balance(a, 43, true), Err(Error::InsufficientFunds));
    assert_eq!(fund.get_balance(a, 10, false), Err(Error::TransferFailed));
    assert_eq!(fund.balance_of(a), 42);
    assert_eq!(fund.get_balance(a, 10, true), Ok(()));
    assert_eq!(fund.balance_of(a), 32);
    assert_eq!(fund.get_balance(a, 32, true), Ok(()));
    assert_eq!(fund.balance_of(a), 0);
    assert!(fund.has_room());
}

#[test]
fn a_failed_payment_is_a_failed_transfer() {
    assert_eq!(DistributeSel::transfer_balance(true), Ok(()));
    assert_eq!(DistributeSel::transfer_balance(false), Err(Error::TransferFailed));
}

#[test]
fn only_the_owner_hands_the_fund_over() {
    let (owner, a) = (account(1), account(2));
    let mut fund = DistributeSel::new(owner);
    assert_eq!(fund.only_owner(owner), Ok(()));
    assert_eq!(fund.only_owner(a), Err(Error::OnlyOwner));
    assert_eq!(fund.transfer_ownership(a, a), Err(Error::OnlyOwner));
    assert_eq!(fund.transfer_ownership(owner, a), Ok(()));
    assert_eq!(fund.only_owner(a), Ok(()));
    assert_eq!(fund.distribute(owner, a, 1), Err(Error::OnlyOwner));
}
