use token_ledger::admission::{Erc1400, Error};
use token_ledger::ident::AccountId;

fn alice() -> AccountId {
    AccountId::from_bytes([0x1; 32])
}

fn zero() -> AccountId {
    AccountId::from_bytes([0x0; 32])
}

#[test]
fn new_work() {
    let contract = Erc1400::new(alice(), 100);
    assert_eq!(AccountId::from_bytes([0x1; 32]), contract.owner());
}

#[test]
fn add_partition_work() {
    let mut contract = Erc1400::new(alice(), 100);
    contract.add_partition(alice(), AccountId::from_bytes([0x0; 32]));
    assert_eq!(contract.is_partition(AccountId::from_bytes([0x0; 32])), true);
    assert_eq!(contract.is_partition(AccountId::from_bytes([0x1; 32])), true)
}

#[test]
fn revoke_partition_work() {
    let mut contract = Erc1400::new(alice(), 100);
    contract.add_partition(alice(), AccountId::from_bytes([0x0; 32]));
    assert_eq!(contract.is_partition(AccountId::from_bytes([0x0; 32])), true);
    contract.revoke_partition(alice(), AccountId::from_bytes([0x0; 32]));
    assert_eq!(contract.is_partition(AccountId::from_bytes([0x0; 32])), false)
}

#[test]
fn transfer_works() {
    let mut contract = Erc1400::new(alice(), 100);
    contract.add_partition(alice(), AccountId::from_bytes([0x0; 32]));
    assert_eq!(contract.balance_of(AccountId::from_bytes([0x1; 32])), 100);
    assert_eq!(contract.transfer(alice(), AccountId::from_bytes([0x0; 32]), 10), Ok(()));
    assert_eq!(contract.balance_of(AccountId::from_bytes([0x0; 32])), 10);
    assert_ne!(contract.transfer(alice(), AccountId::from_bytes([0x0; 32]), 100), Ok(()));
}

#[test]
fn transfer_ownership_works() {
    let mut contract = Erc1400::new(alice(), 777);
    assert!(contract.transfer_ownership(alice(), AccountId::from_bytes([0x0; 32])).is_ok())
}

#[test]
fn admission_is_asked_of_both_sides() {
    let stranger = AccountId::from_bytes([0x7; 32]);
    let mut contract = Erc1400::new(alice(), 100);
    assert_eq!(contract.transfer(alice(), stranger, 10), Err(Error::NotPermission));
    assert_eq!(contract.transfer(stranger, alice(), 0), Err(Error::NotPermission));
    assert_eq!(contract.balance_of(alice()), 100);
    assert_eq!(contract.balance_of(stranger), 0);
    contract.add_partition(alice(), stranger);
    assert_eq!(contract.transfer(alice(), stranger, 101), Err(Error::InsufficientBalance));
    assert_eq!(contract.transfer(alice(), stranger, 100), Ok(()));
    assert_eq!(contract.balance_of(alice()), 0);
    assert_eq!(contract.balance_of(stranger), 100);
}

#[test]
fn only_the_owner_admits_and_hands_over() {
    let stranger = AccountId::from_bytes([0x7; 32]);
    let mut contract = Erc1400::new(alice(), 100);
    contract.add_partition(stranger, zero());
    assert_eq!(contract.is_partition(zero()), false);
    assert_eq!(contract.transfer_ownership(stranger, stranger), Err(Error::NotPermission));
    assert_eq!(contract.owner(), alice());
    assert_eq!(contract.transfer_ownership(alice(), stranger), Ok(()));
    assert_eq!(contract.owner(), stranger);
    assert_eq!(contract.is_permission(stranger), Ok(()));
    assert_eq!(contract.is_permission(alice()), Err(Error::NotPermission));
}
