use token_ledger::ident::AccountId;
use token_ledger::stable_currency::{
    Approval, DecrementSupply, Error, IncrementSupply, StableCurrency, Transfer, TransferOwnerShip,
};

fn alice() -> AccountId {
    AccountId::from_bytes([0x1; 32])
}

#[test]
fn lib_new_works() {
    let (contract, _) = StableCurrency::new(alice(), 777);
    assert_eq!(contract.total_supply(), 777);
}

#[test]
fn lib_balance_works() {
    let (contract, _) = StableCurrency::new(alice(), 100);
    assert_eq!(contract.total_supply(), 100);
    assert_eq!(contract.balance_of(AccountId::from_bytes([0x1; 32])), 100);
    assert_eq!(contract.balance_of(AccountId::from_bytes([0x0; 32])), 0);
}

#[test]
fn stable_currency_transfer_works() {
    let (mut contract, _) = StableCurrency::new(alice(), 100);
    assert_eq!(contract.balance_of(AccountId::from_bytes([0x1; 32])), 100);
    assert_eq!(contract.transfer(alice(), AccountId::from_bytes([0x0; 32]), 10).map(|_| ()), Ok(()));
    assert_eq!(contract.balance_of(AccountId::from_bytes([0x0; 32])), 10);
    assert_ne!(contract.transfer(alice(), AccountId::from_bytes([0x0; 32]), 100).map(|_| ()), Ok(()));
}

#[test]
fn lib_transfer_from_works() {
    let (mut contract, _) = StableCurrency::new(alice(), 100);
    assert_eq!(contract.balance_of(AccountId::from_bytes([0x1; 32])), 100);
    contract.approve(alice(), AccountId::from_bytes([0x1; 32]), 20);
    contract
        .transfer_from(alice(), AccountId::from_bytes([0x1; 32]), AccountId::from_bytes([0x0; 32]), 10)
        .unwrap();
    assert_eq!(contract.balance_of(AccountId::from_bytes([0x0; 32])), 10);
}

#[test]
fn lib_onlyowner_works() {
    let (contract, _) = StableCurrency::new(alice(), 777);
    assert_eq!(contract.only_owner(AccountId::from_bytes([0x1; 32])), Ok(()));
}

#[test]
fn stable_currency_transfer_ownership_works() {
    let (mut contract, _) = StableCurrency::new(alice(), 777);
    assert_eq!(contract.only_owner(AccountId::from_bytes([0x1; 32])), Ok(()));
    contract.transfer_ownership(alice(), AccountId::from_bytes([0x0; 32])).unwrap();
    assert_eq!(contract.only_owner(AccountId::from_bytes([0x0; 32])), Ok(()));
}

#[test]
fn inc_subpply_works() {
    let (mut contract, _) = StableCurrency::new(alice(), 777);
    contract.inc_supply(alice(), 1000).unwrap();
    assert_eq!(contract.total_supply(), 1777);
    assert_eq!(contract.balance_of(AccountId::from_bytes([0x1; 32])), 1777);
}

#[test]
fn dec_subpply_works() {
    let (mut contract, _) = StableCurrency::new(alice(), 777);
    contract.dec_supply(alice(), 10).unwrap();
    assert_eq!(contract.total_supply(), 767);
    assert_eq!(contract.balance_of(AccountId::from_bytes([0x1; 32])), 767);
}

#[test]
fn currency_notices_say_what_happened() {
    let bob = AccountId::from_bytes([0x2; 32]);
    let (mut contract, minted) = StableCurrency::new(alice(), 50);
    assert_eq!(minted, Transfer { from: None, to: Some(alice()), value: 50 });
    assert_eq!(
        contract.transfer(alice(), bob, 20),
        Ok(Transfer { from: Some(alice()), to: Some(bob), value: 20 })
    );
    assert_eq!(contract.approve(bob, alice(), 7), (true, Approval { owner: bob, spender: alice(), value: 7 }));
    assert_eq!(
        contract.transfer_from(alice(), bob, alice(), 7),
        Ok(Transfer { from: Some(bob), to: Some(alice()), value: 7 })
    );
    assert_eq!(contract.allowance(bob, alice()), 0);
    assert_eq!(contract.inc_supply(alice(), 3), Ok(IncrementSupply { from: alice(), value: 3 }));
    assert_eq!(contract.dec_supply(alice(), 40), Ok(DecrementSupply { from: alice(), value: 40 }));
    assert_eq!(contract.total_supply(), 13);
    assert_eq!(contract.balance_of(alice()), 0);
    assert_eq!(contract.balance_of(bob), 13);
    assert_eq!(
        contract.transfer_ownership(alice(), bob),
        Ok(TransferOwnerShip { from: alice(), to: bob })
    );
}

#[test]
fn currency_refusals_change_nothing() {
    let bob = AccountId::from_bytes([0x2; 32]);
    let (mut contract, _) = StableCurrency::new(alice(), 50);
    assert_eq!(contract.transfer(bob, alice(), 1), Err(Error::InsufficientBalance));
    assert_eq!(contract.transfer_from(bob, alice(), bob, 1), Err(Error::InsufficientAllowance));
    contract.approve(alice(), bob, 51);
    assert_eq!(contract.transfer_from(bob, alice(), bob, 51), Err(Error::InsufficientBalance));
    assert_eq!(contract.allowance(alice(), bob), 51);
    assert_eq!(contract.inc_supply(bob, 1), Err(Error::OnlyOwner));
    assert_eq!(contract.dec_supply(bob, 1), Err(Error::OnlyOwner));
    assert_eq!(contract.dec_supply(alice(), 51), Err(Error::InsufficientBalance));
    assert_eq!(contract.transfer_ownership(bob, bob), Err(Error::OnlyOwner));
    assert_eq!(contract.only_owner(bob), Err(Error::OnlyOwner));
    assert_eq!(contract.total_supply(), 50);
    assert_eq!(contract.balance_of(alice()), 50);
    assert_eq!(contract.balance_of(bob), 0);
}

#[test]
fn a_payment_to_oneself_changes_no_balance() {
    let (mut contract, _) = StableCurrency::new(alice(), 50);
    assert_eq!(contract.transfer(alice(), alice(), 50).map(|_| ()), Ok(()));
    assert_eq!(contract.balance_of(alice()), 50);
    assert_eq!(contract.total_supply(), 50);
}
