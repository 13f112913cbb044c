use token_ledger::escrow::{Approval, Error, Escrow, Transfer, TransferOwnerShip};
use token_ledger::ident::AccountId;

fn alice() -> AccountId {
    AccountId::from_bytes([0x1; 32])
}

#[test]
fn new_works() {
    let (contract, _) = Escrow::new(alice(), 777);
    assert_eq!(contract.total_supply(), 777);
}

#[test]
fn balance_works() {
    let (contract, _) = Escrow::new(alice(), 100);
    assert_eq!(contract.total_supply(), 100);
    assert_eq!(contract.balance_of(AccountId::from_bytes([0x1; 32])), 100);
    assert_eq!(contract.balance_of(AccountId::from_bytes([0x0; 32])), 0);
}

#[test]
fn createpayment_works() {
    let (mut contract, _) = Escrow::new(alice(), 100);
    let buyer = AccountId::from_bytes([0x1; 32]);
    let seller = AccountId::from_bytes([0x0; 32]);
    assert_eq!(contract.balance_of(buyer), 100);
    assert_eq!(contract.create_payment(alice(), seller, 30), Ok(()));
    assert_eq!(contract.balance_of(buyer), 70);
    assert_eq!(contract.escrow_balance(buyer, seller), 30);
}

#[test]
fn completepaymet_work() {
    let (mut contract, _) = Escrow::new(alice(), 100);
    let buyer = AccountId::from_bytes([0x1; 32]);
    let seller = AccountId::from_bytes([0x0; 32]);
    assert_eq!(contract.create_payment(alice(), seller, 30), Ok(()));
    assert_eq!(contract.balance_of(seller), 0);
    assert_eq!(contract.complete_payment(alice(), buyer, seller), Ok(()));
    assert_eq!(contract.balance_of(seller), 30);
    assert_eq!(contract.create_payment(alice(), seller, 30), Ok(()));
    assert_eq!(contract.complete_payment(alice(), buyer, seller), Ok(()));
    assert_eq!(contract.balance_of(seller), 60);
}

#[test]
fn refund_work() {
    let (mut contract, _) = Escrow::new(alice(), 100);
    let buyer = AccountId::from_bytes([0x1; 32]);
    let seller = AccountId::from_bytes([0x0; 32]);
    assert_eq!(contract.create_payment(alice(), seller, 30), Ok(()));
    assert_eq!(contract.balance_of(buyer), 70);
    assert_eq!(contract.refund(alice(), buyer, seller), Ok(()));
    assert_eq!(contract.balance_of(buyer), 100);
}

#[test]
fn lib_transfer_works() {
    let (mut contract, _) = Escrow::new(alice(), 100);
    assert_eq!(contract.balance_of(AccountId::from_bytes([0x1; 32])), 100);
    assert_eq!(contract.transfer(alice(), AccountId::from_bytes([0x0; 32]), 10).map(|_| ()), Ok(()));
    assert_eq!(contract.balance_of(AccountId::from_bytes([0x0; 32])), 10);
    assert_ne!(contract.transfer(alice(), AccountId::from_bytes([0x0; 32]), 100).map(|_| ()), Ok(()));
}

#[test]
fn transfer_from_works() {
    let (mut contract, _) = Escrow::new(alice(), 100);
    assert_eq!(contract.balance_of(AccountId::from_bytes([0x1; 32])), 100);
    contract.approve(alice(), AccountId::from_bytes([0x1; 32]), 20);
    contract
        .transfer_from(alice(), AccountId::from_bytes([0x1; 32]), AccountId::from_bytes([0x0; 32]), 10)
        .unwrap();
    assert_eq!(contract.balance_of(AccountId::from_bytes([0x0; 32])), 10);
}

#[test]
fn onlyowner_works() {
    let (contract, _) = Escrow::new(alice(), 777);
    assert_eq!(contract.only_owner(AccountId::from_bytes([0x1; 32])), Ok(()));
}

#[test]
fn lib_transfer_ownership_works() {
    let (mut contract, _) = Escrow::new(alice(), 777);
    assert_eq!(contract.only_owner(AccountId::from_bytes([0x1; 32])), Ok(()));
    contract.transfer_ownership(alice(), AccountId::from_bytes([0x0; 32])).unwrap();
    assert_eq!(contract.only_owner(AccountId::from_bytes([0x0; 32])), Ok(()));
}

#[test]
fn escrow_notices_say_what_happened() {
    let bob = AccountId::from_bytes([0x2; 32]);
    let (mut contract, minted) = Escrow::new(alice(), 50);
    assert_eq!(minted, Transfer { from: None, to: Some(alice()), value: 50 });
    assert_eq!(
        contract.transfer(alice(), bob, 20),
        Ok(Transfer { from: Some(alice()), to: Some(bob), value: 20 })
    );
    assert_eq!(contract.approve(alice(), bob, 5), (true, Approval { owner: alice(), spender: bob, value: 5 }));
    assert_eq!(contract.allowance(alice(), bob), 5);
    assert_eq!(
        contract.transfer_ownership(alice(), bob),
        Ok(TransferOwnerShip { from: alice(), to: bob })
    );
}

#[test]
fn escrow_refusals_change_nothing() {
    let bob = AccountId::from_bytes([0x2; 32]);
    let carol = AccountId::from_bytes([0x3; 32]);
    let (mut contract, _) = Escrow::new(alice(), 50);
    assert_eq!(contract.create_payment(alice(), bob, 51), Err(Error::InsufficientBalance));
    assert_eq!(contract.create_payment(alice(), bob, 50), Ok(()));
    assert_eq!(contract.balance_of(alice()), 0);
    assert_eq!(contract.escrow_balance(alice(), bob), 50);
    assert_eq!(contract.total_supply(), 50);

    // Only the buyer or the owner completes; only the seller or the owner refunds.
    assert_eq!(contract.complete_payment(carol, alice(), bob), Err(Error::NoPermission));
    assert_eq!(contract.complete_payment(bob, alice(), bob), Err(Error::NoPermission));
    assert_eq!(contract.refund(carol, alice(), bob), Err(Error::NoPermission));
    assert_eq!(contract.escrow_balance(alice(), bob), 50);
    assert_eq!(contract.refund(bob, alice(), bob), Ok(()));
    assert_eq!(contract.escrow_balance(alice(), bob), 0);
    assert_eq!(contract.balance_of(alice()), 50);

    assert_eq!(contract.transfer_from(bob, alice(), carol, 1), Err(Error::InsufficientAllowance));
    contract.approve(alice(), bob, 60);
    assert_eq!(contract.transfer_from(bob, alice(), carol, 60), Err(Error::InsufficientBalance));
    assert_eq!(contract.allowance(alice(), bob), 60);
    assert_eq!(contract.transfer_from(bob, alice(), carol, 50).map(|_| ()), Ok(()));
    assert_eq!(contract.allowance(alice(), bob), 10);
    assert_eq!(contract.balance_of(carol), 50);
    assert_eq!(contract.transfer_ownership(bob, bob), Err(Error::OnlyOwner));
    assert_eq!(contract.only_owner(bob), Err(Error::OnlyOwner));
}
