use token_ledger::ident::AccountId;
use token_ledger::token_lock::{Error, TokenLock, TransferFailure, MINUTE};

fn account(n: u128) -> AccountId {
    AccountId { hi: 0, lo: n }
}

#[test]
fn the_lock_counts_down_in_milliseconds() {
    let lock = TokenLock::new(account(1), 5, 2, 1_000);
    assert_eq!(MINUTE, 60_000);
    assert_eq!(lock.time_count_down(1_000), 120_000);
    assert_eq!(lock.time_count_down(120_999), 1);
    assert_eq!(lock.time_count_down(121_000), 0);
    assert_eq!(lock.time_count_down(u64::MAX), 0);
}

#[test]
fn the_checks_come_in_order() {
    let (owner, a, b) = (account(1), account(2), account(3));
    let mut lock = TokenLock::new(owner, 5, 1, 0);
    assert_eq!(lock.add_allow_account(a, a, 100), Err(Error::NoPermissionAllow));
    assert_eq!(lock.add_allow_account(owner, a, 4), Err(Error::InsufficientFunds));
    assert!(!lock.allow(a));
    assert_eq!(lock.add_allow_account(owner, a, 5), Ok(()));
    assert!(lock.allow(a));
    assert!(!lock.allow(b));

    assert_eq!(lock.get_token(b, 59_999, 0), Err(Error::IsUnlockPerior));
    assert_eq!(lock.get_token(a, 59_999, 100), Err(Error::IsUnlockPerior));
    assert_eq!(lock.get_token(b, 60_000, 0), Err(Error::NoPermissionAllow));
    assert_eq!(lock.get_token(a, 60_000, 4), Err(Error::InsufficientFunds));
    assert_eq!(lock.get_token(a, 60_000, 5), Ok(5));
    assert_eq!(lock.get_token(a, 70_000, 500), Ok(5));
    assert!(lock.has_room());
}

#[test]
fn a_failed_payment_keeps_its_reason() {
    assert_eq!(TokenLock::transfer_result(Ok(())), Ok(()));
    assert_eq!(
        TokenLock::transfer_result(Err(TransferFailure::BelowSubsistenceThreshold)),
        Err(Error::BelowSubsistenceThreshold)
    );
    assert_eq!(TokenLock::transfer_result(Err(TransferFailure::Other)), Err(Error::TransferFailed));
}

#[test]
fn only_the_owner_hands_the_lock_over() {
    let (owner, a) = (account(1), account(2));
    let mut lock = TokenLock::new(owner, 5, 0, 0);
    lock.transfer_ownership(a, a);
    assert_eq!(lock.add_allow_account(a, a, 5), Err(Error::NoPermissionAllow));
    lock.transfer_ownership(owner, a);
    assert_eq!(lock.add_allow_account(a, a, 5), Ok(()));
    assert_eq!(lock.add_allow_account(owner, a, 5), Err(Error::NoPermissionAllow));
}
