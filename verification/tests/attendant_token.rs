use token_ledger::attendant_token::{AttendantToken, Error, CHECK_IN_REWARD, FULL_DAY, FULL_DAY_REWARD};
use token_ledger::ident::{AccountId, Hash256};

fn account(n: u128) -> AccountId {
    AccountId { hi: 0, lo: n }
}

fn ones() -> Hash256 {
    Hash256::from_bytes([1; 32])
}

fn fresh(n: u128) -> Hash256 {
    Hash256 { hi: 9, lo: n }
}

#[test]
fn a_day_of_attendance() {
    let (owner, a) = (account(1), account(2));
    let mut token = AttendantToken::new(owner);
    assert_eq!(token.get_hash(), ones());
    assert_eq!((CHECK_IN_REWARD, FULL_DAY_REWARD, FULL_DAY), (8, 2, 8 * 60 * 60 * 1000));
    assert!(!token.checked_in_status(a));
    assert_eq!(token.get_checked_time(a), 0);

    assert_eq!(token.checked_in(a, ones(), String::from("gate"), 1_000, fresh(1)), Ok(()));
    assert!(token.checked_in_status(a));
    assert_eq!(token.get_token(a), 8);
    assert_eq!(token.get_checked_time(a), 1_000);
    assert_eq!(token.get_hash(), ones());
    let ins = token.checked_in_list(a);
    assert_eq!(ins.len(), 1);
    assert_eq!((ins[0].time, ins[0].location.as_str()), (1_000, "gate"));
    assert!(token.checked_out_list(a).is_empty());

    // Exactly eight hours is not yet a full day.
    assert_eq!(token.checked_out(a, ones(), String::from("door"), 1_000 + FULL_DAY, fresh(2)), Ok(()));
    assert!(!token.checked_in_status(a));
    assert_eq!(token.get_token(a), 8);

    assert_eq!(token.checked_in(a, ones(), String::from("gate"), 50_000_000, fresh(3)), Ok(()));
    assert_eq!(token.checked_out(a, ones(), String::from("yard"), 50_000_000 + FULL_DAY + 1, fresh(4)), Ok(()));
    assert_eq!(token.get_token(a), 8 + 8 + 2);
    let outs = token.checked_out_list(a);
    assert_eq!(outs.len(), 2);
    assert_eq!((outs[0].time, outs[0].location.as_str()), (1_000 + FULL_DAY, "door"));
    assert_eq!((outs[1].time, outs[1].location.as_str()), (50_000_000 + FULL_DAY + 1, "yard"));
    assert_eq!(token.checked_in_list(a).len(), 2);
    assert_eq!(token.get_token(owner), 0);
    assert!(token.has_room());
}

#[test]
fn a_wrong_hash_or_a_wrong_turn_is_refused() {
    let (owner, a) = (account(1), account(2));
    let mut token = AttendantToken::new(owner);
    assert_eq!(token.checked_in(a, fresh(1), String::from("x"), 1, fresh(2)), Err(Error::InvalidHash));
    assert_eq!(token.checked_out(a, fresh(1), String::from("x"), 1, fresh(2)), Err(Error::InvalidHash));
    assert_eq!(token.checked_out(a, ones(), String::from("x"), 1, fresh(2)), Err(Error::CheckOutFail));
    assert_eq!(token.checked_in(a, ones(), String::from("x"), 1, fresh(2)), Ok(()));
    assert_eq!(token.checked_in(a, ones(), String::from("x"), 2, fresh(2)), Err(Error::CheckOutFail));
    assert_eq!(token.get_token(a), 8);
    assert_eq!(token.checked_in_list(a).len(), 1);
}

#[test]
fn the_hash_changes_with_use_once_the_owner_says_so() {
    let (owner, a) = (account(1), account(2));
    let mut token = AttendantToken::new(owner);
    assert_eq!(token.is_changeable(a, true), Err(Error::PermissionDeny));
    assert_eq!(token.checked_in(a, ones(), String::from("x"), 1, fresh(1)), Ok(()));
    assert_eq!(token.get_hash(), ones());
    assert_eq!(token.is_changeable(owner, true), Ok(()));
    assert_eq!(token.checked_out(a, ones(), String::from("x"), 2, fresh(2)), Ok(()));
    assert_eq!(token.get_hash(), fresh(2));
    assert_eq!(token.checked_in(a, ones(), String::from("x"), 3, fresh(3)), Err(Error::InvalidHash));
    assert_eq!(token.checked_in(a, fresh(2), String::from("x"), 3, fresh(3)), Ok(()));
    assert_eq!(token.get_hash(), fresh(3));
    assert_eq!(token.is_changeable(owner, false), Ok(()));
    assert_eq!(token.checked_out(a, fresh(3), String::from("x"), 4, fresh(4)), Ok(()));
    assert_eq!(token.get_hash(), fresh(3));
}

#[test]
fn the_subject_of_a_fresh_hash() {
    assert_eq!(AttendantToken::hash_subject(), vec![0, 1, 2, 3, 4, 5, 6, 7, 8, 9, 12, 34, 56, 78, 90]);
}
