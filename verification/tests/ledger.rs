use token_ledger::erc1400::{Erc1400, Error};
use token_ledger::ident::{AccountId, Hash256};
use token_ledger::model::Action;

fn account(n: u128) -> AccountId {
    AccountId { hi: 0, lo: n }
}

fn part(n: u128) -> Hash256 {
    Hash256 { hi: 1, lo: n }
}

fn deployed() -> Erc1400 {
    Erc1400::new(account(1), String::from("SEL"), false)
}

/// The sum of a holder's balances over every registered partition.
fn sum_by_partition(ledger: &Erc1400, holder: AccountId) -> u128 {
    ledger.list_of_partition().iter().map(|p| ledger.balance_of_by_partition(holder, *p)).sum()
}

fn sum_of_supplies(ledger: &Erc1400) -> u128 {
    ledger.list_of_partition().iter().map(|p| ledger.total_supply_by_partition(*p)).sum()
}

#[test]
fn a_new_ledger_is_empty() {
    let ledger = deployed();
    assert_eq!(ledger.total_supply(), 0);
    assert_eq!(ledger.symbol(), "SEL");
    assert_eq!(ledger.list_of_partition(), Vec::<Hash256>::new());
    assert_eq!(ledger.partion_of_token_holder(account(1)), Vec::<Hash256>::new());
    assert_eq!(ledger.balance_of(account(1)), 0);
    assert_eq!(ledger.total_supply_by_partition(part(1)), 0);
    assert!(ledger.only_owner(account(1)));
    assert!(!ledger.only_owner(account(2)));
    assert!(!ledger.is_controller(account(1)));
    assert!(ledger.has_room());
    assert!(ledger.get_document(part(1)).is_empty());
}

#[test]
fn balances_are_the_sums_of_the_partitions() {
    let (owner, a, b) = (account(1), account(2), account(3));
    let mut ledger = deployed();
    assert_eq!(ledger.issue_by_partition(owner, part(1), 100), Ok(()));
    assert_eq!(ledger.issue_by_partition(owner, part(2), 30), Ok(()));
    assert_eq!(ledger.issue_by_partition(owner, part(1), 5), Ok(()));
    assert_eq!(ledger.transfer(owner, a, part(1), 40), Ok(()));
    assert_eq!(ledger.transfer(owner, a, part(2), 30), Ok(()));
    assert_eq!(ledger.transfer(owner, b, part(1), 1), Ok(()));
    assert_eq!(ledger.redeem_from(owner, a, part(2), 12), Ok(()));

    assert_eq!(ledger.total_supply(), 135);
    assert_eq!(sum_of_supplies(&ledger), 135);
    assert_eq!(ledger.total_supply_by_partition(part(1)), 105);
    assert_eq!(ledger.total_supply_by_partition(part(2)), 30);
    for holder in [owner, a, b, account(9)] {
        assert_eq!(sum_by_partition(&ledger, holder), ledger.balance_of(holder));
    }
    assert_eq!(ledger.balance_of(owner), 64 + 12);
    assert_eq!(ledger.balance_of(a), 40 + 18);
    assert_eq!(ledger.balance_of(b), 1);
    assert_eq!(ledger.balance_of(owner) + ledger.balance_of(a) + ledger.balance_of(b), ledger.total_supply());
}

#[test]
fn issuing_raises_both_supplies_and_touches_nobody_else() {
    let (owner, controller, other) = (account(1), account(2), account(3));
    let mut ledger = deployed();
    assert_eq!(ledger.set_controller_by_partition(owner, controller, part(1)), Ok(()));
    assert_eq!(ledger.issue_by_partition(owner, part(1), 7), Ok(()));
    assert_eq!(ledger.transfer(owner, other, part(1), 3), Ok(()));

    assert_eq!(ledger.issue_by_partition(controller, part(1), 50), Ok(()));
    assert_eq!(ledger.total_supply(), 57);
    assert_eq!(ledger.total_supply_by_partition(part(1)), 57);
    assert_eq!(ledger.balance_of(controller), 50);
    assert_eq!(ledger.balance_of_by_partition(controller, part(1)), 50);
    assert_eq!(ledger.balance_of(owner), 4);
    assert_eq!(ledger.balance_of(other), 3);
    assert_eq!(ledger.balance_of_by_partition(other, part(1)), 3);
    assert_eq!(ledger.partion_of_token_holder(controller), vec![part(1)]);
    assert_eq!(ledger.partion_of_token_holder(other), Vec::<Hash256>::new());
}

#[test]
fn issuing_is_for_the_owner_and_controllers() {
    let (owner, global, local, operator, nobody) = (account(1), account(2), account(3), account(4), account(5));
    let mut ledger = deployed();
    assert_eq!(ledger.set_controller(owner, global), Ok(()));
    assert_eq!(ledger.set_controller_by_partition(owner, local, part(1)), Ok(()));
    assert_eq!(ledger.set_authorized_operator(owner, operator), Ok(()));

    assert_eq!(ledger.issue_by_partition(global, part(2), 1), Ok(()));
    assert_eq!(ledger.issue_by_partition(local, part(1), 1), Ok(()));
    assert_eq!(ledger.issue_by_partition(local, part(2), 1), Err(Error::NotAllowed));
    assert_eq!(ledger.issue_by_partition(operator, part(1), 1), Err(Error::NotAllowed));
    assert_eq!(ledger.issue_by_partition(nobody, part(1), 1), Err(Error::NotAllowed));
    assert_eq!(ledger.total_supply(), 2);
    assert_eq!(ledger.list_of_partition(), vec![part(1), part(2)]);
}

#[test]
fn a_short_balance_refuses_the_transfer_and_changes_nothing() {
    let (owner, to) = (account(1), account(2));
    let mut ledger = deployed();
    assert_eq!(ledger.issue_by_partition(owner, part(1), 10), Ok(()));
    assert_eq!(ledger.issue_by_partition(owner, part(2), 90), Ok(()));

    assert_eq!(ledger.transfer(owner, to, part(1), 11), Err(Error::InsufficientBalance));
    assert_eq!(ledger.balance_of(owner), 100);
    assert_eq!(ledger.balance_of_by_partition(owner, part(1)), 10);
    assert_eq!(ledger.balance_of_by_partition(owner, part(2)), 90);
    assert_eq!(ledger.balance_of(to), 0);
    assert_eq!(ledger.balance_of_by_partition(to, part(1)), 0);
    assert_eq!(ledger.total_supply(), 100);

    // In a partition that does not exist nothing is held.
    assert_eq!(ledger.transfer(owner, to, part(3), 1), Err(Error::InsufficientBalance));
    assert_eq!(ledger.transfer(owner, to, part(3), 0), Ok(()));
    assert_eq!(ledger.list_of_partition(), vec![part(1), part(2)]);

    assert_eq!(ledger.transfer(owner, to, part(1), 10), Ok(()));
    assert_eq!(ledger.balance_of_by_partition(owner, part(1)), 0);
    assert_eq!(ledger.balance_of_by_partition(to, part(1)), 10);
    assert_eq!(ledger.balance_of(owner), 90);
    assert_eq!(ledger.balance_of(to), 10);
}

#[test]
fn leave_is_asked_before_the_balance() {
    let (owner, poor, to) = (account(1), account(2), account(3));
    let mut ledger = deployed();
    assert_eq!(ledger.issue_by_partition(owner, part(1), 10), Ok(()));
    assert_eq!(ledger.transfer(poor, to, part(1), 5), Err(Error::NotAllowed));
    assert_eq!(ledger.set_allow_amount_by_partition(owner, to, part(1), 5), Ok(()));
    assert_eq!(ledger.transfer(poor, to, part(1), 5), Err(Error::InsufficientBalance));
    assert_eq!(ledger.transfer(poor, to, part(1), 6), Err(Error::NotAllowed));
}

#[test]
fn a_transfer_to_oneself_changes_no_balance() {
    let owner = account(1);
    let mut ledger = deployed();
    assert_eq!(ledger.issue_by_partition(owner, part(1), 10), Ok(()));
    assert_eq!(ledger.transfer(owner, owner, part(1), 10), Ok(()));
    assert_eq!(ledger.balance_of(owner), 10);
    assert_eq!(ledger.balance_of_by_partition(owner, part(1)), 10);
    assert_eq!(ledger.total_supply(), 10);
}

#[test]
fn only_the_owner_passes_ownership_on() {
    let (owner, other) = (account(1), account(2));
    let mut ledger = deployed();
    assert_eq!(ledger.transfer_ownership(other, other), Err(Error::OnlyOwner));
    assert!(ledger.only_owner(owner));
    assert!(!ledger.only_owner(other));
    assert_eq!(ledger.transfer_ownership(owner, other), Ok(()));
    assert!(ledger.only_owner(other));
    assert!(!ledger.only_owner(owner));
    assert_eq!(ledger.transfer_ownership(owner, owner), Err(Error::OnlyOwner));
    assert_eq!(ledger.issue_by_partition(owner, part(1), 1), Err(Error::NotAllowed));
}

#[test]
fn a_new_controller_has_leave_at_once() {
    let (owner, controller, stranger, to) = (account(1), account(2), account(3), account(4));
    let mut ledger = deployed();
    assert_eq!(ledger.set_controller_by_partition(stranger, controller, part(1)), Err(Error::NotAllowed));
    assert!(!ledger.is_controller_by_partition(controller, part(1)));
    assert!(!ledger.is_partition(part(1)));
    assert!(!ledger.authorize(controller, part(1), Action::Issue));

    assert_eq!(ledger.set_controller_by_partition(owner, controller, part(1)), Ok(()));
    assert!(ledger.is_partition(part(1)));
    assert_eq!(ledger.list_of_partition(), vec![part(1)]);
    assert!(ledger.authorize(controller, part(1), Action::Issue));
    assert!(ledger.authorize(controller, part(1), Action::Redeem));
    assert!(ledger.authorize(controller, part(1), Action::SetDocument));
    assert!(ledger.authorize(controller, part(1), Action::Administer));
    assert!(ledger.authorize(controller, part(1), Action::Transfer { to, amount: u128::MAX }));
    assert!(!ledger.authorize(controller, part(2), Action::Issue));
    assert!(!ledger.authorize(controller, part(2), Action::Transfer { to, amount: 1 }));
    assert!(ledger.authorize(controller, part(2), Action::Transfer { to, amount: 0 }));

    // A controller of the partition may appoint another; registering twice is harmless.
    assert_eq!(ledger.set_controller_by_partition(controller, stranger, part(1)), Ok(()));
    assert!(ledger.is_issue_redeem_able(stranger, part(1)));
    assert_eq!(ledger.list_of_partition(), vec![part(1)]);
}

#[test]
fn operators_move_tokens_but_administer_nothing() {
    let (owner, global, local, to) = (account(1), account(2), account(3), account(4));
    let mut ledger = deployed();
    assert_eq!(ledger.issue_by_partition(owner, part(1), 9), Ok(()));
    assert_eq!(ledger.transfer(owner, global, part(1), 3), Ok(()));
    assert_eq!(ledger.transfer(owner, local, part(1), 3), Ok(()));
    assert_eq!(ledger.set_authorized_operator(owner, global), Ok(()));
    assert_eq!(ledger.set_authorized_operator_by_partition(owner, local, part(1)), Ok(()));
    assert!(ledger.is_authorized_operator(global));
    assert!(ledger.is_authorized_operator_by_partition(local, part(1)));
    assert!(!ledger.is_authorized_operator_by_partition(local, part(2)));

    assert_eq!(ledger.transfer(global, to, part(1), 1), Ok(()));
    assert_eq!(ledger.transfer(local, to, part(1), 1), Ok(()));
    assert_eq!(ledger.balance_of(to), 2);
    for operator in [global, local] {
        assert_eq!(ledger.issue_by_partition(operator, part(1), 1), Err(Error::NotAllowed));
        assert_eq!(ledger.redeem_from(operator, to, part(1), 1), Err(Error::NotAllowed));
        assert_eq!(ledger.set_allow_amount_by_partition(operator, to, part(1), 1), Err(Error::NotAllowed));
        assert_eq!(ledger.set_authorized_operator(operator, to), Err(Error::NotAllowed));
        assert_eq!(ledger.set_authorized_operator_by_partition(operator, to, part(1)), Err(Error::NotAllowed));
        assert_eq!(ledger.set_controller(operator, to), Err(Error::NotAllowed));
        assert_eq!(
            ledger.set_document(operator, part(1), part(7), String::from("ipfs://a")),
            Err(Error::NotAllowed)
        );
    }

    assert_eq!(ledger.revoke_authorized_operator(owner, global), Ok(()));
    assert_eq!(ledger.revoke_authorized_operator_by_partitons(owner, local, part(1)), Ok(()));
    assert!(!ledger.is_authorized_operator(global));
    assert!(!ledger.is_authorized_operator_by_partition(local, part(1)));
    assert_eq!(ledger.transfer(global, to, part(1), 1), Err(Error::NotAllowed));
    assert_eq!(ledger.transfer(local, to, part(1), 1), Err(Error::NotAllowed));
    assert_eq!(ledger.revoke_authorized_operator(to, global), Err(Error::NotAllowed));
    assert_eq!(ledger.revoke_authorized_operator_by_partitons(to, local, part(1)), Err(Error::NotAllowed));
}

#[test]
fn a_renounced_controller_loses_leave() {
    let (owner, global, local) = (account(1), account(2), account(3));
    let mut ledger = deployed();
    assert_eq!(ledger.set_controller(owner, global), Ok(()));
    assert_eq!(ledger.set_controller_by_partition(global, local, part(1)), Ok(()));
    assert!(ledger.is_controller(global));
    assert!(ledger.is_controller_by_partition(local, part(1)));
    assert_eq!(ledger.renounce_controller(local, global), Err(Error::NotAllowed));
    assert_eq!(ledger.renounce_controller_by_partitons(account(9), local, part(1)), Err(Error::NotAllowed));
    assert_eq!(ledger.renounce_controller_by_partitons(global, local, part(1)), Ok(()));
    assert_eq!(ledger.renounce_controller(owner, global), Ok(()));
    assert!(!ledger.is_controller(global));
    assert!(!ledger.is_controller_by_partition(local, part(1)));
    assert_eq!(ledger.issue_by_partition(global, part(1), 1), Err(Error::NotAllowed));
    assert_eq!(ledger.issue_by_partition(local, part(1), 1), Err(Error::NotAllowed));
    assert_eq!(ledger.list_of_partition(), vec![part(1)]);
}

#[test]
fn an_allowance_bounds_each_transfer_and_is_not_used_up() {
    let (owner, holder, to) = (account(1), account(2), account(3));
    let mut ledger = deployed();
    assert_eq!(ledger.issue_by_partition(owner, part(1), 100), Ok(()));
    assert_eq!(ledger.transfer(owner, holder, part(1), 50), Ok(()));
    assert_eq!(ledger.get_allowed_amout(to, part(1)), 0);
    assert_eq!(ledger.transfer(holder, to, part(1), 1), Err(Error::NotAllowed));
    assert_eq!(ledger.set_allow_amount_by_partition(owner, to, part(1), 10), Ok(()));
    assert_eq!(ledger.get_allowed_amout(to, part(1)), 10);
    assert!(ledger.is_allowed(holder, to, part(1), 10));
    assert!(!ledger.is_allowed(holder, to, part(1), 11));
    assert_eq!(ledger.transfer(holder, to, part(1), 11), Err(Error::NotAllowed));
    assert_eq!(ledger.transfer(holder, to, part(1), 10), Ok(()));
    assert_eq!(ledger.transfer(holder, to, part(1), 10), Ok(()));
    assert_eq!(ledger.get_allowed_amout(to, part(1)), 10);
    assert_eq!(ledger.balance_of_by_partition(to, part(1)), 20);
    assert_eq!(ledger.transfer(holder, to, part(2), 1), Err(Error::NotAllowed));
}

#[test]
fn a_redemption_takes_what_is_there_and_credits_the_caller() {
    let (owner, holder) = (account(1), account(2));
    let mut ledger = deployed();
    assert_eq!(ledger.issue_by_partition(owner, part(1), 100), Ok(()));
    assert_eq!(ledger.transfer(owner, holder, part(1), 30), Ok(()));

    assert_eq!(ledger.redeem_from(holder, owner, part(1), 1), Err(Error::NotAllowed));
    assert_eq!(ledger.redeem_from(owner, holder, part(1), 10), Ok(()));
    assert_eq!(ledger.balance_of_by_partition(holder, part(1)), 20);
    assert_eq!(ledger.balance_of_by_partition(owner, part(1)), 80);

    // More than is there: all of it goes, and no more.
    assert_eq!(ledger.redeem(owner, holder, part(1), 1000), Ok(()));
    assert_eq!(ledger.balance_of_by_partition(holder, part(1)), 0);
    assert_eq!(ledger.balance_of(holder), 0);
    assert_eq!(ledger.balance_of_by_partition(owner, part(1)), 100);
    assert_eq!(ledger.balance_of(owner), 100);
    assert_eq!(ledger.total_supply(), 100);

    assert_eq!(ledger.redeem_from(owner, holder, part(1), 5), Ok(()));
    assert_eq!(ledger.balance_of(owner), 100);
    assert_eq!(ledger.redeem_from(owner, owner, part(1), 5), Ok(()));
    assert_eq!(ledger.balance_of(owner), 100);
}

#[test]
fn a_partition_can_be_issued_into_once_where_that_is_the_rule() {
    let owner = account(1);
    let mut ledger = Erc1400::new(owner, String::from("KPI"), true);
    assert!(ledger.is_issuable(part(1)));
    assert_eq!(ledger.issue_by_partition(owner, part(1), 10), Ok(()));
    assert!(!ledger.is_issuable(part(1)));
    assert_eq!(ledger.issue_by_partition(owner, part(1), 10), Err(Error::NotAllowed));
    assert_eq!(ledger.total_supply(), 10);
    assert!(ledger.is_issuable(part(2)));
    assert_eq!(ledger.issue_by_partition(owner, part(2), 0), Ok(()));
    assert!(!ledger.is_issuable(part(2)));

    let mut open = deployed();
    assert_eq!(open.issue_by_partition(owner, part(1), 10), Ok(()));
    assert!(open.is_issuable(part(1)));
    assert_eq!(open.issue_by_partition(owner, part(1), 10), Ok(()));
    assert_eq!(open.total_supply(), 20);
}

#[test]
fn partitions_are_listed_once_in_the_order_they_came() {
    let (owner, other) = (account(1), account(2));
    let mut ledger = deployed();
    for p in [3, 1, 3, 2, 1] {
        assert_eq!(ledger.issue_by_partition(owner, part(p), 1), Ok(()));
    }
    assert_eq!(ledger.set_controller_by_partition(owner, other, part(5)), Ok(()));
    assert_eq!(ledger.issue_by_partition(other, part(5), 1), Ok(()));
    assert_eq!(ledger.list_of_partition(), vec![part(3), part(1), part(2), part(5)]);
    assert_eq!(ledger.partion_of_token_holder(owner), vec![part(3), part(1), part(2)]);
    assert_eq!(ledger.partion_of_token_holder(other), vec![part(5)]);
    assert!(ledger.is_partition(part(2)));
    assert!(!ledger.is_partition(part(4)));
}

#[test]
fn documents_are_kept_in_order_by_partition() {
    let (owner, controller) = (account(1), account(2));
    let mut ledger = deployed();
    assert_eq!(ledger.set_controller_by_partition(owner, controller, part(1)), Ok(()));
    assert_eq!(ledger.set_document(controller, part(1), part(11), String::from("a")), Ok(()));
    assert_eq!(ledger.set_document(owner, part(2), part(12), String::from("b")), Ok(()));
    assert_eq!(ledger.set_document(controller, part(2), part(13), String::from("c")), Err(Error::NotAllowed));
    assert_eq!(ledger.set_document(owner, part(1), part(14), String::from("d")), Ok(()));

    let first = ledger.get_document(part(1));
    assert_eq!(first.len(), 2);
    assert_eq!((first[0].partition, first[0].doc_hash, first[0].doc_uri.as_str()), (part(1), part(11), "a"));
    assert_eq!((first[1].partition, first[1].doc_hash, first[1].doc_uri.as_str()), (part(1), part(14), "d"));
    let second = ledger.get_document(part(2));
    assert_eq!(second.len(), 1);
    assert_eq!((second[0].doc_hash, second[0].doc_uri.as_str()), (part(12), "b"));
    assert!(ledger.get_document(part(3)).is_empty());
}

#[test]
fn the_largest_amount_can_be_issued_and_moved() {
    let (owner, to) = (account(1), account(2));
    let mut ledger = deployed();
    assert_eq!(ledger.issue_by_partition(owner, part(1), u128::MAX), Ok(()));
    assert_eq!(ledger.total_supply(), u128::MAX);
    assert_eq!(ledger.transfer(owner, to, part(1), u128::MAX), Ok(()));
    assert_eq!(ledger.balance_of(to), u128::MAX);
    assert_eq!(ledger.balance_of(owner), 0);
    assert_eq!(ledger.transfer(to, owner, part(1), 1), Err(Error::NotAllowed));
}
