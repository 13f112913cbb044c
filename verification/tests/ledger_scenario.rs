use token_ledger::erc1400::{Erc1400, Error};
use token_ledger::ident::{AccountId, Hash256};

fn account(n: u128) -> AccountId {
    AccountId { hi: 0, lo: n }
}

fn partition(n: u128) -> Hash256 {
    Hash256 { hi: 1, lo: n }
}

#[test]
fn controller_issues_and_holder_needs_allowance() {
    let owner = account(1);
    let controller = account(2);
    let holder = account(3);
    let other = account(4);
    let p1 = partition(1);

    let mut ledger = Erc1400::new(owner, String::from("SEL"), false);
    assert_eq!(ledger.total_supply(), 0);

    assert_eq!(ledger.set_controller_by_partition(owner, controller, p1), Ok(()));
    assert_eq!(ledger.issue_by_partition(controller, p1, 100), Ok(()));
    assert_eq!(ledger.total_supply(), 100);
    assert_eq!(ledger.balance_of_by_partition(controller, p1), 100);

    assert_eq!(ledger.transfer(controller, holder, p1, 40), Ok(()));
    assert_eq!(ledger.balance_of_by_partition(controller, p1), 60);
    assert_eq!(ledger.balance_of_by_partition(holder, p1), 40);

    assert_eq!(ledger.transfer(holder, other, p1, 10), Err(Error::NotAllowed));

    assert_eq!(ledger.set_allow_amount_by_partition(controller, other, p1, 10), Ok(()));
    assert_eq!(ledger.transfer(holder, other, p1, 10), Ok(()));
    assert_eq!(ledger.balance_of_by_partition(other, p1), 10);
}
