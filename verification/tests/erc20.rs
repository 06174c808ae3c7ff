use substrate_lessons::erc20::{AccountId, Approval, Erc20, Error, Transfer};

const ALICE: AccountId = AccountId([1u8; 32]);
const BOB: AccountId = AccountId([2u8; 32]);
const CHARLIE: AccountId = AccountId([3u8; 32]);

#[test]
fn create_contract_should_works() {
    let erc20 = Erc20::new(ALICE, 1000);
    assert_eq!(erc20.total_supply(), 1000);
}

#[test]
fn balance_of_should_works() {
    let erc20 = Erc20::new(ALICE, 1000);
    assert_eq!(erc20.balance_of(ALICE), 1000);
    assert_eq!(erc20.balance_of(BOB), 0);
}

#[test]
fn approve_and_allowance_of_should_works() {
    let mut erc20 = Erc20::new(ALICE, 1000);
    assert_eq!(erc20.approve(ALICE, BOB, 100).map(|_| ()), Ok(()));
    assert_eq!(erc20.allowance_of(ALICE, BOB), 100);
}

#[test]
fn transfer_should_works() {
    let mut erc20 = Erc20::new(ALICE, 1000);

    assert_eq!(erc20.balance_of(BOB), 0);
    assert_eq!(erc20.transfer(ALICE, BOB, 100).map(|_| ()), Ok(()));
    assert_eq!(erc20.balance_of(BOB), 100);
}

#[test]
fn transfer_form_with_not_enough_allowance_should_fail() {
    let mut erc20 = Erc20::new(ALICE, 1000);

    assert_eq!(erc20.allowance_of(ALICE, BOB), 0);
    assert_eq!(erc20.transfer_from(ALICE, ALICE, BOB, 100), Err(Error::NotEnoughAllowance));
}

#[test]
fn transfer_form_with_enough_allowance_should_work() {
    let mut erc20 = Erc20::new(ALICE, 1000);

    assert_eq!(erc20.approve(ALICE, BOB, 100).map(|_| ()), Ok(()));
    assert_eq!(erc20.allowance_of(ALICE, BOB), 100);
    assert_eq!(erc20.balance_of(BOB), 0);
    assert_eq!(erc20.transfer_from(BOB, ALICE, BOB, 50).map(|_| ()), Ok(()));
    assert_eq!(erc20.balance_of(BOB), 50);
}

#[test]
fn a_transfer_reports_what_moved() {
    let mut erc20 = Erc20::new(ALICE, 1000);
    assert_eq!(
        erc20.transfer(ALICE, BOB, 100),
        Ok(Transfer { from: ALICE, to: BOB, value: 100 })
    );
    assert_eq!(erc20.balance_of(ALICE), 900);
    assert_eq!(erc20.balance_of(BOB), 100);
    assert_eq!(erc20.total_supply(), 1000);
}

#[test]
fn an_approval_reports_what_was_allowed() {
    let mut erc20 = Erc20::new(ALICE, 1000);
    assert_eq!(
        erc20.approve(ALICE, BOB, 7),
        Ok(Approval { owner: ALICE, spender: BOB, value: 7 })
    );
    assert_eq!(erc20.allowance_of(ALICE, BOB), 7);
    assert_eq!(erc20.allowance_of(BOB, ALICE), 0);
    assert_eq!(erc20.approve(ALICE, BOB, 3).map(|_| ()), Ok(()));
    assert_eq!(erc20.allowance_of(ALICE, BOB), 3);
}

#[test]
fn a_transfer_of_more_than_the_balance_fails() {
    let mut erc20 = Erc20::new(ALICE, 1000);
    assert_eq!(erc20.transfer(ALICE, BOB, 1001), Err(Error::InSufficientBalance));
    assert_eq!(erc20.transfer(BOB, ALICE, 1), Err(Error::InSufficientBalance));
    assert_eq!(erc20.balance_of(ALICE), 1000);
    assert_eq!(erc20.balance_of(BOB), 0);
}

#[test]
fn a_transfer_to_oneself_keeps_the_balance() {
    let mut erc20 = Erc20::new(ALICE, u128::MAX);
    assert_eq!(erc20.transfer(ALICE, ALICE, u128::MAX).map(|_| ()), Ok(()));
    assert_eq!(erc20.balance_of(ALICE), u128::MAX);
    assert_eq!(erc20.transfer(BOB, BOB, 0).map(|_| ()), Ok(()));
    assert_eq!(erc20.balance_of(BOB), 0);
}

#[test]
fn a_spender_draws_down_the_allowance() {
    let mut erc20 = Erc20::new(ALICE, 1000);
    assert_eq!(erc20.approve(ALICE, BOB, 100).map(|_| ()), Ok(()));
    assert_eq!(
        erc20.transfer_from(BOB, ALICE, CHARLIE, 60),
        Ok(Transfer { from: ALICE, to: CHARLIE, value: 60 })
    );
    assert_eq!(erc20.allowance_of(ALICE, BOB), 40);
    assert_eq!(erc20.balance_of(ALICE), 940);
    assert_eq!(erc20.balance_of(CHARLIE), 60);
    assert_eq!(erc20.balance_of(BOB), 0);
    assert_eq!(erc20.transfer_from(BOB, ALICE, CHARLIE, 41), Err(Error::NotEnoughAllowance));
    assert_eq!(erc20.allowance_of(ALICE, BOB), 40);
}

#[test]
fn an_allowance_beyond_the_balance_cannot_be_spent() {
    let mut erc20 = Erc20::new(ALICE, 10);
    assert_eq!(erc20.approve(ALICE, BOB, 100).map(|_| ()), Ok(()));
    assert_eq!(erc20.transfer_from(BOB, ALICE, BOB, 11), Err(Error::InSufficientBalance));
    assert_eq!(erc20.allowance_of(ALICE, BOB), 100);
    assert_eq!(erc20.balance_of(ALICE), 10);
}

#[test]
fn accounts_that_differ_in_one_byte_are_kept_apart() {
    let mut near = [1u8; 32];
    near[31] = 0;
    let near = AccountId(near);
    let mut erc20 = Erc20::new(ALICE, 5);
    assert_eq!(erc20.balance_of(near), 0);
    assert_eq!(erc20.transfer(ALICE, near, 2).map(|_| ()), Ok(()));
    assert_eq!(erc20.balance_of(near), 2);
    assert_eq!(erc20.balance_of(ALICE), 3);
}
