use card_ledger::bank::Account;
use card_ledger::bank::Bank;

#[test]
fn account_starts_at_zero() {
    let a = Account::new(7, String::from("Carol"));
    assert_eq!(a.id, 7);
    assert_eq!(a.holder, "Carol");
    assert_eq!(a.balance, 0);
}

#[test]
fn deposit_increases_balance_by_the_amount() {
    let mut a = Account::new(2, String::from("Bob"));
    assert_eq!(a.deposit(2000), 2000);
    assert_eq!(a.deposit(0), 2000);
    assert_eq!(a.deposit(350), 2350);
    assert_eq!(a.balance, 2350);
}

#[test]
fn withdraw_within_balance_subtracts() {
    let mut a = Account::new(2, String::from("Bob"));
    a.deposit(2000);
    assert_eq!(a.withdraw(250), 1750);
    assert_eq!(a.balance, 1750);
}

#[test]
fn withdraw_beyond_balance_is_a_no_op() {
    let mut a = Account::new(3, String::from("Dan"));
    a.deposit(100);
    assert_eq!(a.withdraw(101), 100);
    assert_eq!(a.balance, 100);
    assert_eq!(a.withdraw(100), 0);
    assert_eq!(a.withdraw(1), 0);
}

#[test]
fn alice_scenario() {
    let mut a = Account::new(1, String::from("Alice"));
    assert_eq!(a.deposit(1000), 1000);
    assert_eq!(a.balance, 1000);
    assert_eq!(a.withdraw(400), 600);
    assert_eq!(a.balance, 600);
    assert_eq!(a.withdraw(1000), 600);
    assert_eq!(a.balance, 600);
}

#[test]
fn account_summary_text() {
    let mut a = Account::new(1, String::from("Alice"));
    a.deposit(600);
    assert_eq!(a.summary(), "Account 1: Holder: Alice, Balance: 600");
}

#[test]
fn empty_bank_has_no_balance_and_no_lines() {
    let bank = Bank::new();
    assert_eq!(bank.total_balance(), 0);
    assert_eq!(bank.summary().len(), 0);
}

#[test]
fn bank_aggregates_balances_and_summaries() {
    let mut bank = Bank::new();
    let mut account1 = Account::new(1, String::from("Alice"));
    let mut account2 = Account::new(2, String::from("Bob"));

    account1.deposit(1000);
    account1.withdraw(400);
    account2.deposit(2000);
    account2.withdraw(250);
    assert_eq!(account1.balance, 600);
    assert_eq!(account2.balance, 1750);

    let line1 = account1.summary();
    let line2 = account2.summary();
    bank.add_account(account1);
    bank.add_account(account2);

    assert_eq!(bank.total_balance(), 2350);
    let lines = bank.summary();
    assert_eq!(lines.len(), 2);
    assert_eq!(lines[0], line1);
    assert_eq!(lines[1], line2);
    assert_eq!(lines[0], "Account 1: Holder: Alice, Balance: 600");
    assert_eq!(lines[1], "Account 2: Holder: Bob, Balance: 1750");
}
