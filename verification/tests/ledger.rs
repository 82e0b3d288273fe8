use finn::account::{Account, HistoryEntry, Outcome};
use finn::ledger::{
    add_account, add_account_on, deposit_funds, deposit_funds_on, display_transaction_history,
    find_account, find_transfer_pair, transfer_funds, transfer_funds_on, withdraw_funds,
    withdraw_funds_on,
};
use finn::listing::{display_accounts, rank_accounts, total_of, BalanceLine};
use finn::transaction::{Transaction, TransactionType};

fn s(text: &str) -> String {
    String::from(text)
}

fn ledger(entries: &[(&str, i64)]) -> Vec<Account> {
    let mut accounts = Vec::new();
    for (name, balance) in entries {
        add_account_on(&mut accounts, s(name), *balance, s("init"), s("2024-03-01"));
    }
    accounts
}

fn balances(accounts: &Vec<Account>) -> Vec<i128> {
    accounts.iter().map(|a| a.balance()).collect()
}

fn log_lengths(accounts: &Vec<Account>) -> Vec<usize> {
    accounts.iter().map(|a| a.transactions().len()).collect()
}

fn today_is_one_of(date: &str, before: &str, after: &str) -> bool {
    date == before || date == after
}

fn utc_date() -> String {
    chrono::Utc::now().format("%Y-%m-%d").to_string()
}

#[test]
fn opening_an_account_today() {
    let mut accounts = Vec::new();
    let before = utc_date();
    add_account(&mut accounts, s("alice"), 100_00, s("init"));
    let after = utc_date();
    assert_eq!(accounts.len(), 1);
    let alice = &accounts[0];
    assert_eq!(alice.name(), "alice");
    assert_eq!(alice.balance(), 100_00);
    assert_eq!(alice.transactions().len(), 1);
    let opening = &alice.transactions()[0];
    assert_eq!(opening.transaction_type, TransactionType::Deposit);
    assert_eq!(opening.amount, 100_00);
    assert_eq!(opening.description, "init");
    assert!(today_is_one_of(&opening.date, &before, &after));
}

#[test]
fn deposit_today() {
    let mut accounts = ledger(&[("alice", 100_00)]);
    let outcome = deposit_funds(&mut accounts, s("alice"), 50_00, s("salary"));
    assert_eq!(outcome, Outcome::Successful);
    assert_eq!(accounts[0].balance(), 150_00);
    assert_eq!(accounts[0].transactions().len(), 2);
}

#[test]
fn withdrawal_beyond_the_balance_today() {
    let mut accounts = ledger(&[("alice", 100_00)]);
    deposit_funds(&mut accounts, s("alice"), 50_00, s("salary"));
    let before = accounts.clone();
    let outcome = withdraw_funds(&mut accounts, s("alice"), 200_00, s("car"));
    assert_eq!(outcome, Outcome::InsufficientFunds);
    assert_eq!(accounts[0].balance(), 150_00);
    assert_eq!(accounts[0].transactions().len(), 2);
    assert_eq!(accounts, before);
}

#[test]
fn transfer_today() {
    let mut accounts = ledger(&[("alice", 150_00), ("bob", 0)]);
    let before = utc_date();
    let outcome = transfer_funds(&mut accounts, s("alice"), s("bob"), 50_00);
    let after = utc_date();
    assert_eq!(outcome, Outcome::Successful);
    assert_eq!(accounts[0].balance(), 100_00);
    assert_eq!(accounts[1].balance(), 50_00);
    let out = accounts[0].transactions().last().unwrap();
    let inc = accounts[1].transactions().last().unwrap();
    assert_eq!(out.description, "Transfer to bob");
    assert_eq!(inc.description, "Transfer from alice");
    assert_eq!(out.transaction_type, TransactionType::Transfer);
    assert_eq!(inc.transaction_type, TransactionType::Transfer);
    assert_eq!(out.amount, 50_00);
    assert_eq!(inc.amount, 50_00);
    assert_eq!(out.date, inc.date);
    assert!(today_is_one_of(&out.date, &before, &after));
    assert_eq!(log_lengths(&accounts), vec![2, 2]);
}

#[test]
fn overview_of_two_accounts() {
    let accounts = ledger(&[("alice", 100_00), ("bob", 50_00)]);
    let summary = display_accounts(&accounts);
    assert_eq!(
        summary.lines,
        vec![
            BalanceLine { name: s("alice"), balance: 100_00 },
            BalanceLine { name: s("bob"), balance: 50_00 },
        ]
    );
    assert_eq!(summary.total, Some(150_00));
}

#[test]
fn today_is_a_calendar_date() {
    let mut accounts = Vec::new();
    add_account(&mut accounts, s("alice"), 1, s("init"));
    let date = accounts[0].transactions()[0].date.clone();
    let bytes = date.as_bytes();
    assert_eq!(bytes.len(), 10);
    for (i, b) in bytes.iter().enumerate() {
        if i == 4 || i == 7 {
            assert_eq!(*b, b'-');
        } else {
            assert!(b.is_ascii_digit());
        }
    }
    let month: u32 = date[5..7].parse().unwrap();
    let day: u32 = date[8..10].parse().unwrap();
    assert!((1..=12).contains(&month));
    assert!((1..=31).contains(&day));
}

#[test]
fn add_account_appends_and_allows_duplicate_names() {
    let mut accounts = ledger(&[("alice", 1_00)]);
    add_account_on(&mut accounts, s("alice"), -2_00, s("again"), s("2024-03-05"));
    assert_eq!(accounts.len(), 2);
    assert_eq!(accounts[0].balance(), 1_00);
    assert_eq!(accounts[1].name(), "alice");
    assert_eq!(accounts[1].balance(), -2_00);
    assert_eq!(
        accounts[1].transactions(),
        &vec![Transaction {
            date: s("2024-03-05"),
            description: s("again"),
            amount: -2_00,
            transaction_type: TransactionType::Deposit,
        }]
    );
}

#[test]
fn find_account_returns_the_first_of_a_name() {
    let accounts = ledger(&[("bob", 1), ("alice", 2), ("alice", 3), ("carol", 4)]);
    assert_eq!(find_account(&accounts, &s("alice")), Some(1));
    assert_eq!(find_account(&accounts, &s("alice")), Some(1));
    assert_eq!(find_account(&accounts, &s("bob")), Some(0));
    assert_eq!(find_account(&accounts, &s("carol")), Some(3));
    assert_eq!(find_account(&accounts, &s("dave")), None);
    assert_eq!(find_account(&accounts, &s("")), None);
    assert_eq!(find_account(&Vec::new(), &s("alice")), None);
}

#[test]
fn deposit_goes_to_the_first_of_duplicate_names() {
    let mut accounts = ledger(&[("alice", 1_00), ("alice", 2_00)]);
    let outcome = deposit_funds_on(&mut accounts, s("alice"), 10_00, s("x"), s("2024-03-02"));
    assert_eq!(outcome, Outcome::Successful);
    assert_eq!(balances(&accounts), vec![11_00, 2_00]);
    assert_eq!(log_lengths(&accounts), vec![2, 1]);
    assert_eq!(
        accounts[0].transactions()[1],
        Transaction {
            date: s("2024-03-02"),
            description: s("x"),
            amount: 10_00,
            transaction_type: TransactionType::Deposit,
        }
    );
}

#[test]
fn deposit_into_a_missing_account_changes_nothing() {
    let mut accounts = ledger(&[("alice", 1_00)]);
    let before = accounts.clone();
    let outcome = deposit_funds_on(&mut accounts, s("bob"), 10_00, s("x"), s("2024-03-02"));
    assert_eq!(outcome, Outcome::AccountNotFound);
    assert_eq!(accounts, before);
    let outcome = deposit_funds(&mut accounts, s("bob"), 10_00, s("x"));
    assert_eq!(outcome, Outcome::AccountNotFound);
    assert_eq!(accounts, before);
}

#[test]
fn withdraw_funds_outcomes() {
    let mut accounts = ledger(&[("alice", 10_00), ("bob", 5_00)]);
    let before = accounts.clone();
    assert_eq!(
        withdraw_funds_on(&mut accounts, s("carol"), 1_00, s("x"), s("2024-03-02")),
        Outcome::AccountNotFound
    );
    assert_eq!(accounts, before);
    assert_eq!(
        withdraw_funds_on(&mut accounts, s("bob"), 5_01, s("x"), s("2024-03-02")),
        Outcome::InsufficientFunds
    );
    assert_eq!(accounts, before);
    assert_eq!(
        withdraw_funds_on(&mut accounts, s("bob"), 5_00, s("all"), s("2024-03-02")),
        Outcome::Successful
    );
    assert_eq!(balances(&accounts), vec![10_00, 0]);
    assert_eq!(
        accounts[1].transactions()[1],
        Transaction {
            date: s("2024-03-02"),
            description: s("all"),
            amount: 5_00,
            transaction_type: TransactionType::Withdrawal,
        }
    );
    assert_eq!(withdraw_funds(&mut accounts, s("alice"), 4_00, s("x")), Outcome::Successful);
    assert_eq!(balances(&accounts), vec![6_00, 0]);
    assert_eq!(withdraw_funds(&mut accounts, s("carol"), 4_00, s("x")), Outcome::AccountNotFound);
}

#[test]
fn transfer_on_a_date_records_exact_legs() {
    let mut accounts = ledger(&[("carol", 7_00), ("bob", 0), ("alice", 150_00)]);
    let outcome = transfer_funds_on(&mut accounts, s("alice"), s("bob"), 50_00, s("2024-03-09"));
    assert_eq!(outcome, Outcome::Successful);
    assert_eq!(balances(&accounts), vec![7_00, 50_00, 100_00]);
    assert_eq!(log_lengths(&accounts), vec![1, 2, 2]);
    assert_eq!(
        accounts[2].transactions()[1],
        Transaction {
            date: s("2024-03-09"),
            description: s("Transfer to bob"),
            amount: 50_00,
            transaction_type: TransactionType::Transfer,
        }
    );
    assert_eq!(
        accounts[1].transactions()[1],
        Transaction {
            date: s("2024-03-09"),
            description: s("Transfer from alice"),
            amount: 50_00,
            transaction_type: TransactionType::Transfer,
        }
    );
    assert_eq!(accounts[0].name(), "carol");
    assert_eq!(accounts[1].name(), "bob");
    assert_eq!(accounts[2].name(), "alice");
}

#[test]
fn rejected_transfer_leaves_the_ledger_identical() {
    let mut accounts = ledger(&[("alice", -10_00), ("bob", 3_00)]);
    let before = accounts.clone();
    let outcome = transfer_funds_on(&mut accounts, s("alice"), s("bob"), 10_00, s("2024-03-09"));
    assert_eq!(outcome, Outcome::InsufficientFunds);
    assert_eq!(accounts, before);
    let outcome = transfer_funds(&mut accounts, s("alice"), s("bob"), 5_00);
    assert_eq!(outcome, Outcome::InsufficientFunds);
    assert_eq!(accounts, before);
}

#[test]
fn transfer_with_a_missing_account_changes_nothing() {
    let mut accounts = ledger(&[("alice", 10_00), ("bob", 3_00)]);
    let before = accounts.clone();
    for (from, to) in [("alice", "carol"), ("carol", "bob"), ("carol", "dave"), ("alice", "alice")]
    {
        let outcome = transfer_funds_on(&mut accounts, s(from), s(to), 1_00, s("2024-03-09"));
        assert_eq!(outcome, Outcome::AccountNotFound);
        assert_eq!(accounts, before);
    }
    assert_eq!(transfer_funds(&mut accounts, s("alice"), s("carol"), 1_00), Outcome::AccountNotFound);
    assert_eq!(accounts, before);
    let mut empty: Vec<Account> = Vec::new();
    assert_eq!(transfer_funds(&mut empty, s("alice"), s("bob"), 1_00), Outcome::AccountNotFound);
    assert!(empty.is_empty());
}

#[test]
fn transfer_pair_with_unique_names_is_the_two_lookups() {
    let accounts = ledger(&[("alice", 1), ("bob", 2), ("carol", 3)]);
    assert_eq!(find_transfer_pair(&accounts, &s("alice"), &s("carol")), Some((0, 2)));
    assert_eq!(find_transfer_pair(&accounts, &s("carol"), &s("alice")), Some((2, 0)));
    assert_eq!(find_transfer_pair(&accounts, &s("bob"), &s("carol")), Some((1, 2)));
    assert_eq!(find_transfer_pair(&accounts, &s("bob"), &s("bob")), None);
    assert_eq!(find_transfer_pair(&accounts, &s("bob"), &s("dave")), None);
    assert_eq!(find_transfer_pair(&accounts, &s("dave"), &s("bob")), None);
    assert_eq!(find_transfer_pair(&Vec::new(), &s("alice"), &s("bob")), None);
}

#[test]
fn transfer_pair_with_duplicate_names_is_the_first_of_each() {
    let accounts = ledger(&[("alice", 1), ("alice", 2), ("bob", 3), ("alice", 4), ("bob", 5)]);
    assert_eq!(find_transfer_pair(&accounts, &s("alice"), &s("bob")), Some((0, 2)));
    assert_eq!(find_transfer_pair(&accounts, &s("bob"), &s("alice")), Some((2, 0)));
    let accounts = ledger(&[("bob", 1), ("bob", 2), ("alice", 3), ("bob", 4), ("alice", 5)]);
    assert_eq!(find_transfer_pair(&accounts, &s("alice"), &s("bob")), Some((2, 0)));
    assert_eq!(find_transfer_pair(&accounts, &s("bob"), &s("alice")), Some((0, 2)));
    let accounts = ledger(&[("alice", 1), ("bob", 2), ("alice", 3), ("bob", 4)]);
    assert_eq!(find_transfer_pair(&accounts, &s("alice"), &s("bob")), Some((0, 1)));
    let accounts = ledger(&[("alice", 1), ("alice", 2), ("alice", 3)]);
    assert_eq!(find_transfer_pair(&accounts, &s("alice"), &s("alice")), None);
    assert_eq!(find_transfer_pair(&accounts, &s("alice"), &s("bob")), None);
    assert_eq!(find_transfer_pair(&accounts, &s("bob"), &s("alice")), None);
}

#[test]
fn transfer_pair_agrees_with_find_account() {
    let accounts =
        ledger(&[("carol", 1), ("bob", 2), ("alice", 3), ("bob", 4), ("alice", 5), ("carol", 6)]);
    for from in ["alice", "bob", "carol"] {
        for to in ["alice", "bob", "carol"] {
            let expected = if from == to {
                None
            } else {
                Some((
                    find_account(&accounts, &s(from)).unwrap(),
                    find_account(&accounts, &s(to)).unwrap(),
                ))
            };
            assert_eq!(find_transfer_pair(&accounts, &s(from), &s(to)), expected);
        }
    }
}

#[test]
fn transfer_from_a_duplicated_name_debits_the_first_account() {
    let mut accounts = ledger(&[("alice", 10_00), ("alice", 500_00), ("bob", 0)]);
    let untouched = accounts[1].clone();
    let outcome = transfer_funds(&mut accounts, s("alice"), s("bob"), 5_00);
    assert_eq!(outcome, Outcome::Successful);
    assert_eq!(balances(&accounts), vec![5_00, 500_00, 5_00]);
    assert_eq!(log_lengths(&accounts), vec![2, 1, 2]);
    assert_eq!(accounts[1], untouched);
}

#[test]
fn transfer_between_duplicates_touches_only_the_first_of_each() {
    let mut accounts = ledger(&[("alice", 10_00), ("alice", 20_00), ("bob", 0), ("bob", 1_00)]);
    let outcome = transfer_funds_on(&mut accounts, s("alice"), s("bob"), 5_00, s("2024-03-09"));
    assert_eq!(outcome, Outcome::Successful);
    assert_eq!(balances(&accounts), vec![5_00, 20_00, 5_00, 1_00]);
    assert_eq!(log_lengths(&accounts), vec![2, 1, 2, 1]);

    let mut accounts = ledger(&[("bob", 0), ("alice", 10_00), ("bob", 1_00), ("alice", 20_00)]);
    let outcome = transfer_funds_on(&mut accounts, s("alice"), s("bob"), 5_00, s("2024-03-09"));
    assert_eq!(outcome, Outcome::Successful);
    assert_eq!(balances(&accounts), vec![5_00, 5_00, 1_00, 20_00]);
    assert_eq!(log_lengths(&accounts), vec![2, 2, 1, 1]);
}

#[test]
fn transfer_guard_is_held_against_the_first_account_of_the_name() {
    let mut accounts = ledger(&[("alice", -10_00), ("alice", 500_00), ("bob", 0)]);
    let before = accounts.clone();
    let outcome = transfer_funds_on(&mut accounts, s("alice"), s("bob"), 5_00, s("2024-03-09"));
    assert_eq!(outcome, Outcome::InsufficientFunds);
    assert_eq!(accounts, before);
}

#[test]
fn history_of_a_named_account() {
    let mut accounts = ledger(&[("alice", 10_00), ("bob", 3_00)]);
    withdraw_funds_on(&mut accounts, s("bob"), 1_00, s("tea"), s("2024-03-02"));
    let before = accounts.clone();
    let lines = display_transaction_history(&accounts, s("bob"));
    assert_eq!(
        lines,
        Some(vec![
            HistoryEntry { date: s("2024-03-01"), amount: 3_00, description: s("init") },
            HistoryEntry { date: s("2024-03-02"), amount: 1_00, description: s("tea") },
        ])
    );
    assert_eq!(display_transaction_history(&accounts, s("carol")), None);
    assert_eq!(accounts, before);
}

#[test]
fn ranking_is_descending_and_keeps_ledger_order_among_equals() {
    let accounts =
        ledger(&[("a", 5_00), ("b", 9_00), ("c", 5_00), ("d", -1_00), ("e", 9_00), ("f", 5_00)]);
    let before = accounts.clone();
    let lines = rank_accounts(&accounts);
    let names: Vec<&str> = lines.iter().map(|l| l.name.as_str()).collect();
    let ranked: Vec<i128> = lines.iter().map(|l| l.balance).collect();
    assert_eq!(names, vec!["b", "e", "a", "c", "f", "d"]);
    assert_eq!(ranked, vec![9_00, 9_00, 5_00, 5_00, 5_00, -1_00]);
    assert_eq!(accounts, before);
}

#[test]
fn overview_of_an_empty_ledger() {
    let summary = display_accounts(&Vec::new());
    assert!(summary.lines.is_empty());
    assert_eq!(summary.total, Some(0));
}

#[test]
fn total_adds_up_balances_of_either_sign() {
    let accounts = ledger(&[("a", 5_00), ("b", -9_00), ("c", 0), ("d", 123_45)]);
    assert_eq!(total_of(&accounts), Some(119_45));
    let accounts = ledger(&[("a", i64::MAX), ("b", i64::MAX), ("c", i64::MIN)]);
    assert_eq!(total_of(&accounts), Some(2 * (i64::MAX as i128) + (i64::MIN as i128)));
}
