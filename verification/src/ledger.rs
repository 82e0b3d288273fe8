//! The ledger: an ordered collection of accounts, looked up by name.
//!
//! Names are not forced to be unique. Where a name occurs more than once,
//! every operation settles on the first account that bears it.

use vstd::prelude::*;
use crate::account::{Account, AccountView, HistoryEntry, Outcome, history_of, history_view};
use crate::clock::today;

verus! {

/// The views of the accounts of a ledger, in ledger order.
pub open spec fn ledger_view(accounts: Seq<Account>) -> Seq<AccountView> {
    accounts.map_values(|a: Account| a@)
}

/// `i` is the position of the first account of the ledger named `name`.
pub open spec fn is_first_named(ledger: Seq<AccountView>, name: Seq<char>, i: int) -> bool {
    &&& 0 <= i < ledger.len()
    &&& ledger[i].name == name
    &&& forall|j: int| 0 <= j < i ==> ledger[j].name != name
}

/// The position of the first account named `name`, if any account is.
pub open spec fn lookup(ledger: Seq<AccountView>, name: Seq<char>) -> Option<int> {
    if exists|i: int| is_first_named(ledger, name, i) {
        Some(choose|i: int| is_first_named(ledger, name, i))
    } else {
        None
    }
}

/// At most one position is the first of its name.
pub proof fn lemma_first_named_unique(ledger: Seq<AccountView>, name: Seq<char>, i: int, j: int)
    requires
        is_first_named(ledger, name, i),
        is_first_named(ledger, name, j),
    ensures
        i == j,
{
}

/// Where some account bears the name, one of them is the first.
pub proof fn lemma_first_named_exists(ledger: Seq<AccountView>, name: Seq<char>, k: int)
    requires
        0 <= k < ledger.len(),
        ledger[k].name == name,
    ensures
        exists|i: int| 0 <= i <= k && is_first_named(ledger, name, i),
    decreases k,
{
    if exists|j: int| 0 <= j < k && ledger[j].name == name {
        let j = choose|j: int| 0 <= j < k && ledger[j].name == name;
        lemma_first_named_exists(ledger, name, j);
    } else {
        assert(is_first_named(ledger, name, k));
    }
}

/// What `lookup` finds: the first account of that name, or nothing where
/// no account bears it.
pub proof fn lemma_lookup(ledger: Seq<AccountView>, name: Seq<char>)
    ensures
        match lookup(ledger, name) {
            Some(i) => is_first_named(ledger, name, i),
            None => forall|j: int| 0 <= j < ledger.len() ==> ledger[j].name != name,
        },
{
    if lookup(ledger, name) is None {
        assert forall|j: int| 0 <= j < ledger.len() implies ledger[j].name != name by {
            if ledger[j].name == name {
                lemma_first_named_exists(ledger, name, j);
            }
        }
    }
}

/// Finds the first account named `name`.
pub fn find_account(accounts: &Vec<Account>, name: &String) -> (found: Option<usize>)
    ensures
        match found {
            Some(i) => lookup(ledger_view(accounts@), name@) == Some(i as int),
            None => lookup(ledger_view(accounts@), name@) is None,
        },
{
    let ghost ledger = ledger_view(accounts@);
    let mut i: usize = 0;
    while i < accounts.len()
        invariant
            i <= accounts.len(),
            ledger == ledger_view(accounts@),
            forall|j: int| 0 <= j < i ==> ledger[j].name != name@,
        decreases accounts.len() - i,
    {
        if *accounts[i].name() == *name {
            proof {
                assert(is_first_named(ledger, name@, i as int));
                lemma_lookup(ledger, name@);
            }
            return Some(i);
        }
        i += 1;
    }
    proof {
        lemma_lookup(ledger, name@);
    }
    None
}

/// The history of the first account named `name`: date, amount and
/// description of each of its records, in log order. There is none where
/// no account bears the name. The ledger is only read.
pub fn display_transaction_history(accounts: &Vec<Account>, name: String) -> (lines: Option<
    Vec<HistoryEntry>,
>)
    ensures
        match lookup(ledger_view(accounts@), name@) {
            Some(i) => lines is Some && history_view(lines->0@) == history_of(
                ledger_view(accounts@)[i].transactions,
            ),
            None => lines is None,
        },
{
    match find_account(accounts, &name) {
        Some(i) => Some(accounts[i].display_history()),
        None => None,
    }
}

/// Updating an account of a ledger updates its view at the same place.
proof fn lemma_ledger_view_update(accounts: Seq<Account>, i: int, account: Account)
    requires
        0 <= i < accounts.len(),
    ensures
        ledger_view(accounts.update(i, account)) == ledger_view(accounts).update(i, account@),
{
    assert(ledger_view(accounts.update(i, account)) =~= ledger_view(accounts).update(
        i,
        account@,
    ));
}

/// The ledger after an account was opened: the new account stands last.
pub open spec fn opened(
    ledger: Seq<AccountView>,
    name: Seq<char>,
    balance: int,
    description: Seq<char>,
    date: Seq<char>,
) -> Seq<AccountView> {
    ledger.push(AccountView::open(name, balance, description, date))
}

/// The ledger after a deposit into the account named `name` was asked for.
pub open spec fn deposited(
    ledger: Seq<AccountView>,
    name: Seq<char>,
    amount: int,
    description: Seq<char>,
    date: Seq<char>,
) -> Seq<AccountView> {
    match lookup(ledger, name) {
        Some(i) => ledger.update(i, ledger[i].deposit(amount, description, date)),
        None => ledger,
    }
}

/// The ledger after a withdrawal from the account named `name` was asked
/// for.
pub open spec fn withdrawn(
    ledger: Seq<AccountView>,
    name: Seq<char>,
    amount: int,
    description: Seq<char>,
    date: Seq<char>,
) -> Seq<AccountView> {
    match lookup(ledger, name) {
        Some(i) => ledger.update(i, ledger[i].withdraw(amount, description, date)),
        None => ledger,
    }
}

/// How a deposit into the account named `name` ends.
pub open spec fn deposit_outcome(ledger: Seq<AccountView>, name: Seq<char>) -> Outcome {
    match lookup(ledger, name) {
        Some(_) => Outcome::Successful,
        None => Outcome::AccountNotFound,
    }
}

/// How a withdrawal of `amount` from the account named `name` ends.
pub open spec fn withdrawal_outcome(ledger: Seq<AccountView>, name: Seq<char>, amount: int) -> Outcome {
    match lookup(ledger, name) {
        Some(i) => if ledger[i].covers(amount) {
            Outcome::Successful
        } else {
            Outcome::InsufficientFunds
        },
        None => Outcome::AccountNotFound,
    }
}

/// Opens an account dated `date` and puts it last in the ledger. Neither
/// the name nor the sign of the balance is checked.
pub fn add_account_on(
    accounts: &mut Vec<Account>,
    name: String,
    balance: i64,
    description: String,
    date: String,
)
    ensures
        ledger_view(final(accounts)@) == opened(
            ledger_view(old(accounts)@),
            name@,
            balance as int,
            description@,
            date@,
        ),
{
    let account = Account::new(name, balance, description, date);
    accounts.push(account);
    assert(ledger_view(accounts@) =~= opened(
        ledger_view(old(accounts)@),
        name@,
        balance as int,
        description@,
        date@,
    ));
}

/// Opens an account dated today and puts it last in the ledger.
pub fn add_account(accounts: &mut Vec<Account>, name: String, balance: i64, description: String)
    ensures
        exists|date: Seq<char>|
            ledger_view(final(accounts)@) == opened(
                ledger_view(old(accounts)@),
                name@,
                balance as int,
                description@,
                date,
            ),
{
    let date = today();
    add_account_on(accounts, name, balance, description, date);
}

/// Deposits `amount` into the first account named `name`, dated `date`.
/// Where no account bears the name, the ledger stays as it was.
pub fn deposit_funds_on(
    accounts: &mut Vec<Account>,
    name: String,
    amount: i64,
    description: String,
    date: String,
) -> (outcome: Outcome)
    ensures
        outcome == deposit_outcome(ledger_view(old(accounts)@), name@),
        ledger_view(final(accounts)@) == deposited(
            ledger_view(old(accounts)@),
            name@,
            amount as int,
            description@,
            date@,
        ),
{
    match find_account(accounts, &name) {
        Some(i) => {
            accounts[i].deposit(amount, description, date);
            proof {
                lemma_ledger_view_update(old(accounts)@, i as int, accounts@[i as int]);
            }
            Outcome::Successful
        },
        None => Outcome::AccountNotFound,
    }
}

/// Deposits `amount` into the first account named `name`, dated today.
pub fn deposit_funds(accounts: &mut Vec<Account>, name: String, amount: i64, description: String) -> (outcome:
    Outcome)
    ensures
        outcome == deposit_outcome(ledger_view(old(accounts)@), name@),
        exists|date: Seq<char>|
            ledger_view(final(accounts)@) == deposited(
                ledger_view(old(accounts)@),
                name@,
                amount as int,
                description@,
                date,
            ),
{
    let date = today();
    deposit_funds_on(accounts, name, amount, description, date)
}

/// Withdraws `amount` from the first account named `name`, dated `date`,
/// where its balance covers the amount. Where it does not, or where no
/// account bears the name, the ledger stays as it was.
pub fn withdraw_funds_on(
    accounts: &mut Vec<Account>,
    name: String,
    amount: i64,
    description: String,
    date: String,
) -> (outcome: Outcome)
    ensures
        outcome == withdrawal_outcome(ledger_view(old(accounts)@), name@, amount as int),
        ledger_view(final(accounts)@) == withdrawn(
            ledger_view(old(accounts)@),
            name@,
            amount as int,
            description@,
            date@,
        ),
{
    match find_account(accounts, &name) {
        Some(i) => {
            let outcome = accounts[i].withdraw(amount, description, date);
            proof {
                lemma_ledger_view_update(old(accounts)@, i as int, accounts@[i as int]);
            }
            outcome
        },
        None => Outcome::AccountNotFound,
    }
}

/// Withdraws `amount` from the first account named `name`, dated today.
pub fn withdraw_funds(accounts: &mut Vec<Account>, name: String, amount: i64, description: String) -> (outcome:
    Outcome)
    ensures
        outcome == withdrawal_outcome(ledger_view(old(accounts)@), name@, amount as int),
        exists|date: Seq<char>|
            ledger_view(final(accounts)@) == withdrawn(
                ledger_view(old(accounts)@),
                name@,
                amount as int,
                description@,
                date,
            ),
{
    let date = today();
    withdraw_funds_on(accounts, name, amount, description, date)
}

/// `(s, d)` are the places of the source and the destination that a
/// transfer from `source` to `destination` settles on: the first account
/// named `source` and the first account named `destination`, as a lookup
/// of either name finds them. A transfer needs two accounts, so one
/// between equal names settles on no pair.
pub open spec fn is_transfer_pair(
    ledger: Seq<AccountView>,
    source: Seq<char>,
    destination: Seq<char>,
    s: int,
    d: int,
) -> bool {
    &&& source != destination
    &&& is_first_named(ledger, source, s)
    &&& is_first_named(ledger, destination, d)
}

/// The places that a transfer from `source` to `destination` settles on,
/// if the names differ and both accounts are found.
pub open spec fn transfer_pair(
    ledger: Seq<AccountView>,
    source: Seq<char>,
    destination: Seq<char>,
) -> Option<(int, int)> {
    if source == destination {
        None
    } else {
        match (lookup(ledger, source), lookup(ledger, destination)) {
            (Some(s), Some(d)) => Some((s, d)),
            _ => None,
        }
    }
}

/// A transfer settles on at most one pair of places.
pub proof fn lemma_transfer_pair_unique(
    ledger: Seq<AccountView>,
    source: Seq<char>,
    destination: Seq<char>,
    s1: int,
    d1: int,
    s2: int,
    d2: int,
)
    requires
        is_transfer_pair(ledger, source, destination, s1, d1),
        is_transfer_pair(ledger, source, destination, s2, d2),
    ensures
        s1 == s2,
        d1 == d2,
{
}

/// What `transfer_pair` finds is the pair that the transfer settles on,
/// and it finds one whenever there is one.
pub proof fn lemma_transfer_pair(ledger: Seq<AccountView>, source: Seq<char>, destination: Seq<char>)
    ensures
        match transfer_pair(ledger, source, destination) {
            Some((s, d)) => is_transfer_pair(ledger, source, destination, s, d),
            None => forall|s: int, d: int| !is_transfer_pair(ledger, source, destination, s, d),
        },
{
    lemma_lookup(ledger, source);
    lemma_lookup(ledger, destination);
}

/// Finds the source and the destination of a transfer in one pass over the
/// ledger, which ends as soon as both are found. Each name settles on the
/// first account that bears it; later accounts of the name are passed over.
pub fn find_transfer_pair(accounts: &Vec<Account>, source_name: &String, destination_name: &String) -> (found:
    Option<(usize, usize)>)
    ensures
        match found {
            Some((s, d)) => transfer_pair(ledger_view(accounts@), source_name@, destination_name@)
                == Some((s as int, d as int)),
            None => transfer_pair(ledger_view(accounts@), source_name@, destination_name@)
                is None,
        },
{
    let ghost ledger = ledger_view(accounts@);
    let ghost source = source_name@;
    let ghost destination = destination_name@;
    let mut source_at: Option<usize> = None;
    let mut destination_at: Option<usize> = None;
    let mut i: usize = 0;
    while i < accounts.len()
        invariant
            i <= accounts.len(),
            ledger == ledger_view(accounts@),
            source == source_name@,
            destination == destination_name@,
            source_at is None || destination_at is None,
            match source_at {
                Some(s) => s < i && is_first_named(ledger, source, s as int),
                None => forall|j: int| 0 <= j < i ==> ledger[j].name != source,
            },
            match destination_at {
                Some(d) => d < i && source != destination && is_first_named(
                    ledger,
                    destination,
                    d as int,
                ),
                None => forall|j: int|
                    0 <= j < i ==> ledger[j].name == source || ledger[j].name != destination,
            },
        decreases accounts.len() - i,
    {
        let name = accounts[i].name();
        if *name == *source_name {
            if source_at.is_none() {
                source_at = Some(i);
            }
        } else if *name == *destination_name {
            if destination_at.is_none() {
                destination_at = Some(i);
            }
        }
        match (source_at, destination_at) {
            (Some(s), Some(d)) => {
                proof {
                    assert(is_transfer_pair(ledger, source, destination, s as int, d as int));
                    lemma_transfer_pair(ledger, source, destination);
                }
                return Some((s, d));
            },
            _ => {},
        }
        i += 1;
    }
    proof {
        lemma_lookup(ledger, source);
        lemma_lookup(ledger, destination);
    }
    None
}

/// The ledger after a transfer of `amount` from `source` to `destination`
/// was asked for: both accounts gain their leg where both are found and
/// the source passes the transfer guard; otherwise nothing changes.
pub open spec fn transferred(
    ledger: Seq<AccountView>,
    source: Seq<char>,
    destination: Seq<char>,
    amount: int,
    date: Seq<char>,
) -> Seq<AccountView> {
    match transfer_pair(ledger, source, destination) {
        Some((s, d)) => if ledger[s].can_send(amount) {
            ledger.update(s, ledger[s].send(amount, destination, date)).update(
                d,
                ledger[d].receive(amount, source, date),
            )
        } else {
            ledger
        },
        None => ledger,
    }
}

/// How a transfer of `amount` from `source` to `destination` ends.
pub open spec fn transfer_outcome(
    ledger: Seq<AccountView>,
    source: Seq<char>,
    destination: Seq<char>,
    amount: int,
) -> Outcome {
    match transfer_pair(ledger, source, destination) {
        Some((s, d)) => if ledger[s].can_send(amount) {
            Outcome::Successful
        } else {
            Outcome::InsufficientFunds
        },
        None => Outcome::AccountNotFound,
    }
}

/// Transfers `amount` between the accounts named `source_name` and
/// `destination_name`, dated `date`. Both accounts change together or not
/// at all: where either is missing, or the source does not pass the
/// transfer guard, the ledger stays as it was.
pub fn transfer_funds_on(
    accounts: &mut Vec<Account>,
    source_name: String,
    destination_name: String,
    amount: i64,
    date: String,
) -> (outcome: Outcome)
    ensures
        outcome == transfer_outcome(
            ledger_view(old(accounts)@),
            source_name@,
            destination_name@,
            amount as int,
        ),
        ledger_view(final(accounts)@) == transferred(
            ledger_view(old(accounts)@),
            source_name@,
            destination_name@,
            amount as int,
            date@,
        ),
{
    match find_transfer_pair(accounts, &source_name, &destination_name) {
        Some((s, d)) => {
            proof {
                lemma_transfer_pair(ledger_view(accounts@), source_name@, destination_name@);
            }
            let mut source = Account::vacant();
            std::mem::swap(&mut source, &mut accounts[s]);
            let outcome = source.transfer_to(&mut accounts[d], amount, date);
            std::mem::swap(&mut source, &mut accounts[s]);
            proof {
                let before = ledger_view(old(accounts)@);
                assert(ledger_view(accounts@) =~= before.update(s as int, accounts@[s as int]@).update(
                    d as int,
                    accounts@[d as int]@,
                ));
                if !before[s as int].can_send(amount as int) {
                    assert(ledger_view(accounts@) =~= before);
                }
            }
            outcome
        },
        None => Outcome::AccountNotFound,
    }
}

/// Transfers `amount` between the accounts named `source_name` and
/// `destination_name`, dated today.
pub fn transfer_funds(
    accounts: &mut Vec<Account>,
    source_name: String,
    destination_name: String,
    amount: i64,
) -> (outcome: Outcome)
    ensures
        outcome == transfer_outcome(
            ledger_view(old(accounts)@),
            source_name@,
            destination_name@,
            amount as int,
        ),
        exists|date: Seq<char>|
            ledger_view(final(accounts)@) == transferred(
                ledger_view(old(accounts)@),
                source_name@,
                destination_name@,
                amount as int,
                date,
            ),
{
    let date = today();
    transfer_funds_on(accounts, source_name, destination_name, amount, date)
}

} // verus!
