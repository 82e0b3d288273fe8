//! A personal finance ledger: named accounts, each with a balance and an
//! append-only transaction log, and the rules for deposits, withdrawals and
//! transfers between them.
//!
//! The ledger is a plain `Vec<Account>` that the caller owns, loads and
//! stores; every operation takes it as an argument.
//!
//! Money is counted in minor units (hundredths): amounts are `i64`, balances
//! `i128`. An account's balance is at all times the net effect of the
//! records in its log, which also keeps the arithmetic within range.
//!
//! Three rules are settled here once and for all:
//! - A withdrawal needs a balance that covers the amount. A transfer is
//!   held to a looser guard and goes through whenever balance and amount add
//!   up to more than zero; see `AccountView::can_send`.
//! - Account names need not be unique. A name settles on the first account
//!   that bears it, in a deposit, a withdrawal, a history and on either side
//!   of a transfer alike; see `ledger::lookup`.
//! - A refused operation is an `Outcome`, never a failure, and leaves the
//!   ledger as it was.
//!
//! Operations that stamp a record with the date come in two forms: one
//! that takes the date (`deposit_funds_on`) and one that reads the clock
//! (`deposit_funds`).

pub mod account;
pub mod clock;
pub mod laws;
pub mod ledger;
pub mod listing;
pub mod transaction;
