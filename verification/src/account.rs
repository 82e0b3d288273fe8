//! An account: a name, a balance, and the log of what changed the balance.

use vstd::prelude::*;
use vstd::string::*;
use crate::transaction::{
    effect, lemma_net_effect_bound, lemma_net_effect_push, lemma_transfer_effects, log_view,
    net_effect, net_of, Transaction, TransactionType, TransactionView,
};

verus! {

/// How a requested operation ended.
#[derive(Clone, Copy, Debug, PartialEq, Eq, Structural)]
pub enum Outcome {
    /// The operation was applied and recorded.
    Successful,
    /// The balance did not allow the amount; nothing changed.
    InsufficientFunds,
    /// No account bears a name that was asked for; nothing changed.
    AccountNotFound,
}

/// A named account. The balance is kept in minor units (hundredths) and is
/// at all times the net effect of the records in the log.
#[derive(Debug, PartialEq, Eq)]
pub struct Account {
    name: String,
    balance: i128,
    transactions: Vec<Transaction>,
}

/// One line of an account's history: when, how much, and what for.
#[derive(Debug, PartialEq, Eq)]
pub struct HistoryEntry {
    pub date: String,
    pub amount: i64,
    pub description: String,
}

/// The mathematical value of a [`HistoryEntry`].
pub struct HistoryEntryView {
    pub date: Seq<char>,
    pub amount: int,
    pub description: Seq<char>,
}

impl View for HistoryEntry {
    type V = HistoryEntryView;

    open spec fn view(&self) -> HistoryEntryView {
        HistoryEntryView {
            date: self.date@,
            amount: self.amount as int,
            description: self.description@,
        }
    }
}

/// The views of the lines of a history, in order.
pub open spec fn history_view(lines: Seq<HistoryEntry>) -> Seq<HistoryEntryView> {
    lines.map_values(|line: HistoryEntry| line@)
}

/// The history that a log reads as: one line for each record, in log order.
pub open spec fn history_of(log: Seq<TransactionView>) -> Seq<HistoryEntryView> {
    log.map_values(
        |t: TransactionView|
            HistoryEntryView { date: t.date, amount: t.amount, description: t.description },
    )
}

/// The mathematical value of an [`Account`].
pub struct AccountView {
    pub name: Seq<char>,
    pub balance: int,
    pub transactions: Seq<TransactionView>,
}

/// One operation on a single account, as the account itself sees it. A
/// transfer is seen as `Send` by its source and as `Receive` by its
/// destination.
pub enum Operation {
    Deposit { amount: int, description: Seq<char>, date: Seq<char> },
    Withdraw { amount: int, description: Seq<char>, date: Seq<char> },
    Send { amount: int, destination: Seq<char>, date: Seq<char> },
    Receive { amount: int, source: Seq<char>, date: Seq<char> },
}

impl AccountView {
    /// The balance is what the log adds up to.
    pub open spec fn is_balanced(self) -> bool {
        self.balance == net_effect(self.transactions)
    }

    /// The account after `t` has been appended to its log and applied to
    /// its balance.
    pub open spec fn record(self, t: TransactionView) -> AccountView {
        AccountView {
            name: self.name,
            balance: self.balance + effect(t),
            transactions: self.transactions.push(t),
        }
    }

    /// A freshly opened account: one deposit of the opening balance.
    pub open spec fn open(
        name: Seq<char>,
        balance: int,
        description: Seq<char>,
        date: Seq<char>,
    ) -> AccountView {
        AccountView {
            name,
            balance,
            transactions: seq![TransactionView::deposit(balance, description, date)],
        }
    }

    /// The withdrawal guard: the balance covers the amount.
    pub open spec fn covers(self, amount: int) -> bool {
        self.balance >= amount
    }

    /// The transfer guard. It is the permissive one: a transfer is let
    /// through whenever balance and amount add up to more than zero, so it
    /// may leave the source overdrawn. Withdrawals are held to `covers`.
    pub open spec fn can_send(self, amount: int) -> bool {
        self.balance > -amount
    }

    /// The account after a deposit. Any amount is taken as given.
    pub open spec fn deposit(self, amount: int, description: Seq<char>, date: Seq<char>) -> AccountView {
        self.record(TransactionView::deposit(amount, description, date))
    }

    /// The account after a withdrawal was asked for: recorded where the
    /// balance covers the amount, untouched where it does not.
    pub open spec fn withdraw(self, amount: int, description: Seq<char>, date: Seq<char>) -> AccountView {
        if self.covers(amount) {
            self.record(TransactionView::withdrawal(amount, description, date))
        } else {
            self
        }
    }

    /// The source of an accepted transfer to the account named `destination`.
    pub open spec fn send(self, amount: int, destination: Seq<char>, date: Seq<char>) -> AccountView {
        self.record(TransactionView::transfer_to(amount, destination, date))
    }

    /// The destination of an accepted transfer from the account named `source`.
    pub open spec fn receive(self, amount: int, source: Seq<char>, date: Seq<char>) -> AccountView {
        self.record(TransactionView::transfer_from(amount, source, date))
    }

    /// The account after `op` was asked of it. A withdrawal and a sending
    /// that their guard refuses leave it as it was.
    pub open spec fn apply(self, op: Operation) -> AccountView {
        match op {
            Operation::Deposit { amount, description, date } => self.deposit(
                amount,
                description,
                date,
            ),
            Operation::Withdraw { amount, description, date } => self.withdraw(
                amount,
                description,
                date,
            ),
            Operation::Send { amount, destination, date } => if self.can_send(amount) {
                self.send(amount, destination, date)
            } else {
                self
            },
            Operation::Receive { amount, source, date } => self.receive(amount, source, date),
        }
    }

    /// The account after the operations `ops` were asked of it one after
    /// another.
    pub open spec fn apply_all(self, ops: Seq<Operation>) -> AccountView
        decreases ops.len(),
    {
        if ops.len() == 0 {
            self
        } else {
            self.apply_all(ops.drop_last()).apply(ops.last())
        }
    }
}

impl View for Account {
    type V = AccountView;

    closed spec fn view(&self) -> AccountView {
        AccountView {
            name: self.name@,
            balance: self.balance as int,
            transactions: log_view(self.transactions@),
        }
    }
}

impl Clone for Account {
    fn clone(&self) -> (copy: Self)
        ensures
            copy@ == self@,
    {
        proof {
            use_type_invariant(self);
        }
        let mut transactions: Vec<Transaction> = Vec::new();
        let mut i: usize = 0;
        while i < self.transactions.len()
            invariant
                i <= self.transactions.len(),
                transactions@ == self.transactions@.subrange(0, i as int),
            decreases self.transactions.len() - i,
        {
            transactions.push(self.transactions[i].clone());
            assert(transactions@ =~= self.transactions@.subrange(0, i + 1));
            i += 1;
        }
        assert(transactions@ =~= self.transactions@);
        Account { name: self.name.clone(), balance: self.balance, transactions }
    }
}

impl Account {
    #[verifier::type_invariant]
    spec fn balanced(self) -> bool {
        self.balance == net_effect(log_view(self.transactions@))
    }

    /// An account with no name, no money and no history.
    pub(crate) fn vacant() -> (account: Account)
        ensures
            account@ == (AccountView {
                name: Seq::empty(),
                balance: 0,
                transactions: Seq::empty(),
            }),
    {
        let transactions: Vec<Transaction> = Vec::new();
        assert(log_view(transactions@) =~= Seq::empty());
        Account { name: String::new(), balance: 0, transactions }
    }

    /// Appends `record` to the log and adds `change`, its effect, to the
    /// balance.
    fn apply(&mut self, record: Transaction, change: i128)
        requires
            change == effect(record@),
        ensures
            final(self)@ == old(self)@.record(record@),
    {
        let mut taken = Account::vacant();
        std::mem::swap(&mut taken, self);
        proof {
            use_type_invariant(&taken);
        }
        let Account { name, balance, mut transactions } = taken;
        let ghost before = transactions@;
        transactions.push(record);
        proof {
            assert(transactions@.len() == transactions.len());
            lemma_net_effect_bound(before);
            lemma_net_effect_push(log_view(before), record@);
            assert(log_view(transactions@) =~= log_view(before).push(record@));
            assert(before.len() * 0x8000_0000_0000_0000 <= 0xffff_ffff_ffff_fffe
                * 0x8000_0000_0000_0000) by (nonlinear_arith)
                requires
                    before.len() <= 0xffff_ffff_ffff_fffe,
            ;
        }
        *self = Account { name, balance: balance + change, transactions };
    }

    /// Opens an account whose log holds one deposit of the opening balance.
    /// The balance may have either sign.
    pub fn new(name: String, balance: i64, description: String, date: String) -> (account: Account)
        ensures
            account@ == AccountView::open(name@, balance as int, description@, date@),
            account@.is_balanced(),
    {
        let opening = Transaction {
            date,
            description,
            amount: balance,
            transaction_type: TransactionType::Deposit,
        };
        let mut transactions: Vec<Transaction> = Vec::new();
        transactions.push(opening);
        proof {
            lemma_net_effect_push(Seq::empty(), opening@);
            assert(log_view(transactions@) =~= seq![opening@]);
            assert(seq![opening@] =~= Seq::<TransactionView>::empty().push(opening@));
        }
        Account { name, balance: balance as i128, transactions }
    }

    /// The account's name.
    pub fn name(&self) -> (name: &String)
        ensures
            name@ == self@.name,
    {
        &self.name
    }

    /// The balance, in minor units. It is the net effect of the log.
    pub fn balance(&self) -> (balance: i128)
        ensures
            balance == self@.balance,
            self@.is_balanced(),
    {
        proof {
            use_type_invariant(self);
        }
        self.balance
    }

    /// The log, oldest record first.
    pub fn transactions(&self) -> (log: &Vec<Transaction>)
        ensures
            log_view(log@) == self@.transactions,
    {
        &self.transactions
    }

    /// The account's history: date, amount and description of each record,
    /// in log order. The account is only read.
    pub fn display_history(&self) -> (lines: Vec<HistoryEntry>)
        ensures
            history_view(lines@) == history_of(self@.transactions),
    {
        let mut lines: Vec<HistoryEntry> = Vec::new();
        let mut i: usize = 0;
        while i < self.transactions.len()
            invariant
                i <= self.transactions.len(),
                history_view(lines@) == history_of(
                    log_view(self.transactions@.subrange(0, i as int)),
                ),
            decreases self.transactions.len() - i,
        {
            let record = &self.transactions[i];
            let line = HistoryEntry {
                date: record.date.clone(),
                amount: record.amount,
                description: record.description.clone(),
            };
            let ghost shown = lines@;
            lines.push(line);
            proof {
                let done = self.transactions@.subrange(0, i as int);
                let next = self.transactions@.subrange(0, i + 1);
                assert(history_view(shown).len() == shown.len());
                assert(history_of(log_view(done)).len() == done.len());
                assert forall|j: int| 0 <= j < next.len() implies history_view(lines@)[j]
                    == history_of(log_view(next))[j] by {
                    if j < i {
                        assert(history_view(shown)[j] == history_of(log_view(done))[j]);
                        assert(done[j] == next[j]);
                    }
                }
                assert(history_view(lines@) =~= history_of(log_view(next)));
            }
            i += 1;
        }
        assert(self.transactions@.subrange(0, i as int) =~= self.transactions@);
        lines
    }

    /// Takes the account apart into name, balance and log, as a store
    /// would hold them. The parts can be put together again by `restore`.
    pub fn into_parts(self) -> (parts: (String, i128, Vec<Transaction>))
        ensures
            parts.0@ == self@.name,
            parts.1 == self@.balance,
            log_view(parts.2@) == self@.transactions,
            self@.is_balanced(),
    {
        proof {
            use_type_invariant(&self);
        }
        let Account { name, balance, transactions } = self;
        (name, balance, transactions)
    }

    /// Puts an account together from stored parts. The parts make an
    /// account exactly when the balance is the net effect of the log.
    pub fn restore(name: String, balance: i128, transactions: Vec<Transaction>) -> (restored:
        Option<Account>)
        ensures
            restored is Some <==> balance == net_effect(log_view(transactions@)),
            restored is Some ==> restored->0@ == (AccountView {
                name: name@,
                balance: balance as int,
                transactions: log_view(transactions@),
            }),
    {
        if net_of(&transactions) == balance {
            Some(Account { name, balance, transactions })
        } else {
            None
        }
    }

    /// Records a deposit: the balance grows by `amount`, whatever its sign,
    /// and the log gains a deposit record.
    pub fn deposit(&mut self, amount: i64, description: String, date: String)
        ensures
            final(self)@ == old(self)@.deposit(amount as int, description@, date@),
            final(self)@.is_balanced(),
    {
        let record = Transaction {
            date,
            description,
            amount,
            transaction_type: TransactionType::Deposit,
        };
        self.apply(record, amount as i128);
        proof {
            use_type_invariant(&*self);
        }
    }

    /// Records a withdrawal where the balance covers `amount`; where it does
    /// not, leaves the account as it was and reports insufficient funds.
    pub fn withdraw(&mut self, amount: i64, description: String, date: String) -> (outcome: Outcome)
        ensures
            final(self)@ == old(self)@.withdraw(amount as int, description@, date@),
            final(self)@.is_balanced(),
            outcome == if old(self)@.covers(amount as int) {
                Outcome::Successful
            } else {
                Outcome::InsufficientFunds
            },
    {
        proof {
            use_type_invariant(&*self);
        }
        if self.balance >= amount as i128 {
            let record = Transaction {
                date,
                description,
                amount,
                transaction_type: TransactionType::Withdrawal,
            };
            self.apply(record, -(amount as i128));
            proof {
                use_type_invariant(&*self);
            }
            Outcome::Successful
        } else {
            Outcome::InsufficientFunds
        }
    }

    /// Moves `amount` from this account to `other` where the transfer guard
    /// lets it through: each account gains one transfer record that names
    /// the other, both with the same date. Where the guard refuses, both
    /// accounts stay as they were.
    pub fn transfer_to(&mut self, other: &mut Account, amount: i64, date: String) -> (outcome:
        Outcome)
        ensures
            old(self)@.can_send(amount as int) ==> {
                &&& outcome == Outcome::Successful
                &&& final(self)@ == old(self)@.send(amount as int, old(other)@.name, date@)
                &&& final(other)@ == old(other)@.receive(amount as int, old(self)@.name, date@)
            },
            !old(self)@.can_send(amount as int) ==> {
                &&& outcome == Outcome::InsufficientFunds
                &&& final(self)@ == old(self)@
                &&& final(other)@ == old(other)@
            },
            final(self)@.is_balanced(),
            final(other)@.is_balanced(),
    {
        proof {
            use_type_invariant(&*self);
            use_type_invariant(&*other);
        }
        if self.balance > -(amount as i128) {
            let outgoing = Transaction {
                date: date.clone(),
                description: String::from_str("Transfer to ").concat(other.name.as_str()),
                amount,
                transaction_type: TransactionType::Transfer,
            };
            let incoming = Transaction {
                date,
                description: String::from_str("Transfer from ").concat(self.name.as_str()),
                amount,
                transaction_type: TransactionType::Transfer,
            };
            proof {
                lemma_transfer_effects(amount as int, other@.name, date@);
                lemma_transfer_effects(amount as int, self@.name, date@);
            }
            self.apply(outgoing, -(amount as i128));
            other.apply(incoming, amount as i128);
            proof {
                use_type_invariant(&*self);
                use_type_invariant(&*other);
            }
            Outcome::Successful
        } else {
            Outcome::InsufficientFunds
        }
    }
}

} // verus!
