//! Transaction records and the arithmetic that ties a log to a balance.

use vstd::prelude::*;
use vstd::string::*;

verus! {

/// The direction-carrying tag of a transaction record.
#[derive(Clone, Copy, Debug, PartialEq, Eq, Structural)]
pub enum TransactionType {
    Deposit,
    Withdrawal,
    Transfer,
}

/// One entry of an account's log. Amounts are in minor units (hundredths).
#[derive(Debug, PartialEq, Eq)]
pub struct Transaction {
    pub date: String,
    pub description: String,
    pub amount: i64,
    pub transaction_type: TransactionType,
}

impl Clone for Transaction {
    fn clone(&self) -> (copy: Self)
        ensures
            copy == *self,
    {
        Transaction {
            date: self.date.clone(),
            description: self.description.clone(),
            amount: self.amount,
            transaction_type: self.transaction_type,
        }
    }
}

/// The mathematical value of a [`Transaction`].
pub struct TransactionView {
    pub date: Seq<char>,
    pub description: Seq<char>,
    pub amount: int,
    pub transaction_type: TransactionType,
}

impl View for Transaction {
    type V = TransactionView;

    open spec fn view(&self) -> TransactionView {
        TransactionView {
            date: self.date@,
            description: self.description@,
            amount: self.amount as int,
            transaction_type: self.transaction_type,
        }
    }
}

impl TransactionView {
    /// The record of a deposit.
    pub open spec fn deposit(amount: int, description: Seq<char>, date: Seq<char>) -> Self {
        TransactionView { date, description, amount, transaction_type: TransactionType::Deposit }
    }

    /// The record of a withdrawal.
    pub open spec fn withdrawal(amount: int, description: Seq<char>, date: Seq<char>) -> Self {
        TransactionView { date, description, amount, transaction_type: TransactionType::Withdrawal }
    }

    /// The leg that a transfer leaves in its source account.
    pub open spec fn transfer_to(amount: int, destination: Seq<char>, date: Seq<char>) -> Self {
        TransactionView {
            date,
            description: outgoing_prefix() + destination,
            amount,
            transaction_type: TransactionType::Transfer,
        }
    }

    /// The leg that a transfer leaves in its destination account.
    pub open spec fn transfer_from(amount: int, source: Seq<char>, date: Seq<char>) -> Self {
        TransactionView {
            date,
            description: incoming_prefix() + source,
            amount,
            transaction_type: TransactionType::Transfer,
        }
    }
}

/// The views of the records of a log, in log order.
pub open spec fn log_view(log: Seq<Transaction>) -> Seq<TransactionView> {
    log.map_values(|t: Transaction| t@)
}

/// Whether `prefix` is an initial segment of `text`.
pub open spec fn is_prefix(prefix: Seq<char>, text: Seq<char>) -> bool {
    prefix.len() <= text.len() && text.subrange(0, prefix.len() as int) == prefix
}

/// The description prefix of the leg that a transfer leaves in its source.
pub open spec fn outgoing_prefix() -> Seq<char> {
    "Transfer to "@
}

/// The description prefix of the leg that a transfer leaves in its destination.
pub open spec fn incoming_prefix() -> Seq<char> {
    "Transfer from "@
}

/// What one record contributes to the balance of the account that holds it.
///
/// A deposit adds its amount and a withdrawal takes it away. A transfer leg
/// carries no sign of its own: the leg held by the source is the one whose
/// description begins with "Transfer to ", and it takes the amount away; any
/// other transfer leg adds it.
pub open spec fn effect(t: TransactionView) -> int {
    match t.transaction_type {
        TransactionType::Deposit => t.amount,
        TransactionType::Withdrawal => -t.amount,
        TransactionType::Transfer => if is_prefix(outgoing_prefix(), t.description) {
            -t.amount
        } else {
            t.amount
        },
    }
}

/// A leg left in a transfer's source takes the amount away, and a leg left
/// in its destination adds it, whatever the accounts are called.
pub proof fn lemma_transfer_effects(amount: int, name: Seq<char>, date: Seq<char>)
    ensures
        effect(TransactionView::transfer_to(amount, name, date)) == -amount,
        effect(TransactionView::transfer_from(amount, name, date)) == amount,
{
    reveal_strlit("Transfer to ");
    reveal_strlit("Transfer from ");
    let out = outgoing_prefix() + name;
    assert(out.subrange(0, outgoing_prefix().len() as int) =~= outgoing_prefix());
    let inc = incoming_prefix() + name;
    assert(inc[9] == 'f');
    assert(outgoing_prefix()[9] == 't');
    if is_prefix(outgoing_prefix(), inc) {
        assert(inc.subrange(0, outgoing_prefix().len() as int)[9] == inc[9]);
    }
}

/// The sum of the effects of a log's records.
pub open spec fn net_effect(log: Seq<TransactionView>) -> int
    decreases log.len(),
{
    if log.len() == 0 {
        0
    } else {
        net_effect(log.drop_last()) + effect(log.last())
    }
}

/// Appending a record adds its effect to the net effect of the log.
pub proof fn lemma_net_effect_push(log: Seq<TransactionView>, t: TransactionView)
    ensures
        net_effect(log.push(t)) == net_effect(log) + effect(t),
{
    assert(log.push(t).drop_last() =~= log);
    assert(log.push(t).last() == t);
}

/// The net effect of two logs joined is the sum of their net effects.
pub proof fn lemma_net_effect_concat(first: Seq<TransactionView>, second: Seq<TransactionView>)
    ensures
        net_effect(first + second) == net_effect(first) + net_effect(second),
    decreases second.len(),
{
    if second.len() == 0 {
        assert(first + second =~= first);
    } else {
        lemma_net_effect_concat(first, second.drop_last());
        assert((first + second).drop_last() =~= first + second.drop_last());
        assert((first + second).last() == second.last());
    }
}

/// The net effect of the records of an account's log stays within
/// `len * 2^63` of zero, since each amount is a 64-bit integer.
pub proof fn lemma_net_effect_bound(log: Seq<Transaction>)
    ensures
        -(log.len() * 0x8000_0000_0000_0000) <= net_effect(log_view(log)) <= log.len()
            * 0x8000_0000_0000_0000,
    decreases log.len(),
{
    let views = log_view(log);
    if log.len() > 0 {
        lemma_net_effect_bound(log.drop_last());
        assert(log_view(log.drop_last()) =~= views.drop_last());
        assert(views.last() == log.last()@);
        assert(-0x8000_0000_0000_0000 <= effect(views.last()) <= 0x8000_0000_0000_0000);
        assert((log.len() - 1) * 0x8000_0000_0000_0000 + 0x8000_0000_0000_0000 == log.len()
            * 0x8000_0000_0000_0000) by (nonlinear_arith);
    }
}

/// Whether `text` begins with `prefix`, character by character.
fn starts_with(text: &str, prefix: &str) -> (found: bool)
    ensures
        found == is_prefix(prefix@, text@),
{
    let n: usize = prefix.unicode_len();
    let m: usize = text.unicode_len();
    if m < n {
        return false;
    }
    let mut i: usize = 0;
    while i < n
        invariant
            i <= n,
            n == prefix@.len(),
            m == text@.len(),
            n <= m,
            forall|j: int| 0 <= j < i ==> text@[j] == prefix@[j],
        decreases n - i,
    {
        if text.get_char(i) != prefix.get_char(i) {
            assert(text@.subrange(0, n as int)[i as int] == text@[i as int]);
            return false;
        }
        i += 1;
    }
    assert(text@.subrange(0, n as int) =~= prefix@);
    true
}

impl Transaction {
    /// What this record contributes to the balance of the account that
    /// holds it.
    pub fn effect(&self) -> (change: i128)
        ensures
            change == effect(self@),
    {
        match self.transaction_type {
            TransactionType::Deposit => self.amount as i128,
            TransactionType::Withdrawal => -(self.amount as i128),
            TransactionType::Transfer => if starts_with(self.description.as_str(), "Transfer to ") {
                -(self.amount as i128)
            } else {
                self.amount as i128
            },
        }
    }
}

/// Adds up the effects of the records of a log.
pub fn net_of(log: &Vec<Transaction>) -> (net: i128)
    ensures
        net == net_effect(log_view(log@)),
{
    let mut net: i128 = 0;
    let mut i: usize = 0;
    assert(log_view(log@.subrange(0, 0)) =~= Seq::empty());
    while i < log.len()
        invariant
            i <= log.len(),
            net == net_effect(log_view(log@.subrange(0, i as int))),
        decreases log.len() - i,
    {
        let change: i128 = log[i].effect();
        proof {
            let done = log@.subrange(0, i as int);
            let next = log@.subrange(0, i + 1);
            assert(log_view(next) =~= log_view(done).push(log@[i as int]@));
            lemma_net_effect_push(log_view(done), log@[i as int]@);
            lemma_net_effect_bound(next);
            assert(next.len() * 0x8000_0000_0000_0000 <= 0xffff_ffff_ffff_ffff
                * 0x8000_0000_0000_0000) by (nonlinear_arith)
                requires
                    next.len() <= 0xffff_ffff_ffff_ffff,
            ;
        }
        net = net + change;
        i += 1;
    }
    assert(log@.subrange(0, i as int) =~= log@);
    net
}

} // verus!
