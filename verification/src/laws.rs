//! What holds of the ledger whatever is asked of it.

use vstd::prelude::*;
use crate::account::{AccountView, Operation, Outcome};
use crate::ledger::{
    is_first_named, is_transfer_pair, lemma_lookup, lemma_transfer_pair, lookup,
    transfer_outcome, transfer_pair, transferred,
};
use crate::listing::{balance_lines, is_descending, is_ranking_of, with_balance, BalanceLineView};
use crate::transaction::{
    effect, lemma_net_effect_concat, lemma_transfer_effects, net_effect, TransactionType,
    TransactionView,
};

verus! {

/// Balance consistency under one operation: whatever is asked of an
/// account, its log only grows at the end, and its balance moves by the
/// net effect of the records that the log has gained.
pub proof fn lemma_apply_follows_log(start: AccountView, op: Operation)
    ensures
        start.apply(op).name == start.name,
        start.transactions.len() <= start.apply(op).transactions.len(),
        start.apply(op).transactions.subrange(0, start.transactions.len() as int)
            == start.transactions,
        start.apply(op).balance == start.balance + net_effect(
            start.apply(op).transactions.skip(start.transactions.len() as int),
        ),
{
    let end = start.apply(op);
    let n = start.transactions.len() as int;
    if end == start {
        assert(end.transactions.subrange(0, n) =~= start.transactions);
        assert(end.transactions.skip(n) =~= Seq::empty());
    } else {
        let t = end.transactions.last();
        assert(end == start.record(t));
        assert(end.transactions.subrange(0, n) =~= start.transactions);
        assert(end.transactions.skip(n) =~= seq![t]);
        assert(seq![t].drop_last() =~= Seq::<TransactionView>::empty());
        assert(net_effect(seq![t]) == net_effect(seq![t].drop_last()) + effect(t));
    }
}

/// Balance consistency: after any sequence of deposits, withdrawals and
/// transfer legs, accepted or refused, the balance is the starting balance
/// plus the net effect of the records that the log has gained since, and
/// what the log held at the start still stands at its front.
pub proof fn lemma_balance_follows_log(start: AccountView, ops: Seq<Operation>)
    ensures
        start.apply_all(ops).name == start.name,
        start.transactions.len() <= start.apply_all(ops).transactions.len(),
        start.apply_all(ops).transactions.subrange(0, start.transactions.len() as int)
            == start.transactions,
        start.apply_all(ops).balance == start.balance + net_effect(
            start.apply_all(ops).transactions.skip(start.transactions.len() as int),
        ),
        start.is_balanced() ==> start.apply_all(ops).is_balanced(),
    decreases ops.len(),
{
    let n = start.transactions.len() as int;
    if ops.len() == 0 {
        assert(start.transactions.subrange(0, n) =~= start.transactions);
        assert(start.transactions.skip(n) =~= Seq::empty());
    } else {
        let mid = start.apply_all(ops.drop_last());
        let end = mid.apply(ops.last());
        let m = mid.transactions.len() as int;
        lemma_balance_follows_log(start, ops.drop_last());
        lemma_apply_follows_log(mid, ops.last());
        assert(end.transactions.subrange(0, n) =~= end.transactions.subrange(0, m).subrange(0, n));
        assert(end.transactions.skip(n) =~= mid.transactions.skip(n) + end.transactions.skip(m));
        lemma_net_effect_concat(mid.transactions.skip(n), end.transactions.skip(m));
    }
    let end = start.apply_all(ops);
    assert(end.transactions =~= start.transactions + end.transactions.skip(n));
    lemma_net_effect_concat(start.transactions, end.transactions.skip(n));
}

/// The withdrawal guard: a withdrawal of more than the balance changes
/// neither balance nor log; any other withdrawal takes the amount off the
/// balance and adds one withdrawal record to the log.
pub proof fn lemma_withdrawal_guard(
    account: AccountView,
    amount: int,
    description: Seq<char>,
    date: Seq<char>,
)
    ensures
        amount > account.balance ==> account.withdraw(amount, description, date) == account,
        amount <= account.balance ==> {
            let after = account.withdraw(amount, description, date);
            &&& after.name == account.name
            &&& after.balance == account.balance - amount
            &&& after.transactions == account.transactions.push(
                TransactionView::withdrawal(amount, description, date),
            )
        },
{
}

/// Transfer atomicity. A transfer that is not successful leaves the whole
/// ledger as it was. A successful one takes the amount off the source and
/// adds it to the destination, gives each of the two logs exactly one new
/// transfer record, which names the other account, and leaves every other
/// account as it was.
pub proof fn lemma_transfer_atomic(
    ledger: Seq<AccountView>,
    source: Seq<char>,
    destination: Seq<char>,
    amount: int,
    date: Seq<char>,
)
    ensures
        transfer_outcome(ledger, source, destination, amount) != Outcome::Successful
            ==> transferred(ledger, source, destination, amount, date) == ledger,
        transfer_outcome(ledger, source, destination, amount) == Outcome::Successful ==> {
            let after = transferred(ledger, source, destination, amount, date);
            let (s, d) = transfer_pair(ledger, source, destination)->0;
            &&& is_transfer_pair(ledger, source, destination, s, d)
            &&& after.len() == ledger.len()
            &&& after[s].name == source
            &&& after[d].name == destination
            &&& after[s].balance == ledger[s].balance - amount
            &&& after[d].balance == ledger[d].balance + amount
            &&& after[s].transactions == ledger[s].transactions.push(
                TransactionView::transfer_to(amount, destination, date),
            )
            &&& after[d].transactions == ledger[d].transactions.push(
                TransactionView::transfer_from(amount, source, date),
            )
            &&& after[s].transactions.last().transaction_type == TransactionType::Transfer
            &&& after[d].transactions.last().transaction_type == TransactionType::Transfer
            &&& forall|i: int| 0 <= i < ledger.len() && i != s && i != d ==> after[i] == ledger[i]
        },
{
    lemma_transfer_pair(ledger, source, destination);
    lemma_transfer_effects(amount, destination, date);
    lemma_transfer_effects(amount, source, date);
}

/// Lookup determinism: the account that a name resolves to depends on the
/// ledger and the name alone, and it is the first account of that name,
/// however many others bear it.
pub proof fn lemma_lookup_first(ledger: Seq<AccountView>, name: Seq<char>, i: int)
    requires
        0 <= i < ledger.len(),
        ledger[i].name == name,
    ensures
        lookup(ledger, name) is Some,
        is_first_named(ledger, name, lookup(ledger, name)->0),
        lookup(ledger, name)->0 <= i,
{
    lemma_lookup(ledger, name);
}

/// A transfer between two accounts of one name finds no pair, and so does
/// one of which a name is missing.
pub proof fn lemma_transfer_needs_both(
    ledger: Seq<AccountView>,
    source: Seq<char>,
    destination: Seq<char>,
)
    requires
        source == destination || lookup(ledger, source) is None || lookup(ledger, destination)
            is None,
    ensures
        transfer_pair(ledger, source, destination) is None,
{
    lemma_lookup(ledger, source);
    lemma_lookup(ledger, destination);
}

/// A transfer resolves each of its two names as a lookup does: whatever
/// accounts bear the names, and however often, it settles on the first
/// account named `source` and the first account named `destination`.
pub proof fn lemma_transfer_pair_is_first_named(
    ledger: Seq<AccountView>,
    source: Seq<char>,
    destination: Seq<char>,
    s: int,
    d: int,
)
    requires
        source != destination,
        0 <= s < ledger.len(),
        0 <= d < ledger.len(),
        ledger[s].name == source,
        ledger[d].name == destination,
    ensures
        lookup(ledger, source) is Some,
        lookup(ledger, destination) is Some,
        transfer_pair(ledger, source, destination) == Some(
            (lookup(ledger, source)->0, lookup(ledger, destination)->0),
        ),
        lookup(ledger, source)->0 <= s,
        lookup(ledger, destination)->0 <= d,
{
    lemma_lookup(ledger, source);
    lemma_lookup(ledger, destination);
}

/// Two descending sequences that hold the same lines of each balance, in
/// the same order, are one sequence.
pub proof fn lemma_descending_unique(a: Seq<BalanceLineView>, b: Seq<BalanceLineView>)
    requires
        is_descending(a),
        is_descending(b),
        forall|v: int| #[trigger] with_balance(a, v) == with_balance(b, v),
    ensures
        a == b,
    decreases a.len() + b.len(),
{
    reveal_with_fuel(Seq::filter, 2);
    if a.len() == 0 && b.len() == 0 {
        assert(a =~= b);
    } else if a.len() == 0 {
        assert(with_balance(a, b.last().balance) == with_balance(b, b.last().balance));
    } else if b.len() == 0 {
        assert(with_balance(a, a.last().balance) == with_balance(b, a.last().balance));
    } else {
        let x = a.last();
        let y = b.last();
        let in_a = with_balance(a, y.balance);
        let in_b = with_balance(b, x.balance);
        assert(in_a == with_balance(b, y.balance));
        assert(in_b == with_balance(a, x.balance));
        assert(in_a.last() == y);
        assert(in_b.last() == x);
        a.lemma_filter_contains_rev(|line: BalanceLineView| line.balance == y.balance, y);
        b.lemma_filter_contains_rev(|line: BalanceLineView| line.balance == x.balance, x);
        let i = choose|i: int| 0 <= i < a.len() && a[i] == y;
        let j = choose|j: int| 0 <= j < b.len() && b[j] == x;
        assert(a[i].balance >= x.balance);
        assert(b[j].balance >= y.balance);
        assert(x.balance == y.balance);
        assert(with_balance(a, x.balance).last() == x);
        assert(x == y);
        assert(is_descending(a.drop_last()));
        assert(is_descending(b.drop_last()));
        assert forall|v: int| #[trigger]
            with_balance(a.drop_last(), v) == with_balance(b.drop_last(), v) by {
            assert(with_balance(a, v) == with_balance(b, v));
            if v == x.balance {
                assert(with_balance(a, v).drop_last() =~= with_balance(a.drop_last(), v));
                assert(with_balance(b, v).drop_last() =~= with_balance(b.drop_last(), v));
            }
        }
        lemma_descending_unique(a.drop_last(), b.drop_last());
        assert(a =~= a.drop_last().push(x));
        assert(b =~= b.drop_last().push(y));
    }
}

/// The ranking of a ledger is settled by the ledger: two rankings of one
/// ledger are equal, line by line.
pub proof fn lemma_ranking_unique(
    first: Seq<BalanceLineView>,
    second: Seq<BalanceLineView>,
    ledger: Seq<AccountView>,
)
    requires
        is_ranking_of(first, ledger),
        is_ranking_of(second, ledger),
    ensures
        first == second,
{
    assert forall|v: int| #[trigger] with_balance(first, v) == with_balance(second, v) by {
        assert(with_balance(first, v) == with_balance(balance_lines(ledger), v));
        assert(with_balance(second, v) == with_balance(balance_lines(ledger), v));
    }
    lemma_descending_unique(first, second);
}

} // verus!
