//! The overview of a ledger: its accounts ranked by balance, and their sum.

use vstd::prelude::*;
use crate::account::{Account, AccountView};
use crate::ledger::ledger_view;

verus! {

/// One line of the overview: an account's name and balance.
#[derive(Debug, PartialEq, Eq)]
pub struct BalanceLine {
    pub name: String,
    pub balance: i128,
}

/// The mathematical value of a [`BalanceLine`].
pub struct BalanceLineView {
    pub name: Seq<char>,
    pub balance: int,
}

impl View for BalanceLine {
    type V = BalanceLineView;

    open spec fn view(&self) -> BalanceLineView {
        BalanceLineView { name: self.name@, balance: self.balance as int }
    }
}

/// The overview of a ledger.
#[derive(Debug, PartialEq, Eq)]
pub struct Summary {
    /// The accounts, highest balance first.
    pub lines: Vec<BalanceLine>,
    /// The sum of all balances, where a 128-bit integer can hold it.
    pub total: Option<i128>,
}

/// The views of the lines of an overview, in order.
pub open spec fn lines_view(lines: Seq<BalanceLine>) -> Seq<BalanceLineView> {
    lines.map_values(|line: BalanceLine| line@)
}

/// The lines of a ledger's accounts, in ledger order.
pub open spec fn balance_lines(ledger: Seq<AccountView>) -> Seq<BalanceLineView> {
    ledger.map_values(|a: AccountView| BalanceLineView { name: a.name, balance: a.balance })
}

/// The lines that show the balance `v`, in the order in which they stand.
pub open spec fn with_balance(lines: Seq<BalanceLineView>, v: int) -> Seq<BalanceLineView> {
    lines.filter(|line: BalanceLineView| line.balance == v)
}

/// No line stands before one with a higher balance.
pub open spec fn is_descending(lines: Seq<BalanceLineView>) -> bool {
    forall|i: int, j: int| 0 <= i < j < lines.len() ==> lines[i].balance >= lines[j].balance
}

/// `lines` ranks the accounts of `ledger`: it holds the line of each
/// account once, highest balance first, and accounts of equal balance in
/// the order in which the ledger holds them.
pub open spec fn is_ranking_of(lines: Seq<BalanceLineView>, ledger: Seq<AccountView>) -> bool {
    &&& is_descending(lines)
    &&& forall|v: int| #[trigger] with_balance(lines, v) == with_balance(balance_lines(ledger), v)
}

/// The sum of the balances of a ledger's accounts.
pub open spec fn total_balance(ledger: Seq<AccountView>) -> int
    decreases ledger.len(),
{
    if ledger.len() == 0 {
        0
    } else {
        total_balance(ledger.drop_last()) + ledger.last().balance
    }
}

/// `p` is the place of `x` in the descending sequence `lines`: behind
/// every line that is not lower, before every line that is.
pub open spec fn is_place_of(lines: Seq<BalanceLineView>, p: int, x: BalanceLineView) -> bool {
    &&& 0 <= p <= lines.len()
    &&& forall|k: int| 0 <= k < p ==> lines[k].balance >= x.balance
    &&& forall|k: int| p <= k < lines.len() ==> lines[k].balance < x.balance
}

/// A line put into its place keeps the sequence descending.
proof fn lemma_insert_descending(lines: Seq<BalanceLineView>, p: int, x: BalanceLineView)
    requires
        is_descending(lines),
        is_place_of(lines, p, x),
    ensures
        is_descending(lines.insert(p, x)),
{
}

/// A line put into its place becomes the last of its balance, and the
/// lines of every other balance stay as they were.
proof fn lemma_insert_with_balance(lines: Seq<BalanceLineView>, p: int, x: BalanceLineView, v: int)
    requires
        is_place_of(lines, p, x),
    ensures
        with_balance(lines.insert(p, x), v) == if x.balance == v {
            with_balance(lines, v).push(x)
        } else {
            with_balance(lines, v)
        },
{
    let pred = |line: BalanceLineView| line.balance == v;
    let head = lines.subrange(0, p);
    let tail = lines.subrange(p, lines.len() as int);
    let one = seq![x];
    assert(lines =~= head + tail);
    assert(lines.insert(p, x) =~= head + one + tail);
    Seq::filter_distributes_over_add(head, tail, pred);
    Seq::filter_distributes_over_add(head, one, pred);
    Seq::filter_distributes_over_add(head + one, tail, pred);
    reveal_with_fuel(Seq::filter, 2);
    assert(one.drop_last() =~= Seq::<BalanceLineView>::empty());
    if x.balance == v {
        tail.lemma_all_neg_filter_empty(pred);
        assert(one.filter(pred) =~= one);
        assert(head.filter(pred) + one + tail.filter(pred) =~= (head.filter(pred) + tail.filter(
            pred,
        )).push(x));
    } else {
        assert(one.filter(pred) =~= Seq::<BalanceLineView>::empty());
        assert(head.filter(pred) + one.filter(pred) + tail.filter(pred) =~= head.filter(pred)
            + tail.filter(pred));
    }
}

/// The lines of a ledger that has gained an account.
proof fn lemma_with_balance_push(ledger: Seq<AccountView>, a: AccountView, v: int)
    ensures
        with_balance(balance_lines(ledger.push(a)), v) == if a.balance == v {
            with_balance(balance_lines(ledger), v).push(
                BalanceLineView { name: a.name, balance: a.balance },
            )
        } else {
            with_balance(balance_lines(ledger), v)
        },
{
    let x = BalanceLineView { name: a.name, balance: a.balance };
    let grown = balance_lines(ledger.push(a));
    assert(grown =~= balance_lines(ledger).push(x));
    assert(grown.drop_last() =~= balance_lines(ledger));
    reveal_with_fuel(Seq::filter, 2);
}

/// Ranks the accounts by balance, highest first; accounts of equal balance
/// keep the order of the ledger. The ledger itself is only read.
pub fn rank_accounts(accounts: &Vec<Account>) -> (lines: Vec<BalanceLine>)
    ensures
        is_ranking_of(lines_view(lines@), ledger_view(accounts@)),
{
    let ghost ledger = ledger_view(accounts@);
    let mut lines: Vec<BalanceLine> = Vec::new();
    let mut i: usize = 0;
    proof {
        assert(ledger.subrange(0, 0) =~= Seq::empty());
        assert(lines_view(lines@) =~= Seq::empty());
        assert(balance_lines(Seq::empty()) =~= Seq::empty());
        assert forall|v: int| #[trigger]
            with_balance(lines_view(lines@), v) == with_balance(
                balance_lines(ledger.subrange(0, 0)),
                v,
            ) by {}
    }
    while i < accounts.len()
        invariant
            i <= accounts.len(),
            ledger == ledger_view(accounts@),
            is_ranking_of(lines_view(lines@), ledger.subrange(0, i as int)),
        decreases accounts.len() - i,
    {
        let balance: i128 = accounts[i].balance();
        let line = BalanceLine { name: accounts[i].name().clone(), balance };
        let mut p: usize = 0;
        while p < lines.len() && lines[p].balance >= balance
            invariant
                p <= lines.len(),
                forall|k: int| 0 <= k < p ==> lines_view(lines@)[k].balance >= balance,
            decreases lines.len() - p,
        {
            p += 1;
        }
        let ghost ranked = lines_view(lines@);
        lines.insert(p, line);
        proof {
            let x = line@;
            let a = ledger[i as int];
            assert(x == BalanceLineView { name: a.name, balance: a.balance });
            assert(lines_view(lines@) =~= ranked.insert(p as int, x));
            assert(ledger.subrange(0, i + 1) =~= ledger.subrange(0, i as int).push(a));
            assert(is_place_of(ranked, p as int, x)) by {
                if p < ranked.len() {
                    assert(ranked[p as int].balance < x.balance);
                }
            }
            assert forall|v: int| #[trigger]
                with_balance(lines_view(lines@), v) == with_balance(
                    balance_lines(ledger.subrange(0, i + 1)),
                    v,
                ) by {
                lemma_insert_with_balance(ranked, p as int, x, v);
                lemma_with_balance_push(ledger.subrange(0, i as int), a, v);
                assert(with_balance(ranked, v) == with_balance(
                    balance_lines(ledger.subrange(0, i as int)),
                    v,
                ));
            }
            lemma_insert_descending(ranked, p as int, x);
        }
        i += 1;
    }
    assert(ledger.subrange(0, i as int) =~= ledger);
    lines
}

/// Adds up the balances of all accounts. The sum is `None` exactly where
/// it lies outside the range of a 128-bit integer.
pub fn total_of(accounts: &Vec<Account>) -> (total: Option<i128>)
    ensures
        total == if i128::MIN <= total_balance(ledger_view(accounts@)) <= i128::MAX {
            Some(total_balance(ledger_view(accounts@)) as i128)
        } else {
            None
        },
{
    let ghost ledger = ledger_view(accounts@);
    // The running sum is `low + wraps * 2^128`.
    let mut low: i128 = 0;
    let mut wraps: i128 = 0;
    let mut i: usize = 0;
    assert(ledger.subrange(0, 0) =~= Seq::empty());
    while i < accounts.len()
        invariant
            i <= accounts.len(),
            ledger == ledger_view(accounts@),
            -i <= wraps <= i,
            low + wraps * 0x1_0000_0000_0000_0000_0000_0000_0000_0000 == total_balance(
                ledger.subrange(0, i as int),
            ),
        decreases accounts.len() - i,
    {
        let balance: i128 = accounts[i].balance();
        proof {
            assert(ledger.subrange(0, i + 1).drop_last() =~= ledger.subrange(0, i as int));
        }
        match low.checked_add(balance) {
            Some(sum) => {
                low = sum;
            },
            None => {
                if balance > 0 {
                    low = (low + i128::MIN) + (balance + i128::MIN);
                    wraps = wraps + 1;
                } else {
                    low = (low - i128::MIN) + (balance - i128::MIN);
                    wraps = wraps - 1;
                }
            },
        }
        i += 1;
    }
    assert(ledger.subrange(0, i as int) =~= ledger);
    if wraps == 0 {
        Some(low)
    } else {
        assert(wraps >= 1 || wraps <= -1);
        assert(wraps * 0x1_0000_0000_0000_0000_0000_0000_0000_0000 >= 0x1_0000_0000_0000_0000_0000_0000_0000_0000
            || wraps * 0x1_0000_0000_0000_0000_0000_0000_0000_0000
            <= -0x1_0000_0000_0000_0000_0000_0000_0000_0000) by (nonlinear_arith)
            requires
                wraps >= 1 || wraps <= -1,
        ;
        None
    }
}

/// The overview of the ledger: the accounts ranked by balance, highest
/// first, and the sum of their balances. The ledger itself is only read
/// and keeps its order.
pub fn display_accounts(accounts: &Vec<Account>) -> (summary: Summary)
    ensures
        is_ranking_of(lines_view(summary.lines@), ledger_view(accounts@)),
        summary.total == if i128::MIN <= total_balance(ledger_view(accounts@)) <= i128::MAX {
            Some(total_balance(ledger_view(accounts@)) as i128)
        } else {
            None
        },
{
    Summary { lines: rank_accounts(accounts), total: total_of(accounts) }
}

} // verus!
