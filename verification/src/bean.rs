//! The ledger: transactions in the order in which they were added, and their text.

use crate::amount::Decimal;
use crate::error::{Error, Failure};
use crate::flow::FlowKind;
use crate::rules::{RuleBook, Rules};
use crate::transaction::{pairs_view, Transaction};
use vstd::prelude::*;
use vstd::string::*;

verus! {

/// All that the ledger prints of one transaction.
pub struct Entry {
    pub date: Seq<char>,
    pub payee: Seq<char>,
    pub narration: Seq<char>,
    pub fund: Seq<char>,
    pub amount: Decimal,
    pub flow: FlowKind,
    pub metadata: Seq<(Seq<char>, Seq<char>)>,
}

/// What the accessors of `t` give together, or the failure of the first that
/// fails, asked in the order payee, flow, fund, metadata, date, narration, amount.
pub open spec fn entry_of<T: Transaction>(t: T) -> Result<Entry, Failure> {
    match t.spec_payee() {
        Err(e) => Err(e),
        Ok(payee) => match t.spec_flow() {
            Err(e) => Err(e),
            Ok(flow) => match t.spec_fund() {
                Err(e) => Err(e),
                Ok(fund) => match t.spec_metadata() {
                    Err(e) => Err(e),
                    Ok(metadata) => match t.spec_date() {
                        Err(e) => Err(e),
                        Ok(date) => match t.spec_narration() {
                            Err(e) => Err(e),
                            Ok(narration) => match t.spec_amount() {
                                Err(e) => Err(e),
                                Ok(amount) => Ok(
                                    Entry { date, payee, narration, fund, amount, flow, metadata },
                                ),
                            },
                        },
                    },
                },
            },
        },
    }
}

impl Entry {
    /// The account that the rules give the payee; empty where they give none.
    pub open spec fn account(self, book: RuleBook) -> Seq<char> {
        match book.payee_account(self.payee) {
            Some(account) => account,
            None => Seq::empty(),
        }
    }

    /// Whether the record is left for the operator to settle: the payee has no
    /// account yet, or the flow is unknown.
    pub open spec fn is_pending(self, book: RuleBook) -> bool {
        self.account(book).len() == 0 || self.flow is Unknown
    }

    /// `!` on a record that is pending, `*` on any other.
    pub open spec fn flag(self, book: RuleBook) -> Seq<char> {
        if self.is_pending(book) {
            "!"@
        } else {
            "*"@
        }
    }

    /// The payee as the ledger shows it: by the alias of the rules, if any.
    pub open spec fn display_name(self, book: RuleBook) -> Seq<char> {
        match book.payee_alias(self.payee) {
            Some(alias) => alias,
            None => self.payee,
        }
    }

    /// The account with the space that parts it from the amount; nothing where
    /// there is no account.
    pub open spec fn account_prefix(self, book: RuleBook) -> Seq<char> {
        if self.account(book).len() > 0 {
            self.account(book) + " "@
        } else {
            Seq::empty()
        }
    }

    /// The account of the fund by the rules, where the transaction names a fund
    /// and the rules know it; else `default_fund`.
    pub open spec fn fund_account(self, book: RuleBook, default_fund: Seq<char>) -> Seq<char> {
        if self.fund.len() > 0 && book.fund_account(self.fund) is Some {
            book.fund_account(self.fund)->0
        } else {
            default_fund
        }
    }

    /// The record of the transaction in the ledger.
    pub open spec fn text(self, book: RuleBook, default_fund: Seq<char>) -> Seq<char> {
        self.date + " "@ + self.flag(book) + " \""@ + self.display_name(book) + "\" \""@
            + self.narration + "\""@ + metadata_text(self.metadata) + "\n  "@ + self.account_prefix(
            book,
        ) + self.amount.text() + " CNY\n  "@ + self.fund_account(book, default_fund) + "\n"@
    }
}

/// One line for each pair, in order: a line feed, two spaces, the key, a colon and
/// the value in quotes.
pub open spec fn metadata_text(pairs: Seq<(Seq<char>, Seq<char>)>) -> Seq<char>
    decreases pairs.len(),
{
    if pairs.len() == 0 {
        Seq::empty()
    } else {
        metadata_text(pairs.drop_last()) + "\n  "@ + pairs.last().0 + ": \""@ + pairs.last().1
            + "\""@
    }
}

/// The records of `transactions[i..]` one after the other, or the failure of the
/// first transaction that has one.
pub open spec fn ledger_text<T: Transaction>(
    transactions: Seq<T>,
    book: RuleBook,
    default_fund: Seq<char>,
    i: int,
) -> Result<Seq<char>, Failure>
    decreases transactions.len() - i,
{
    if i < 0 || i >= transactions.len() {
        Ok(Seq::empty())
    } else {
        match entry_of(transactions[i]) {
            Err(e) => Err(e),
            Ok(entry) => match ledger_text(transactions, book, default_fund, i + 1) {
                Err(e) => Err(e),
                Ok(rest) => Ok(entry.text(book, default_fund) + rest),
            },
        }
    }
}

/// The flag of a record stands after the date and one space. It is `!` exactly
/// when the rules give the payee no account, or an empty one, or the flow is
/// unknown; else it is `*`.
pub proof fn lemma_flag(entry: Entry, book: RuleBook, default_fund: Seq<char>)
    ensures
        entry.text(book, default_fund).len() > entry.date.len() + 1,
        entry.text(book, default_fund).subrange(0, entry.date.len() as int) == entry.date,
        entry.text(book, default_fund)[entry.date.len() as int] == ' ',
        entry.text(book, default_fund)[entry.date.len() as int + 1] == (if entry.account(book).len() == 0
            || entry.flow is Unknown {
            '!'
        } else {
            '*'
        }),
{
    reveal_strlit(" ");
    reveal_strlit("!");
    reveal_strlit("*");
    let head = entry.date + " "@ + entry.flag(book);
    let tail = " \""@ + entry.display_name(book) + "\" \""@ + entry.narration + "\""@ + metadata_text(
        entry.metadata,
    ) + "\n  "@ + entry.account_prefix(book) + entry.amount.text() + " CNY\n  "@
        + entry.fund_account(book, default_fund) + "\n"@;
    assert(entry.text(book, default_fund) =~= head + tail);
    assert(head.len() == entry.date.len() + 2);
    assert(head.subrange(0, entry.date.len() as int) =~= entry.date);
    assert((head + tail).subrange(0, entry.date.len() as int) =~= entry.date);
}

/// Transactions of one source and the account that funds them by default.
pub struct Bean<T: Transaction> {
    transactions: Vec<T>,
    default_fund: String,
}

/// The text of a list of metadata pairs.
fn render_metadata(pairs: &Vec<(String, String)>) -> (r: String)
    ensures
        r@ == metadata_text(pairs_view(pairs@)),
{
    let mut out = String::new();
    let mut i: usize = 0;
    assert(pairs_view(pairs@).take(0) =~= Seq::empty());
    while i < pairs.len()
        invariant
            i <= pairs.len(),
            out@ == metadata_text(pairs_view(pairs@).take(i as int)),
        decreases pairs.len() - i,
    {
        let ghost done = pairs_view(pairs@).take(i as int);
        let ghost next = pairs_view(pairs@).take(i + 1);
        assert(next.drop_last() =~= done);
        assert(next.last() == (pairs@[i as int].0@, pairs@[i as int].1@));
        out.append("\n  ");
        out.append(pairs[i].0.as_str());
        out.append(": \"");
        out.append(pairs[i].1.as_str());
        out.append("\"");
        i = i + 1;
    }
    assert(pairs_view(pairs@).take(pairs.len() as int) =~= pairs_view(pairs@));
    out
}

impl<T: Transaction> Bean<T> {
    /// The transactions, in the order in which they were added.
    pub closed spec fn transactions(&self) -> Seq<T> {
        self.transactions@
    }

    /// The account that funds a transaction for whose fund the rules have none.
    pub closed spec fn default_fund(&self) -> Seq<char> {
        self.default_fund@
    }

    /// A ledger without transactions.
    pub fn new(default_fund: &str) -> (r: Self)
        ensures
            r.transactions() == Seq::<T>::empty(),
            r.default_fund() == default_fund@,
    {
        Bean { transactions: Vec::new(), default_fund: default_fund.to_owned() }
    }

    /// Adds a transaction after those that are there.
    pub fn add(&mut self, transaction: T)
        ensures
            final(self).transactions() == old(self).transactions().push(transaction),
            final(self).default_fund() == old(self).default_fund(),
    {
        self.transactions.push(transaction);
    }

    /// The transactions, for the rules to be merged with.
    pub fn list(&self) -> (r: &Vec<T>)
        ensures
            r@ == self.transactions(),
    {
        &self.transactions
    }

    /// The record of one transaction.
    fn render(&self, transaction: &T, rules: &Rules) -> (r: Result<String, Error>)
        ensures
            match r {
                Ok(text) => entry_of(*transaction) matches Ok(entry) && text@ == entry.text(
                    rules@,
                    self.default_fund(),
                ),
                Err(e) => entry_of(*transaction) == Err::<Entry, Failure>(e@),
            },
    {
        let payee = transaction.payee()?;
        let flow = transaction.flow()?;
        let fund = transaction.fund()?;
        let account = match rules.get_payee_account(payee.as_str()) {
            Some(account) => account,
            None => String::new(),
        };
        let flag = if account.as_str().is_empty() || flow.is_unknown() {
            "!"
        } else {
            "*"
        };
        let metadata = render_metadata(&transaction.metadata()?);
        let mut out = transaction.date()?;
        let narration = transaction.narration()?;
        let amount = transaction.amount()?;
        let display_name = match rules.get_payee_alias(payee.as_str()) {
            Some(alias) => alias,
            None => payee,
        };
        let known_fund = if fund.as_str().is_empty() {
            None
        } else {
            rules.get_fund_account(fund.as_str())
        };
        out.append(" ");
        out.append(flag);
        out.append(" \"");
        out.append(display_name.as_str());
        out.append("\" \"");
        out.append(narration.as_str());
        out.append("\"");
        out.append(metadata.as_str());
        out.append("\n  ");
        let ghost head = out@;
        if !account.as_str().is_empty() {
            out.append(account.as_str());
            out.append(" ");
        }
        assert(out@ =~= head + Entry {
            date: transaction.spec_date()->Ok_0,
            payee: payee@,
            narration: narration@,
            fund: fund@,
            amount: amount@,
            flow: flow@,
            metadata: transaction.spec_metadata()->Ok_0,
        }.account_prefix(rules@));
        out.append(amount.render().as_str());
        out.append(" CNY\n  ");
        match known_fund {
            Some(fund_account) => out.append(fund_account.as_str()),
            None => out.append(self.default_fund.as_str()),
        }
        out.append("\n");
        Ok(out)
    }

    /// The ledger's text under `rules`: one record for each transaction, in the
    /// order in which they were added. Fails with the failure of the first
    /// accessor that fails.
    pub fn output_with_rules(&self, rules: Rules) -> (r: Result<String, Error>)
        ensures
            crate::transaction::text_outcome(r) == ledger_text(
                self.transactions(),
                rules@,
                self.default_fund(),
                0,
            ),
    {
        let mut output = String::new();
        let mut i: usize = 0;
        while i < self.transactions.len()
            invariant
                i <= self.transactions.len(),
                ledger_text(self.transactions(), rules@, self.default_fund(), 0) == match ledger_text(
                    self.transactions(),
                    rules@,
                    self.default_fund(),
                    i as int,
                ) {
                    Ok(rest) => Ok(output@ + rest),
                    Err(e) => Err(e),
                },
            decreases self.transactions.len() - i,
        {
            let record = self.render(&self.transactions[i], &rules)?;
            proof {
                let rest = ledger_text(self.transactions(), rules@, self.default_fund(), i + 1);
                if rest is Ok {
                    assert(output@ + (record@ + rest->Ok_0) =~= output@ + record@ + rest->Ok_0);
                }
            }
            output.append(record.as_str());
            i = i + 1;
        }
        Ok(output)
    }
}

} // verus!
