//! Adapter for the rows of an Alipay export.

use crate::amount::{parse_decimal, Amount, Decimal};
use crate::bean::{ledger_text, Bean};
use crate::error::{missing_field, Error, Failure};
use crate::flow::{classify, Flow, FlowKind};
use crate::importers::csv::{
    column, column_as, filled_from, made_from, pick, rows_of, Parser,
};
use crate::rules::Rules;
use crate::text::{
    first_token, is_whitespace, lemma_first_token_ignores_tail, take_first_token, text_eq,
};
use crate::transaction::{pairs_view, signed, text_outcome, Transaction};
use vstd::prelude::*;

verus! {

/// Number of lines that the platform writes before the table.
pub const HEADER_LINES: usize = 4;

pub const DATE_COLUMN: usize = 3;

pub const PAYEE_COLUMN: usize = 7;

pub const NARRATION_COLUMN: usize = 8;

pub const AMOUNT_COLUMN: usize = 9;

pub const FLOW_COLUMN: usize = 10;

pub const STATUS_COLUMN: usize = 11;

/// The status that the platform gives a transaction that never completed.
pub open spec fn closed_status() -> Seq<char> {
    "交易关闭"@
}

/// One row of an Alipay export.
#[derive(Clone, Debug)]
pub struct Alipay {
    row: Vec<String>,
}

impl View for Alipay {
    type V = Seq<Seq<char>>;

    closed spec fn view(&self) -> Seq<Seq<char>> {
        self.row.deep_view()
    }
}

impl Alipay {
    /// Takes the fields of one row.
    pub fn new(record: Vec<String>) -> (r: Self)
        ensures
            r@ == record.deep_view(),
    {
        Alipay { row: record }
    }

    /// Takes a column as it stands.
    pub fn default_transform(s: &str) -> (r: Option<String>)
        ensures
            r matches Some(t) && t@ == s@,
    {
        Some(s.to_owned())
    }

    /// Whether the row stands for a transaction that took place: the status
    /// column is there and does not say that the transaction was closed.
    pub open spec fn spec_is_valid(&self) -> bool {
        column(self@, "kind"@, STATUS_COLUMN as nat) matches Ok(s) && s != closed_status()
    }

    /// Whether the row stands for a transaction that took place.
    pub fn is_valid(&self) -> (r: bool)
        ensures
            r == self.spec_is_valid(),
    {
        match pick(&self.row, "kind", STATUS_COLUMN, Self::default_transform) {
            Ok(status) => !text_eq(status.as_str(), "交易关闭"),
            Err(_) => false,
        }
    }
}

impl Transaction for Alipay {
    open spec fn spec_date(&self) -> Result<Seq<char>, Failure> {
        column_as(self@, "date"@, DATE_COLUMN as nat, |s: Seq<char>| first_token(s))
    }

    open spec fn spec_payee(&self) -> Result<Seq<char>, Failure> {
        column(self@, "payee"@, PAYEE_COLUMN as nat)
    }

    open spec fn spec_fund(&self) -> Result<Seq<char>, Failure> {
        Ok(Seq::empty())
    }

    open spec fn spec_narration(&self) -> Result<Seq<char>, Failure> {
        column(self@, "narration"@, NARRATION_COLUMN as nat)
    }

    open spec fn spec_metadata(&self) -> Result<Seq<(Seq<char>, Seq<char>)>, Failure> {
        Ok(Seq::empty())
    }

    open spec fn spec_amount(&self) -> Result<Decimal, Failure> {
        match column_as(self@, "amount"@, AMOUNT_COLUMN as nat, |s: Seq<char>| parse_decimal(s)) {
            Ok(amount) => match self.spec_flow() {
                Ok(flow) => Ok(signed(amount, flow)),
                Err(e) => Err(e),
            },
            Err(e) => Err(e),
        }
    }

    open spec fn spec_flow(&self) -> Result<FlowKind, Failure> {
        match column(self@, "flow"@, FLOW_COLUMN as nat) {
            Ok(s) => Ok(classify(s)),
            Err(e) => Err(e),
        }
    }

    fn date(&self) -> (r: Result<String, Error>) {
        pick(&self.row, "date", DATE_COLUMN, take_first_token)
    }

    fn payee(&self) -> (r: Result<String, Error>) {
        pick(&self.row, "payee", PAYEE_COLUMN, Self::default_transform)
    }

    fn fund(&self) -> (r: Result<String, Error>) {
        Ok(String::new())
    }

    fn narration(&self) -> (r: Result<String, Error>) {
        pick(&self.row, "narration", NARRATION_COLUMN, Self::default_transform)
    }

    fn metadata(&self) -> (r: Result<Vec<(String, String)>, Error>) {
        let pairs: Vec<(String, String)> = Vec::new();
        assert(pairs_view(pairs@) =~= Seq::empty());
        Ok(pairs)
    }

    fn amount(&self) -> (r: Result<Amount, Error>) {
        let amount = pick(&self.row, "amount", AMOUNT_COLUMN, Amount::parse)?;
        match self.flow()? {
            Flow::Income => Ok(amount.negate()),
            _ => Ok(amount),
        }
    }

    fn flow(&self) -> (r: Result<Flow, Error>) {
        let flow = pick(&self.row, "flow", FLOW_COLUMN, Self::default_transform)?;
        Ok(Flow::from(flow.as_str()))
    }
}

/// The date of a row is the first run of non-whitespace characters of the date
/// column, whatever follows it; a row without that column, or with nothing but
/// whitespace in it, has no date.
pub proof fn lemma_date(t: Alipay)
    ensures
        match t.spec_date() {
            Ok(date) => DATE_COLUMN < t@.len() && first_token(t@[DATE_COLUMN as int]) == Some(date),
            Err(e) => {
                &&& e == missing_field("date"@, DATE_COLUMN as nat, t@)
                &&& DATE_COLUMN < t@.len() ==> first_token(t@[DATE_COLUMN as int]) is None
            },
        },
        forall|day: Seq<char>, gap: char, time: Seq<char>|
            #![trigger day + seq![gap] + time]
            {
                &&& DATE_COLUMN < t@.len()
                &&& t@[DATE_COLUMN as int] == day + seq![gap] + time
                &&& day.len() > 0
                &&& is_whitespace(gap)
                &&& forall|j: int| 0 <= j < day.len() ==> !is_whitespace(#[trigger] day[j])
            } ==> t.spec_date() == Ok::<Seq<char>, Failure>(day),
{
    assert forall|day: Seq<char>, gap: char, time: Seq<char>|
        #![trigger day + seq![gap] + time]
        {
            &&& DATE_COLUMN < t@.len()
            &&& t@[DATE_COLUMN as int] == day + seq![gap] + time
            &&& day.len() > 0
            &&& is_whitespace(gap)
            &&& forall|j: int| 0 <= j < day.len() ==> !is_whitespace(#[trigger] day[j])
        } implies t.spec_date() == Ok::<Seq<char>, Failure>(day) by {
        lemma_first_token_ignores_tail(day, gap, time);
    }
}

/// The amount of a row is the number in the amount column, negated where the row
/// is income and as it stands where it is an expense or of unknown flow.
pub proof fn lemma_amount_sign(t: Alipay)
    requires
        t.spec_amount() is Ok,
    ensures
        AMOUNT_COLUMN < t@.len(),
        parse_decimal(t@[AMOUNT_COLUMN as int]) is Some,
        t.spec_flow() is Ok,
        t.spec_flow()->Ok_0 is Income ==> t.spec_amount()->Ok_0 == parse_decimal(
            t@[AMOUNT_COLUMN as int],
        )->0.negated(),
        !(t.spec_flow()->Ok_0 is Income) ==> t.spec_amount()->Ok_0 == parse_decimal(
            t@[AMOUNT_COLUMN as int],
        )->0,
{
}

/// The account that funds a transaction of this platform unless the rules say
/// otherwise.
pub open spec fn default_fund() -> Seq<char> {
    "Assets:Alipay"@
}

/// `transactions` are the rows `rows`, one for one.
pub open spec fn reads(transactions: Seq<Alipay>, rows: Seq<Seq<Seq<char>>>) -> bool {
    &&& transactions.len() == rows.len()
    &&& forall|k: int| 0 <= k < rows.len() ==> (#[trigger] transactions[k])@ == rows[k]
}

/// The transactions of the export whose text is `contents`, in its order.
pub fn load(contents: &str) -> (r: Bean<Alipay>)
    ensures
        r.default_fund() == default_fund(),
        reads(r.transactions(), rows_of(contents@, HEADER_LINES as nat)),
{
    let parser = Parser::new(HEADER_LINES);
    let bean = Bean::new("Assets:Alipay");
    let r = parser.load(contents, bean, Alipay::new);
    proof {
        let rows = rows_of(contents@, HEADER_LINES as nat);
        assert forall|k: int| 0 <= k < rows.len() implies (#[trigger] r.transactions()[k])@
            == rows[k] by {
            assert(made_from(Alipay::new, rows[k], r.transactions()[k]));
        }
    }
    r
}

/// The ledger of the export whose text is `contents`, under `rules`.
pub fn import(contents: &str, rules: Rules) -> (r: Result<String, Error>)
    ensures
        exists|transactions: Seq<Alipay>|
            reads(transactions, rows_of(contents@, HEADER_LINES as nat)) && #[trigger] ledger_text(
                transactions,
                rules@,
                default_fund(),
                0,
            ) == text_outcome(r),
{
    let parser = Parser::new(HEADER_LINES);
    let bean = Bean::new("Assets:Alipay");
    let r = parser.output(contents, bean, Alipay::new, rules);
    proof {
        let rows = rows_of(contents@, HEADER_LINES as nat);
        let filled = choose|filled: Bean<Alipay>|
            filled_from(bean, rows, Alipay::new, filled) && #[trigger] ledger_text(
                filled.transactions(),
                rules@,
                filled.default_fund(),
                0,
            ) == text_outcome(r);
        let all = filled.transactions();
        assert forall|k: int| 0 <= k < rows.len() implies (#[trigger] all[k])@ == rows[k] by {
            assert(made_from(Alipay::new, rows[k], all[k]));
        }
        assert(reads(all, rows));
        assert(filled.default_fund() == default_fund());
        assert(ledger_text(all, rules@, default_fund(), 0) == text_outcome(r));
    }
    r
}

} // verus!
