//! Adapter for the rows of a WeChat Pay export.

use crate::amount::{parse_decimal, Amount, Decimal};
use crate::bean::{ledger_text, Bean};
use crate::error::{missing_field, Error, Failure};
use crate::flow::{classify, Flow, FlowKind};
use crate::importers::csv::{
    column, column_as, filled_from, made_from, pick, rows_of, Parser,
};
use crate::rules::Rules;
use crate::text::{
    first_token, is_whitespace, lemma_first_token_ignores_tail, strip_leading,
    strip_leading_char, take_first_token, text_eq,
};
use crate::transaction::{pairs_view, signed, text_outcome, Transaction};
use vstd::prelude::*;
use vstd::string::*;

verus! {

/// Number of lines that the platform writes before the table.
pub const HEADER_LINES: usize = 16;

pub const DATE_COLUMN: usize = 0;

pub const TRADE_TYPE_COLUMN: usize = 1;

pub const PAYEE_COLUMN: usize = 2;

pub const NARRATION_COLUMN: usize = 3;

pub const FLOW_COLUMN: usize = 4;

pub const AMOUNT_COLUMN: usize = 5;

pub const FUND_COLUMN: usize = 6;

pub const STATUS_COLUMN: usize = 7;

pub const REMARK_COLUMN: usize = 10;

/// The sign that the platform writes before an amount.
pub const CURRENCY_SIGN: char = '¥';

/// Status of a payment that was refunded in full.
pub open spec fn refunded_status() -> Seq<char> {
    "已全额退款"@
}

/// Status of a withdrawal that has reached the bank.
pub open spec fn withdrawn_status() -> Seq<char> {
    "提现已到账"@
}

/// Key under which an unclassified flow is reported in the metadata.
pub open spec fn unknown_flow_key() -> Seq<char> {
    "unknown_flow"@
}

/// The flow of a row: the status where it is one of the two that say nothing of
/// the direction, else what the flow column stands for.
pub open spec fn flow_of(flow: Seq<char>, status: Seq<char>) -> FlowKind {
    if status == refunded_status() || status == withdrawn_status() {
        FlowKind::Unknown(status)
    } else {
        classify(flow)
    }
}

/// The amount that a column writes after any number of currency signs.
pub open spec fn parse_price(s: Seq<char>) -> Option<Decimal> {
    parse_decimal(strip_leading(s, CURRENCY_SIGN))
}

/// One row of a WeChat Pay export.
#[derive(Clone, Debug)]
pub struct Wechat {
    row: Vec<String>,
}

impl View for Wechat {
    type V = Seq<Seq<char>>;

    closed spec fn view(&self) -> Seq<Seq<char>> {
        self.row.deep_view()
    }
}

/// Reads an amount written after any number of currency signs.
pub fn read_price(s: &str) -> (r: Option<Amount>)
    ensures
        match r {
            Some(a) => parse_price(s@) == Some(a@) && a.wf(),
            None => parse_price(s@) is None,
        },
{
    let digits = strip_leading_char(s, CURRENCY_SIGN);
    Amount::parse(digits.as_str())
}

impl Wechat {
    /// Takes the fields of one row.
    pub fn new(record: Vec<String>) -> (r: Self)
        ensures
            r@ == record.deep_view(),
    {
        Wechat { row: record }
    }

    /// Takes a column as it stands.
    pub fn default_transform(s: &str) -> (r: Option<String>)
        ensures
            r matches Some(t) && t@ == s@,
    {
        Some(s.to_owned())
    }

    pub open spec fn spec_status(&self) -> Result<Seq<char>, Failure> {
        column(self@, "status"@, STATUS_COLUMN as nat)
    }

    pub open spec fn spec_trade_type(&self) -> Result<Seq<char>, Failure> {
        column(self@, "trade_type"@, TRADE_TYPE_COLUMN as nat)
    }

    pub open spec fn spec_remark(&self) -> Result<Seq<char>, Failure> {
        column(self@, "remark"@, REMARK_COLUMN as nat)
    }

    /// State of the payment as the platform words it.
    pub fn status(&self) -> (r: Result<String, Error>)
        ensures
            text_outcome(r) == self.spec_status(),
    {
        pick(&self.row, "status", STATUS_COLUMN, Self::default_transform)
    }

    /// Kind of trade as the platform words it.
    pub fn trade_type(&self) -> (r: Result<String, Error>)
        ensures
            text_outcome(r) == self.spec_trade_type(),
    {
        pick(&self.row, "trade_type", TRADE_TYPE_COLUMN, Self::default_transform)
    }

    /// Free text that the platform adds to the row.
    pub fn remark(&self) -> (r: Result<String, Error>)
        ensures
            text_outcome(r) == self.spec_remark(),
    {
        pick(&self.row, "remark", REMARK_COLUMN, Self::default_transform)
    }
}

impl Transaction for Wechat {
    open spec fn spec_date(&self) -> Result<Seq<char>, Failure> {
        column_as(self@, "date"@, DATE_COLUMN as nat, |s: Seq<char>| first_token(s))
    }

    open spec fn spec_payee(&self) -> Result<Seq<char>, Failure> {
        column(self@, "payee"@, PAYEE_COLUMN as nat)
    }

    open spec fn spec_fund(&self) -> Result<Seq<char>, Failure> {
        column(self@, "fund"@, FUND_COLUMN as nat)
    }

    open spec fn spec_narration(&self) -> Result<Seq<char>, Failure> {
        match self.spec_status() {
            Ok(status) => if status == withdrawn_status() {
                match self.spec_trade_type() {
                    Ok(trade_type) => match self.spec_remark() {
                        Ok(remark) => Ok(trade_type + seq![' '] + remark),
                        Err(e) => Err(e),
                    },
                    Err(e) => Err(e),
                }
            } else {
                column(self@, "narration"@, NARRATION_COLUMN as nat)
            },
            Err(e) => Err(e),
        }
    }

    open spec fn spec_metadata(&self) -> Result<Seq<(Seq<char>, Seq<char>)>, Failure> {
        match self.spec_flow() {
            Ok(FlowKind::Unknown(reason)) => Ok(seq![(unknown_flow_key(), reason)]),
            Ok(_) => Ok(Seq::empty()),
            Err(e) => Err(e),
        }
    }

    open spec fn spec_amount(&self) -> Result<Decimal, Failure> {
        match column_as(self@, "amount"@, AMOUNT_COLUMN as nat, |s: Seq<char>| parse_price(s)) {
            Ok(amount) => match self.spec_flow() {
                Ok(flow) => Ok(signed(amount, flow)),
                Err(e) => Err(e),
            },
            Err(e) => Err(e),
        }
    }

    open spec fn spec_flow(&self) -> Result<FlowKind, Failure> {
        match column(self@, "flow"@, FLOW_COLUMN as nat) {
            Ok(flow) => match self.spec_status() {
                Ok(status) => Ok(flow_of(flow, status)),
                Err(e) => Err(e),
            },
            Err(e) => Err(e),
        }
    }

    fn date(&self) -> (r: Result<String, Error>) {
        pick(&self.row, "date", DATE_COLUMN, take_first_token)
    }

    fn payee(&self) -> (r: Result<String, Error>) {
        pick(&self.row, "payee", PAYEE_COLUMN, Self::default_transform)
    }

    fn fund(&self) -> (r: Result<String, Error>) {
        pick(&self.row, "fund", FUND_COLUMN, Self::default_transform)
    }

    fn narration(&self) -> (r: Result<String, Error>) {
        let status = self.status()?;
        if text_eq(status.as_str(), "提现已到账") {
            let mut out = self.trade_type()?;
            let remark = self.remark()?;
            let ghost trade_type = out@;
            proof {
                reveal_strlit(" ");
            }
            out.append(" ");
            out.append(remark.as_str());
            assert(" "@ =~= seq![' ']);
            assert(out@ == trade_type + seq![' '] + remark@);
            Ok(out)
        } else {
            pick(&self.row, "narration", NARRATION_COLUMN, Self::default_transform)
        }
    }

    fn metadata(&self) -> (r: Result<Vec<(String, String)>, Error>) {
        let mut pairs: Vec<(String, String)> = Vec::new();
        match self.flow()? {
            Flow::Unknown(reason) => {
                pairs.push(("unknown_flow".to_owned(), reason));
                assert(pairs_view(pairs@) =~= seq![(unknown_flow_key(), reason@)]);
            },
            _ => {
                assert(pairs_view(pairs@) =~= Seq::empty());
            },
        }
        Ok(pairs)
    }

    fn amount(&self) -> (r: Result<Amount, Error>) {
        let amount = pick(&self.row, "amount", AMOUNT_COLUMN, read_price)?;
        match self.flow()? {
            Flow::Income => Ok(amount.negate()),
            _ => Ok(amount),
        }
    }

    fn flow(&self) -> (r: Result<Flow, Error>) {
        let flow = pick(&self.row, "flow", FLOW_COLUMN, Self::default_transform)?;
        let status = self.status()?;
        if text_eq(status.as_str(), "已全额退款") || text_eq(status.as_str(), "提现已到账") {
            Ok(Flow::Unknown(status))
        } else {
            Ok(Flow::from(flow.as_str()))
        }
    }
}

/// The date of a row is the first run of non-whitespace characters of the date
/// column, whatever follows it; a row without that column, or with nothing but
/// whitespace in it, has no date.
pub proof fn lemma_date(t: Wechat)
    ensures
        match t.spec_date() {
            Ok(date) => DATE_COLUMN < t@.len() && first_token(t@[DATE_COLUMN as int]) == Some(date),
            Err(e) => {
                &&& e == missing_field("date"@, DATE_COLUMN as nat, t@)
                &&& DATE_COLUMN < t@.len() ==> first_token(t@[DATE_COLUMN as int]) is None
            },
        },
        forall|day: Seq<char>, gap: char, time: Seq<char>|
            #![trigger day + seq![gap] + time]
            {
                &&& DATE_COLUMN < t@.len()
                &&& t@[DATE_COLUMN as int] == day + seq![gap] + time
                &&& day.len() > 0
                &&& is_whitespace(gap)
                &&& forall|j: int| 0 <= j < day.len() ==> !is_whitespace(#[trigger] day[j])
            } ==> t.spec_date() == Ok::<Seq<char>, Failure>(day),
{
    assert forall|day: Seq<char>, gap: char, time: Seq<char>|
        #![trigger day + seq![gap] + time]
        {
            &&& DATE_COLUMN < t@.len()
            &&& t@[DATE_COLUMN as int] == day + seq![gap] + time
            &&& day.len() > 0
            &&& is_whitespace(gap)
            &&& forall|j: int| 0 <= j < day.len() ==> !is_whitespace(#[trigger] day[j])
        } implies t.spec_date() == Ok::<Seq<char>, Failure>(day) by {
        lemma_first_token_ignores_tail(day, gap, time);
    }
}

/// The amount of a row is the number in the amount column, negated where the row
/// is income and as it stands where it is an expense or of unknown flow.
pub proof fn lemma_amount_sign(t: Wechat)
    requires
        t.spec_amount() is Ok,
    ensures
        AMOUNT_COLUMN < t@.len(),
        parse_price(t@[AMOUNT_COLUMN as int]) is Some,
        t.spec_flow() is Ok,
        t.spec_flow()->Ok_0 is Income ==> t.spec_amount()->Ok_0 == parse_price(
            t@[AMOUNT_COLUMN as int],
        )->0.negated(),
        !(t.spec_flow()->Ok_0 is Income) ==> t.spec_amount()->Ok_0 == parse_price(
            t@[AMOUNT_COLUMN as int],
        )->0,
{
}

/// The account that funds a transaction of this platform unless the rules say
/// otherwise.
pub open spec fn default_fund() -> Seq<char> {
    "Assets:Wechat"@
}

/// `transactions` are the rows `rows`, one for one.
pub open spec fn reads(transactions: Seq<Wechat>, rows: Seq<Seq<Seq<char>>>) -> bool {
    &&& transactions.len() == rows.len()
    &&& forall|k: int| 0 <= k < rows.len() ==> (#[trigger] transactions[k])@ == rows[k]
}

/// The transactions of the export whose text is `contents`, in its order.
pub fn load(contents: &str) -> (r: Bean<Wechat>)
    ensures
        r.default_fund() == default_fund(),
        reads(r.transactions(), rows_of(contents@, HEADER_LINES as nat)),
{
    let parser = Parser::new(HEADER_LINES);
    let bean = Bean::new("Assets:Wechat");
    let r = parser.load(contents, bean, Wechat::new);
    proof {
        let rows = rows_of(contents@, HEADER_LINES as nat);
        assert forall|k: int| 0 <= k < rows.len() implies (#[trigger] r.transactions()[k])@
            == rows[k] by {
            assert(made_from(Wechat::new, rows[k], r.transactions()[k]));
        }
    }
    r
}

/// The ledger of the export whose text is `contents`, under `rules`.
pub fn import(contents: &str, rules: Rules) -> (r: Result<String, Error>)
    ensures
        exists|transactions: Seq<Wechat>|
            reads(transactions, rows_of(contents@, HEADER_LINES as nat)) && #[trigger] ledger_text(
                transactions,
                rules@,
                default_fund(),
                0,
            ) == text_outcome(r),
{
    let parser = Parser::new(HEADER_LINES);
    let bean = Bean::new("Assets:Wechat");
    let r = parser.output(contents, bean, Wechat::new, rules);
    proof {
        let rows = rows_of(contents@, HEADER_LINES as nat);
        let filled = choose|filled: Bean<Wechat>|
            filled_from(bean, rows, Wechat::new, filled) && #[trigger] ledger_text(
                filled.transactions(),
                rules@,
                filled.default_fund(),
                0,
            ) == text_outcome(r);
        let all = filled.transactions();
        assert forall|k: int| 0 <= k < rows.len() implies (#[trigger] all[k])@ == rows[k] by {
            assert(made_from(Wechat::new, rows[k], all[k]));
        }
        assert(reads(all, rows));
        assert(filled.default_fund() == default_fund());
        assert(ledger_text(all, rules@, default_fund(), 0) == text_outcome(r));
    }
    r
}

} // verus!
