//! Rows of delimited text and access to their columns.

use crate::bean::{ledger_text, Bean};
use crate::error::{copy_row, missing_field, Error, Failure};
use crate::rules::Rules;
use crate::text::{drop_lines, skip_lines};
use crate::transaction::{text_outcome, Transaction};
use csv::{ReaderBuilder, Trim};
use vstd::prelude::*;

verus! {

/// `transform` can give `out` for a text whose characters are `text`.
pub open spec fn yields<F, T>(transform: F, text: Seq<char>, out: Option<T>) -> bool
    where F: Fn(&str) -> Option<T>
{
    exists|s: &str| s@ == text && #[trigger] call_ensures(transform, (s,), out)
}

/// Column `i` of `record`, passed through `transform`. Fails with
/// [`Error::MissingField`] when the row has no column `i` or `transform` gives
/// `None` for it.
pub fn pick<F, T>(record: &Vec<String>, name: &str, i: usize, transform: F) -> (r: Result<T, Error>)
    where F: Fn(&str) -> Option<T>
    requires
        forall|s: &str| call_requires(transform, (s,)),
    ensures
        match r {
            Ok(t) => i < record.len() && yields(transform, record[i as int]@, Some(t)),
            Err(e) => {
                &&& e@ == missing_field(name@, i as nat, record.deep_view())
                &&& i < record.len() ==> yields(transform, record[i as int]@, None::<T>)
            },
        },
{
    if i < record.len() {
        let s = record[i].as_str();
        let picked = transform(s);
        assert(s@ == record[i as int]@ && call_ensures(transform, (s,), picked));
        match picked {
            Some(t) => Ok(t),
            None => Err(Error::missing(name, i, record)),
        }
    } else {
        Err(Error::missing(name, i, record))
    }
}

/// Column `i` of `row`, or the failure that names it as the missing `field`.
pub open spec fn column(row: Seq<Seq<char>>, field: Seq<char>, i: nat) -> Result<
    Seq<char>,
    Failure,
> {
    if i < row.len() {
        Ok(row[i as int])
    } else {
        Err(missing_field(field, i, row))
    }
}

/// Column `i` of `row` read by `read`, or the failure that names it as the missing
/// `field`: the column is absent, or `read` cannot make sense of it.
pub open spec fn column_as<T>(
    row: Seq<Seq<char>>,
    field: Seq<char>,
    i: nat,
    read: spec_fn(Seq<char>) -> Option<T>,
) -> Result<T, Failure> {
    if i < row.len() && read(row[i as int]) is Some {
        Ok(read(row[i as int])->0)
    } else {
        Err(missing_field(field, i, row))
    }
}

/// What the `csv` crate's reader gives for a text whose first record is a
/// header: for each record after the header, in order, its fields without the
/// whitespace around them, or `None` for a record that the reader refuses.
pub uninterp spec fn csv_records(text: Seq<char>) -> Seq<Option<Seq<Seq<char>>>>;

/// View of a list of records, each read or refused.
pub open spec fn records_view(records: Seq<Option<Vec<String>>>) -> Seq<Option<Seq<Seq<char>>>> {
    Seq::new(
        records.len(),
        |i: int|
            match records[i] {
                Some(fields) => Some(fields.deep_view()),
                None => None,
            },
    )
}

/// `csv::Reader::records` of a reader built with `Trim::All`, over the bytes of
/// `text`: each record handed out as its fields, each refusal as `None`, one for
/// one and in order.
#[verifier::external_body]
fn read_records(text: &str) -> (r: Vec<Option<Vec<String>>>)
    ensures
        records_view(r@) == csv_records(text@),
{
    let mut reader = ReaderBuilder::new().trim(Trim::All).from_reader(text.as_bytes());
    reader.records().map(
        |row| row.ok().map(|row| row.iter().map(|field| field.to_owned()).collect()),
    ).collect()
}

/// The records that were read, in order; those that were refused are left out.
pub open spec fn kept(records: Seq<Option<Seq<Seq<char>>>>) -> Seq<Seq<Seq<char>>>
    decreases records.len(),
{
    if records.len() == 0 {
        Seq::empty()
    } else {
        match records.last() {
            Some(fields) => kept(records.drop_last()).push(fields),
            None => kept(records.drop_last()),
        }
    }
}

/// Keeps the records that were read, in order, and drops those that were refused.
pub fn keep_read(records: Vec<Option<Vec<String>>>) -> (r: Vec<Vec<String>>)
    ensures
        r.deep_view() == kept(records_view(records@)),
{
    let ghost all = records_view(records@);
    let mut out: Vec<Vec<String>> = Vec::new();
    let mut i: usize = 0;
    assert(all.take(0) =~= Seq::empty());
    assert(out.deep_view() =~= Seq::empty());
    while i < records.len()
        invariant
            i <= records.len(),
            all == records_view(records@),
            out.deep_view() == kept(all.take(i as int)),
        decreases records.len() - i,
    {
        let ghost before = out.deep_view();
        assert(all.take(i + 1).drop_last() =~= all.take(i as int));
        assert(all.take(i + 1).last() == all[i as int]);
        match &records[i] {
            Some(fields) => {
                out.push(copy_row(fields));
                assert(out.deep_view() =~= before.push(fields.deep_view()));
            },
            None => {},
        }
        i = i + 1;
    }
    assert(all.take(records.len() as int) =~= all);
    out
}

/// The rows of an export: the records that are read from `contents` once its
/// first `header_lines` lines are dropped.
pub open spec fn rows_of(contents: Seq<char>, header_lines: nat) -> Seq<Seq<Seq<char>>> {
    kept(csv_records(drop_lines(contents, header_lines)))
}

/// `make` can give `made` for a row whose fields are `row`.
pub open spec fn made_from<F, T>(make: F, row: Seq<Seq<char>>, made: T) -> bool
    where F: Fn(Vec<String>) -> T
{
    exists|fields: Vec<String>| fields.deep_view() == row && #[trigger] call_ensures(
        make,
        (fields,),
        made,
    )
}

/// `after` is `before` with one transaction more for each of `rows`, in their
/// order, each made by `make` from its row.
pub open spec fn filled_from<F, T: Transaction>(
    before: Bean<T>,
    rows: Seq<Seq<Seq<char>>>,
    make: F,
    after: Bean<T>,
) -> bool where F: Fn(Vec<String>) -> T {
    &&& after.default_fund() == before.default_fund()
    &&& after.transactions().len() == before.transactions().len() + rows.len()
    &&& after.transactions().take(before.transactions().len() as int) == before.transactions()
    &&& forall|k: int|
        0 <= k < rows.len() ==> made_from(
            make,
            #[trigger] rows[k],
            after.transactions()[before.transactions().len() + k],
        )
}

/// Adds to `bean` one transaction for each of `rows`, made by `constructor`, in
/// the order of the rows.
pub fn fill<F, T: Transaction>(bean: Bean<T>, rows: &Vec<Vec<String>>, constructor: F) -> (r: Bean<
    T,
>) where F: Fn(Vec<String>) -> T
    requires
        forall|row: Vec<String>| call_requires(constructor, (row,)),
    ensures
        filled_from(bean, rows.deep_view(), constructor, r),
{
    let ghost all = rows.deep_view();
    let ghost base = bean.transactions().len() as int;
    let mut filled = bean;
    let mut i: usize = 0;
    assert(filled.transactions().take(base) =~= bean.transactions());
    while i < rows.len()
        invariant
            all == rows.deep_view(),
            base == bean.transactions().len(),
            forall|row: Vec<String>| call_requires(constructor, (row,)),
            i <= rows.len(),
            filled.default_fund() == bean.default_fund(),
            filled.transactions().len() == base + i,
            filled.transactions().take(base) == bean.transactions(),
            forall|k: int|
                0 <= k < i ==> made_from(
                    constructor,
                    #[trigger] all[k],
                    filled.transactions()[base + k],
                ),
        decreases rows.len() - i,
    {
        let ghost before = filled.transactions();
        let row = copy_row(&rows[i]);
        assert(row.deep_view() == all[i as int]);
        let made = constructor(row);
        assert(call_ensures(constructor, (row,), made));
        filled.add(made);
        assert(filled.transactions().take(base) =~= before.take(base));
        assert forall|m: int| 0 <= m < i + 1 implies made_from(
            constructor,
            #[trigger] all[m],
            filled.transactions()[base + m],
        ) by {
            if m < i {
                assert(filled.transactions()[base + m] == before[base + m]);
            }
        }
        i = i + 1;
    }
    filled
}

/// Reads the export of a platform, which writes some lines before the table.
pub struct Parser {
    header_line: usize,
}

impl Parser {
    /// Number of lines before the table.
    pub closed spec fn header_lines(&self) -> nat {
        self.header_line as nat
    }

    /// A parser for exports with `header_line` lines before the table.
    pub fn new(header_line: usize) -> (r: Self)
        ensures
            r.header_lines() == header_line,
    {
        Parser { header_line }
    }

    /// The rows of the export whose text is `contents`: the records after the
    /// lines before the table and after the heading of the table; a record that
    /// cannot be read is passed over.
    pub fn parse(&self, contents: &str) -> (r: Vec<Vec<String>>)
        ensures
            r.deep_view() == rows_of(contents@, self.header_lines()),
    {
        let table = skip_lines(contents, self.header_line);
        keep_read(read_records(table.as_str()))
    }

    /// Adds to `bean` one transaction for each row of the export whose text is
    /// `contents`, made by `constructor`, in the order of the rows.
    pub fn load<F, T: Transaction>(&self, contents: &str, bean: Bean<T>, constructor: F) -> (r:
        Bean<T>) where F: Fn(Vec<String>) -> T
        requires
            forall|row: Vec<String>| call_requires(constructor, (row,)),
        ensures
            filled_from(bean, rows_of(contents@, self.header_lines()), constructor, r),
    {
        fill(bean, &self.parse(contents), constructor)
    }

    /// The ledger of `bean` and of the rows of the export whose text is
    /// `contents`, under `rules`.
    pub fn output<F, T: Transaction>(
        &self,
        contents: &str,
        bean: Bean<T>,
        constructor: F,
        rules: Rules,
    ) -> (r: Result<String, Error>) where F: Fn(Vec<String>) -> T
        requires
            forall|row: Vec<String>| call_requires(constructor, (row,)),
        ensures
            exists|filled: Bean<T>|
                filled_from(bean, rows_of(contents@, self.header_lines()), constructor, filled)
                    && #[trigger] ledger_text(
                    filled.transactions(),
                    rules@,
                    filled.default_fund(),
                    0,
                ) == text_outcome(r),
    {
        let filled = self.load(contents, bean, constructor);
        let r = filled.output_with_rules(rules);
        assert(ledger_text(filled.transactions(), rules@, filled.default_fund(), 0)
            == text_outcome(r));
        r
    }
}

} // verus!
