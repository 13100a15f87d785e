//! A transaction given by its parts, for sources that need no adapter.

use crate::amount::{Amount, Decimal};
use crate::error::{Error, Failure};
use crate::flow::{Flow, FlowKind};
use crate::transaction::{pairs_view, Transaction};
use vstd::prelude::*;

verus! {

/// A transaction whose parts are all known.
#[derive(Clone, Debug)]
pub struct Record {
    pub date: String,
    pub payee: String,
    pub narration: String,
    pub fund: String,
    pub amount: Amount,
    pub flow: Flow,
    pub metadata: Vec<(String, String)>,
}

/// A copy of a list of metadata pairs.
fn copy_pairs(pairs: &Vec<(String, String)>) -> (r: Vec<(String, String)>)
    ensures
        pairs_view(r@) == pairs_view(pairs@),
{
    let mut out: Vec<(String, String)> = Vec::new();
    let mut i: usize = 0;
    while i < pairs.len()
        invariant
            i <= pairs.len(),
            out.len() == i,
            forall|j: int| 0 <= j < i ==> out@[j].0@ == pairs@[j].0@ && out@[j].1@ == pairs@[j].1@,
        decreases pairs.len() - i,
    {
        out.push((pairs[i].0.clone(), pairs[i].1.clone()));
        i = i + 1;
    }
    assert(pairs_view(out@) =~= pairs_view(pairs@));
    out
}

impl Default for Record {
    /// Empty texts, the amount zero, and the flow that [`Flow::default`] gives.
    fn default() -> (r: Record)
        ensures
            r.date@ == Seq::<char>::empty(),
            r.payee@ == Seq::<char>::empty(),
            r.narration@ == Seq::<char>::empty(),
            r.fund@ == Seq::<char>::empty(),
            r.amount@ == Amount::zero_value(),
            r.flow@ == FlowKind::Unknown("default"@),
            r.metadata@ == Seq::<(String, String)>::empty(),
    {
        Record {
            date: String::new(),
            payee: String::new(),
            narration: String::new(),
            fund: String::new(),
            amount: Amount::zero(),
            flow: Flow::default(),
            metadata: Vec::new(),
        }
    }
}

impl Transaction for Record {
    open spec fn spec_date(&self) -> Result<Seq<char>, Failure> {
        Ok(self.date@)
    }

    open spec fn spec_payee(&self) -> Result<Seq<char>, Failure> {
        Ok(self.payee@)
    }

    open spec fn spec_fund(&self) -> Result<Seq<char>, Failure> {
        Ok(self.fund@)
    }

    open spec fn spec_narration(&self) -> Result<Seq<char>, Failure> {
        Ok(self.narration@)
    }

    open spec fn spec_metadata(&self) -> Result<Seq<(Seq<char>, Seq<char>)>, Failure> {
        Ok(pairs_view(self.metadata@))
    }

    open spec fn spec_amount(&self) -> Result<Decimal, Failure> {
        Ok(self.amount@)
    }

    open spec fn spec_flow(&self) -> Result<FlowKind, Failure> {
        Ok(self.flow@)
    }

    fn date(&self) -> (r: Result<String, Error>) {
        Ok(self.date.clone())
    }

    fn payee(&self) -> (r: Result<String, Error>) {
        Ok(self.payee.clone())
    }

    fn fund(&self) -> (r: Result<String, Error>) {
        Ok(self.fund.clone())
    }

    fn narration(&self) -> (r: Result<String, Error>) {
        Ok(self.narration.clone())
    }

    fn metadata(&self) -> (r: Result<Vec<(String, String)>, Error>) {
        Ok(copy_pairs(&self.metadata))
    }

    fn amount(&self) -> (r: Result<Amount, Error>) {
        Ok(self.amount.copy())
    }

    fn flow(&self) -> (r: Result<Flow, Error>) {
        Ok(self.flow.copy())
    }
}

} // verus!
