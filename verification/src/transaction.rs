//! The uniform model of a transaction, whatever platform exported it.

use crate::amount::{Amount, Decimal};
use crate::error::{Error, Failure};
use crate::flow::{Flow, FlowKind};
use vstd::prelude::*;

verus! {

/// View of a text or the failure in its place.
pub open spec fn text_outcome(r: Result<String, Error>) -> Result<Seq<char>, Failure> {
    match r {
        Ok(s) => Ok(s@),
        Err(e) => Err(e@),
    }
}

/// View of an amount or the failure in its place.
pub open spec fn amount_outcome(r: Result<Amount, Error>) -> Result<Decimal, Failure> {
    match r {
        Ok(a) => Ok(a@),
        Err(e) => Err(e@),
    }
}

/// View of a flow or the failure in its place.
pub open spec fn flow_outcome(r: Result<Flow, Error>) -> Result<FlowKind, Failure> {
    match r {
        Ok(f) => Ok(f@),
        Err(e) => Err(e@),
    }
}

/// View of a list of metadata pairs.
pub open spec fn pairs_view(pairs: Seq<(String, String)>) -> Seq<(Seq<char>, Seq<char>)> {
    Seq::new(pairs.len(), |i: int| (pairs[i].0@, pairs[i].1@))
}

/// View of a list of metadata pairs or the failure in its place.
pub open spec fn pairs_outcome(r: Result<Vec<(String, String)>, Error>) -> Result<
    Seq<(Seq<char>, Seq<char>)>,
    Failure,
> {
    match r {
        Ok(v) => Ok(pairs_view(v@)),
        Err(e) => Err(e@),
    }
}

/// The amount as the ledger shows it: negated where the flow is income.
pub open spec fn signed(amount: Decimal, flow: FlowKind) -> Decimal {
    if flow is Income {
        amount.negated()
    } else {
        amount
    }
}

/// Income is shown negated; an expense and an unknown flow are shown as read.
pub proof fn lemma_signed(amount: Decimal, flow: FlowKind)
    ensures
        flow is Income ==> signed(amount, flow) == amount.negated(),
        flow is Expense || flow is Unknown ==> signed(amount, flow) == amount,
        signed(amount, flow).integer == amount.integer,
        signed(amount, flow).fraction == amount.fraction,
        signed(amount, flow).negative == (amount.negative != (flow is Income)),
{
}

/// What the ledger needs to know of one transaction. Each accessor either gives
/// its part or fails; the `spec_` function beside it says which.
pub trait Transaction {
    spec fn spec_date(&self) -> Result<Seq<char>, Failure>;

    spec fn spec_payee(&self) -> Result<Seq<char>, Failure>;

    spec fn spec_fund(&self) -> Result<Seq<char>, Failure>;

    spec fn spec_narration(&self) -> Result<Seq<char>, Failure>;

    spec fn spec_metadata(&self) -> Result<Seq<(Seq<char>, Seq<char>)>, Failure>;

    spec fn spec_amount(&self) -> Result<Decimal, Failure>;

    spec fn spec_flow(&self) -> Result<FlowKind, Failure>;

    /// Day of the transaction, `YYYY-MM-DD`.
    fn date(&self) -> (r: Result<String, Error>)
        ensures
            text_outcome(r) == self.spec_date(),
    ;

    /// The other party.
    fn payee(&self) -> (r: Result<String, Error>)
        ensures
            text_outcome(r) == self.spec_payee(),
    ;

    /// Where the money came from or went to; empty when the source does not say.
    fn fund(&self) -> (r: Result<String, Error>)
        ensures
            text_outcome(r) == self.spec_fund(),
    ;

    /// What the transaction was for.
    fn narration(&self) -> (r: Result<String, Error>)
        ensures
            text_outcome(r) == self.spec_narration(),
    ;

    /// Key and value pairs to print under the transaction's first line. A key
    /// begins with a lowercase letter and holds letters, digits, dashes and
    /// underscores.
    fn metadata(&self) -> (r: Result<Vec<(String, String)>, Error>)
        ensures
            pairs_outcome(r) == self.spec_metadata(),
    ;

    /// The signed amount as the ledger shows it: income negated.
    fn amount(&self) -> (r: Result<Amount, Error>)
        ensures
            amount_outcome(r) == self.spec_amount(),
    ;

    /// Whether money came in, went out, or neither can be said.
    fn flow(&self) -> (r: Result<Flow, Error>)
        ensures
            flow_outcome(r) == self.spec_flow(),
    ;
}

} // verus!
