//! Classification of a transaction as income, expense or neither.

use crate::text::text_eq;
use vstd::prelude::*;
use vstd::std_specs::convert::FromSpecImpl;

verus! {

/// Direction of a transaction as the exporting platform reports it.
#[derive(Clone, Debug)]
pub enum Flow {
    Income,
    Expense,
    /// Anything else; carries the text that could not be classified.
    Unknown(String),
}

/// Mathematical view of a [`Flow`].
pub enum FlowKind {
    Income,
    Expense,
    Unknown(Seq<char>),
}

impl View for Flow {
    type V = FlowKind;

    open spec fn view(&self) -> FlowKind {
        match self {
            Flow::Income => FlowKind::Income,
            Flow::Expense => FlowKind::Expense,
            Flow::Unknown(s) => FlowKind::Unknown(s@),
        }
    }
}

/// The platform's word for money received.
pub open spec fn income_word() -> Seq<char> {
    "收入"@
}

/// The platform's word for money spent.
pub open spec fn expense_word() -> Seq<char> {
    "支出"@
}

/// The flow that the platform's text `s` stands for.
pub open spec fn classify(s: Seq<char>) -> FlowKind {
    if s == income_word() {
        FlowKind::Income
    } else if s == expense_word() {
        FlowKind::Expense
    } else {
        FlowKind::Unknown(s)
    }
}

impl Flow {
    /// True exactly for the `Unknown` variant.
    pub fn is_unknown(&self) -> (r: bool)
        ensures
            r == (self@ is Unknown),
    {
        match self {
            Flow::Unknown(_) => true,
            _ => false,
        }
    }
}

impl Flow {
    /// Another flow of the same kind and reason.
    pub fn copy(&self) -> (r: Flow)
        ensures
            r@ == self@,
    {
        match self {
            Flow::Income => Flow::Income,
            Flow::Expense => Flow::Expense,
            Flow::Unknown(reason) => Flow::Unknown(reason.clone()),
        }
    }
}

/// `from` makes a text of its own for an unknown flow, which no spec function can
/// name: what it returns is stated by its `ensures`, not by `from_spec`.
impl FromSpecImpl<&str> for Flow {
    open spec fn obeys_from_spec() -> bool {
        false
    }

    open spec fn from_spec(s: &str) -> Flow {
        Flow::Income
    }
}

impl From<&str> for Flow {
    /// Classifies the platform's text.
    fn from(s: &str) -> (r: Flow)
        ensures
            r@ == classify(s@),
    {
        if text_eq(s, "收入") {
            Flow::Income
        } else if text_eq(s, "支出") {
            Flow::Expense
        } else {
            Flow::Unknown(s.to_owned())
        }
    }
}

impl Default for Flow {
    /// `Unknown("default")`.
    fn default() -> (r: Flow)
        ensures
            r@ == FlowKind::Unknown("default"@),
    {
        Flow::Unknown("default".to_owned())
    }
}

} // verus!
