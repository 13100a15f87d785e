//! Turns the exports of payment platforms into a plain-text ledger.
//!
//! An export is read into rows ([`importers::csv`]), each row is seen as a
//! transaction through the adapter of its platform ([`importers::alipay`],
//! [`importers::wechat`]), the payees and funds of the transactions are merged
//! into the rules document ([`rules`]), which the operator may be asked to edit
//! ([`session`]), and the ledger is printed under the rules ([`bean`]).

pub mod amount;
pub mod bean;
pub mod error;
pub mod flow;
pub mod importers;
pub mod record;
pub mod rules;
pub mod session;
pub mod text;
pub mod transaction;
