//! A personal finance ledger: income and expense transactions, the rules by
//! which they are added, removed, listed and summarised, and the reading of
//! interactive command lines.
//!
//! Amounts are IEEE-754 binary64 numbers carried as their bit patterns; the
//! library never does arithmetic on them.

pub mod models;
pub mod ledger;
pub mod text;
pub mod interactive;
pub mod report;
pub mod summary;
pub mod laws;
