//! The ledger's data: transactions, their kind, and their moment of creation.

use vstd::prelude::*;
use vstd::string::StringExecFns;

verus! {

/// Whether a transaction brings money in or takes it out.
#[derive(Debug, Clone, Copy, PartialEq, Eq, Structural)]
pub enum TransactionType {
    Income,
    Expense,
}

/// The text that stands for a transaction type on screen and on disk.
pub open spec fn type_label(kind: TransactionType) -> Seq<char> {
    match kind {
        TransactionType::Income => "Income"@,
        TransactionType::Expense => "Expense"@,
    }
}

impl TransactionType {
    /// The type of a transaction entered with or without the income flag.
    pub fn from_income_flag(is_income: bool) -> (kind: TransactionType)
        ensures
            kind == (if is_income { TransactionType::Income } else { TransactionType::Expense }),
    {
        if is_income {
            TransactionType::Income
        } else {
            TransactionType::Expense
        }
    }

    /// Renders the type as `Income` or `Expense`.
    pub fn label(&self) -> (text: String)
        ensures
            text@ == type_label(*self),
    {
        match self {
            TransactionType::Income => String::from_str("Income"),
            TransactionType::Expense => String::from_str("Expense"),
        }
    }
}

/// An instant: seconds since the Unix epoch, and nanoseconds within the second.
#[derive(Debug, Clone, Copy, PartialEq, Eq, Structural)]
pub struct Timestamp {
    pub seconds: i64,
    pub nanos: u32,
}

/// One ledger entry. `amount` is the bit pattern of a binary64 number.
#[derive(Debug, Clone, PartialEq, Eq)]
pub struct Transaction {
    pub id: u32,
    pub amount: u64,
    pub category: String,
    pub date: Timestamp,
    pub transaction_type: TransactionType,
}

/// What a transaction holds, as plain values.
pub struct TransactionView {
    pub id: u32,
    pub amount: u64,
    pub category: Seq<char>,
    pub date: Timestamp,
    pub transaction_type: TransactionType,
}

impl View for Transaction {
    type V = TransactionView;

    open spec fn view(&self) -> TransactionView {
        TransactionView {
            id: self.id,
            amount: self.amount,
            category: self.category@,
            date: self.date,
            transaction_type: self.transaction_type,
        }
    }
}

impl Transaction {
    /// A copy with the same contents.
    pub fn duplicate(&self) -> (copy: Transaction)
        ensures
            copy@ == self@,
    {
        Transaction {
            id: self.id,
            amount: self.amount,
            category: self.category.clone(),
            date: self.date,
            transaction_type: self.transaction_type,
        }
    }
}

/// A spending limit for one category. `limit` and `current` are bit patterns
/// of binary64 numbers. No operation of the ledger reads a budget.
#[derive(Debug, Clone, PartialEq, Eq)]
pub struct Budget {
    pub category: String,
    pub limit: u64,
    pub current: u64,
}

/// The contents of a ledger, entry by entry, in insertion order.
pub open spec fn ledger_view(entries: Seq<Transaction>) -> Seq<TransactionView> {
    entries.map_values(|t: Transaction| t@)
}

} // verus!
