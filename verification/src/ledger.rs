//! Adding to a ledger and removing from it.

use vstd::prelude::*;
use vstd::string::StringExecFns;
use crate::models::{Timestamp, Transaction, TransactionType, TransactionView, ledger_view};
use crate::text::current_time;

verus! {

/// The largest id among the entries, 0 where there is none.
pub open spec fn max_id(entries: Seq<TransactionView>) -> nat
    decreases entries.len(),
{
    if entries.len() == 0 {
        0
    } else {
        let rest = max_id(entries.drop_last());
        if entries.last().id as nat > rest {
            entries.last().id as nat
        } else {
            rest
        }
    }
}

/// The entries whose id differs from `id`, in their order.
pub open spec fn without_id(entries: Seq<TransactionView>, id: u32) -> Seq<TransactionView>
    decreases entries.len(),
{
    if entries.len() == 0 {
        Seq::empty()
    } else {
        let rest = without_id(entries.drop_last(), id);
        if entries.last().id == id {
            rest
        } else {
            rest.push(entries.last())
        }
    }
}

/// Whether some entry carries `id`.
pub open spec fn has_id(entries: Seq<TransactionView>, id: u32) -> bool {
    exists|i: int| 0 <= i < entries.len() && #[trigger] entries[i].id == id
}

/// Whether no two entries share an id.
pub open spec fn ids_unique(entries: Seq<TransactionView>) -> bool {
    forall|i: int, j: int|
        0 <= i < j < entries.len() ==> #[trigger] entries[i].id != #[trigger] entries[j].id
}

/// The largest id in the ledger, 0 where it is empty.
pub fn highest_id(ledger: &Vec<Transaction>) -> (top: u32)
    ensures
        top as nat == max_id(ledger_view(ledger@)),
{
    let mut top: u32 = 0;
    let mut i: usize = 0;
    while i < ledger.len()
        invariant
            i <= ledger.len(),
            top as nat == max_id(ledger_view(ledger@).take(i as int)),
        decreases ledger.len() - i,
    {
        proof {
            let v = ledger_view(ledger@);
            assert(v.take(i + 1).drop_last() =~= v.take(i as int));
            assert(v.take(i + 1).last() == v[i as int]);
        }
        if ledger[i].id > top {
            top = ledger[i].id;
        }
        i += 1;
    }
    proof {
        let v = ledger_view(ledger@);
        assert(v.take(i as int) =~= v);
    }
    top
}

/// The id that the next entry gets: one more than the largest in the ledger.
/// There is none once the largest id is the largest number an id can hold.
pub fn next_id(ledger: &Vec<Transaction>) -> (id: Option<u32>)
    ensures
        id == (if max_id(ledger_view(ledger@)) < u32::MAX {
            Some((max_id(ledger_view(ledger@)) + 1) as u32)
        } else {
            None
        }),
{
    let top = highest_id(ledger);
    if top < u32::MAX {
        Some(top + 1)
    } else {
        None
    }
}

/// How an attempt to add a transaction ended.
#[derive(Debug, Clone, Copy, PartialEq, Eq, Structural)]
pub enum AddOutcome {
    /// The entry was appended under this id; the ledger is to be saved.
    Added(u32),
    /// No id is left; the ledger is untouched.
    IdsExhausted,
}

/// The entry that an add appends to `entries`.
pub open spec fn new_entry(
    entries: Seq<TransactionView>,
    amount: u64,
    category: Seq<char>,
    is_income: bool,
    date: Timestamp,
) -> TransactionView {
    TransactionView {
        id: (max_id(entries) + 1) as u32,
        amount,
        category,
        date,
        transaction_type: if is_income {
            TransactionType::Income
        } else {
            TransactionType::Expense
        },
    }
}

/// Appends a transaction under the next id, with the given creation time.
/// The older entries stay as they are, in their order.
pub fn add_transaction_at(
    ledger: &mut Vec<Transaction>,
    amount: u64,
    category: &str,
    is_income: bool,
    date: Timestamp,
) -> (outcome: AddOutcome)
    ensures
        max_id(ledger_view(old(ledger)@)) < u32::MAX ==> {
            &&& outcome == AddOutcome::Added((max_id(ledger_view(old(ledger)@)) + 1) as u32)
            &&& ledger_view(final(ledger)@) == ledger_view(old(ledger)@).push(
                new_entry(ledger_view(old(ledger)@), amount, category@, is_income, date),
            )
        },
        max_id(ledger_view(old(ledger)@)) >= u32::MAX ==> {
            &&& outcome == AddOutcome::IdsExhausted
            &&& ledger_view(final(ledger)@) == ledger_view(old(ledger)@)
        },
{
    match next_id(ledger) {
        Some(id) => {
            let entry = Transaction {
                id,
                amount,
                category: String::from_str(category),
                date,
                transaction_type: TransactionType::from_income_flag(is_income),
            };
            ledger.push(entry);
            proof {
                assert(ledger_view(ledger@) =~= ledger_view(old(ledger)@).push(
                    new_entry(ledger_view(old(ledger)@), amount, category@, is_income, date),
                ));
            }
            AddOutcome::Added(id)
        },
        None => AddOutcome::IdsExhausted,
    }
}

/// Whether `after` is `before` with one transaction added at some moment.
pub open spec fn added_to(
    before: Seq<TransactionView>,
    after: Seq<TransactionView>,
    amount: u64,
    category: Seq<char>,
    is_income: bool,
) -> bool {
    exists|date: Timestamp| after == before.push(new_entry(before, amount, category, is_income, date))
}

/// Appends a transaction under the next id, created now by the machine's
/// clock. The older entries stay as they are, in their order.
pub fn add_transaction(
    ledger: &mut Vec<Transaction>,
    amount: u64,
    category: &str,
    is_income: bool,
) -> (outcome: AddOutcome)
    ensures
        max_id(ledger_view(old(ledger)@)) < u32::MAX ==> {
            &&& outcome == AddOutcome::Added((max_id(ledger_view(old(ledger)@)) + 1) as u32)
            &&& added_to(
                ledger_view(old(ledger)@),
                ledger_view(final(ledger)@),
                amount,
                category@,
                is_income,
            )
        },
        max_id(ledger_view(old(ledger)@)) >= u32::MAX ==> {
            &&& outcome == AddOutcome::IdsExhausted
            &&& ledger_view(final(ledger)@) == ledger_view(old(ledger)@)
        },
{
    let now = current_time();
    add_transaction_at(ledger, amount, category, is_income, now)
}

/// How an attempt to delete a transaction ended.
#[derive(Debug, Clone, Copy, PartialEq, Eq, Structural)]
pub enum DeleteOutcome {
    /// Entries with the id were removed; the ledger is to be saved.
    Deleted,
    /// No entry has the id; the ledger is untouched and is not saved.
    NotFound,
}

/// Removes every entry whose id is `id`; the others keep their order.
pub fn delete_transaction(ledger: &mut Vec<Transaction>, id: u32) -> (outcome: DeleteOutcome)
    ensures
        ledger_view(final(ledger)@) == without_id(ledger_view(old(ledger)@), id),
        outcome == (if has_id(ledger_view(old(ledger)@), id) {
            DeleteOutcome::Deleted
        } else {
            DeleteOutcome::NotFound
        }),
        outcome == DeleteOutcome::NotFound ==> final(ledger)@ == old(ledger)@,
{
    let mut kept: Vec<Transaction> = Vec::new();
    let mut i: usize = 0;
    while i < ledger.len()
        invariant
            i <= ledger.len(),
            ledger_view(kept@) == without_id(ledger_view(ledger@).take(i as int), id),
            kept.len() <= i,
            kept.len() == i <==> !has_id(ledger_view(ledger@).take(i as int), id),
        decreases ledger.len() - i,
    {
        proof {
            let v = ledger_view(ledger@);
            assert(v.take(i + 1).drop_last() =~= v.take(i as int));
            assert(v.take(i + 1).last() == v[i as int]);
            if has_id(v.take(i as int), id) {
                let k = choose|k: int| 0 <= k < v.take(i as int).len() && #[trigger] v.take(i as int)[k].id == id;
                assert(v.take(i + 1)[k].id == id);
            }
            if v[i as int].id == id {
                assert(v.take(i + 1)[i as int].id == id);
            }
            if has_id(v.take(i + 1), id) && v[i as int].id != id {
                let k = choose|k: int| 0 <= k < v.take(i + 1).len() && #[trigger] v.take(i + 1)[k].id == id;
                assert(v.take(i as int)[k].id == id);
            }
        }
        if ledger[i].id != id {
            let copy = ledger[i].duplicate();
            kept.push(copy);
            proof {
                let v = ledger_view(ledger@);
                assert(ledger_view(kept@) =~= without_id(v.take(i as int), id).push(v[i as int]));
            }
        }
        i += 1;
    }
    proof {
        let v = ledger_view(ledger@);
        assert(v.take(i as int) =~= v);
    }
    if kept.len() == ledger.len() {
        proof {
            lemma_without_absent_id(ledger_view(ledger@), id);
        }
        DeleteOutcome::NotFound
    } else {
        *ledger = kept;
        DeleteOutcome::Deleted
    }
}

/// Removing an id that no entry carries leaves every entry in place.
pub proof fn lemma_without_absent_id(entries: Seq<TransactionView>, id: u32)
    requires
        !has_id(entries, id),
    ensures
        without_id(entries, id) == entries,
    decreases entries.len(),
{
    if entries.len() > 0 {
        let front = entries.drop_last();
        assert(entries.last() == entries[entries.len() - 1]);
        if has_id(front, id) {
            let k = choose|k: int| 0 <= k < front.len() && #[trigger] front[k].id == id;
            assert(entries[k].id == id);
        }
        lemma_without_absent_id(front, id);
        assert(front.push(entries.last()) =~= entries);
    } else {
        assert(without_id(entries, id) =~= entries);
    }
}

} // verus!
