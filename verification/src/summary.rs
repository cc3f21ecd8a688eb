//! The summary: which entries count as income and which as expense, and how
//! each side falls into categories. Entries are named by their position in
//! the ledger, so that whoever adds the amounts up does so in ledger order.

use vstd::prelude::*;
use crate::models::{Transaction, TransactionType, TransactionView, ledger_view};

verus! {

/// The positions of the entries of one type, ascending.
pub open spec fn positions_of_type(entries: Seq<TransactionView>, kind: TransactionType) -> Seq<
    usize,
>
    decreases entries.len(),
{
    if entries.len() == 0 {
        Seq::empty()
    } else {
        let rest = positions_of_type(entries.drop_last(), kind);
        if entries.last().transaction_type == kind {
            rest.push((entries.len() - 1) as usize)
        } else {
            rest
        }
    }
}

/// The positions of the entries of one type and one category, ascending.
pub open spec fn positions_of_category(
    entries: Seq<TransactionView>,
    kind: TransactionType,
    category: Seq<char>,
) -> Seq<usize>
    decreases entries.len(),
{
    if entries.len() == 0 {
        Seq::empty()
    } else {
        let rest = positions_of_category(entries.drop_last(), kind, category);
        if entries.last().transaction_type == kind && entries.last().category == category {
            rest.push((entries.len() - 1) as usize)
        } else {
            rest
        }
    }
}

/// The categories that occur among the entries of one type, each once, in the
/// order in which they first occur.
pub open spec fn categories_of_type(entries: Seq<TransactionView>, kind: TransactionType) -> Seq<
    Seq<char>,
>
    decreases entries.len(),
{
    if entries.len() == 0 {
        Seq::empty()
    } else {
        let rest = categories_of_type(entries.drop_last(), kind);
        if entries.last().transaction_type == kind && !rest.contains(entries.last().category) {
            rest.push(entries.last().category)
        } else {
            rest
        }
    }
}

/// The entries of one category.
#[derive(Debug, Clone, PartialEq, Eq)]
pub struct CategoryGroup {
    pub category: String,
    /// Positions in the ledger, ascending.
    pub entries: Vec<usize>,
}

/// A category group as plain values.
pub struct CategoryGroupView {
    pub category: Seq<char>,
    pub entries: Seq<usize>,
}

impl View for CategoryGroup {
    type V = CategoryGroupView;

    open spec fn view(&self) -> CategoryGroupView {
        CategoryGroupView { category: self.category@, entries: self.entries@ }
    }
}

/// One side of the summary: all entries of a type, and their groups.
#[derive(Debug, Clone, PartialEq, Eq)]
pub struct TypeSummary {
    /// Positions in the ledger of every entry of the type, ascending.
    pub entries: Vec<usize>,
    /// One group per category, in order of first occurrence.
    pub groups: Vec<CategoryGroup>,
}

/// Both sides of the summary.
#[derive(Debug, Clone, PartialEq, Eq)]
pub struct Summary {
    pub income: TypeSummary,
    pub expense: TypeSummary,
}

/// The groups of one type: one per category of `categories_of_type`, in that
/// order, each with the positions of its entries.
pub open spec fn groups_of_type(entries: Seq<TransactionView>, kind: TransactionType) -> Seq<
    CategoryGroupView,
> {
    categories_of_type(entries, kind).map_values(
        |category: Seq<char>|
            CategoryGroupView {
                category,
                entries: positions_of_category(entries, kind, category),
            },
    )
}

/// The views of a list of groups, in order.
pub open spec fn groups_view(groups: Seq<CategoryGroup>) -> Seq<CategoryGroupView> {
    groups.map_values(|g: CategoryGroup| g@)
}

impl TypeSummary {
    /// Whether this is the summary of the entries of `kind` in `entries`.
    pub open spec fn describes(&self, entries: Seq<TransactionView>, kind: TransactionType) -> bool {
        &&& self.entries@ == positions_of_type(entries, kind)
        &&& groups_view(self.groups@) == groups_of_type(entries, kind)
    }
}

fn entries_of_type(ledger: &Vec<Transaction>, kind: TransactionType) -> (found: Vec<usize>)
    ensures
        found@ == positions_of_type(ledger_view(ledger@), kind),
{
    let mut found: Vec<usize> = Vec::new();
    let mut i: usize = 0;
    while i < ledger.len()
        invariant
            i <= ledger.len(),
            found@ == positions_of_type(ledger_view(ledger@).take(i as int), kind),
        decreases ledger.len() - i,
    {
        proof {
            let v = ledger_view(ledger@);
            assert(v.take(i + 1).drop_last() =~= v.take(i as int));
            assert(v.take(i + 1).last() == v[i as int]);
        }
        if ledger[i].transaction_type == kind {
            found.push(i);
        }
        i += 1;
    }
    proof {
        let v = ledger_view(ledger@);
        assert(v.take(i as int) =~= v);
    }
    found
}

fn entries_of_category(ledger: &Vec<Transaction>, kind: TransactionType, category: &String) -> (found:
    Vec<usize>)
    ensures
        found@ == positions_of_category(ledger_view(ledger@), kind, category@),
{
    let mut found: Vec<usize> = Vec::new();
    let mut i: usize = 0;
    while i < ledger.len()
        invariant
            i <= ledger.len(),
            found@ == positions_of_category(ledger_view(ledger@).take(i as int), kind, category@),
        decreases ledger.len() - i,
    {
        proof {
            let v = ledger_view(ledger@);
            assert(v.take(i + 1).drop_last() =~= v.take(i as int));
            assert(v.take(i + 1).last() == v[i as int]);
        }
        if ledger[i].transaction_type == kind && ledger[i].category == *category {
            found.push(i);
        }
        i += 1;
    }
    proof {
        let v = ledger_view(ledger@);
        assert(v.take(i as int) =~= v);
    }
    found
}

fn holds_category(groups: &Vec<CategoryGroup>, category: &String) -> (held: bool)
    ensures
        held == exists|k: int| 0 <= k < groups.len() && #[trigger] groups[k].category@ == category@,
{
    let mut k: usize = 0;
    while k < groups.len()
        invariant
            k <= groups.len(),
            forall|j: int| 0 <= j < k ==> #[trigger] groups[j].category@ != category@,
        decreases groups.len() - k,
    {
        if groups[k].category == *category {
            return true;
        }
        k += 1;
    }
    false
}

/// The summary of one type: every entry of the type, and the entries of each
/// of its categories.
pub fn summarize_type(ledger: &Vec<Transaction>, kind: TransactionType) -> (side: TypeSummary)
    ensures
        side.describes(ledger_view(ledger@), kind),
{
    let entries = entries_of_type(ledger, kind);
    let mut groups: Vec<CategoryGroup> = Vec::new();
    let mut i: usize = 0;
    while i < ledger.len()
        invariant
            i <= ledger.len(),
            groups.len() == categories_of_type(ledger_view(ledger@).take(i as int), kind).len(),
            forall|k: int|
                0 <= k < groups.len() ==> {
                    &&& (#[trigger] groups[k]).category@ == categories_of_type(
                        ledger_view(ledger@).take(i as int),
                        kind,
                    )[k]
                    &&& groups[k].entries@ == positions_of_category(
                        ledger_view(ledger@),
                        kind,
                        groups[k].category@,
                    )
                },
        decreases ledger.len() - i,
    {
        proof {
            let v = ledger_view(ledger@);
            assert(v.take(i + 1).drop_last() =~= v.take(i as int));
            assert(v.take(i + 1).last() == v[i as int]);
        }
        let ghost seen = categories_of_type(ledger_view(ledger@).take(i as int), kind);
        if ledger[i].transaction_type == kind {
            let held = holds_category(&groups, &ledger[i].category);
            proof {
                if held {
                    let k = choose|k: int|
                        0 <= k < groups.len() && #[trigger] groups[k].category@
                            == ledger[i as int].category@;
                    assert(seen[k] == ledger[i as int].category@);
                } else if seen.contains(ledger[i as int].category@) {
                    let k = choose|k: int|
                        0 <= k < seen.len() && seen[k] == ledger[i as int].category@;
                    assert(groups[k].category@ == ledger[i as int].category@);
                }
                assert(held == seen.contains(ledger[i as int].category@));
            }
            if !held {
                let category = ledger[i].category.clone();
                let members = entries_of_category(ledger, kind, &category);
                groups.push(CategoryGroup { category, entries: members });
            }
        }
        i += 1;
    }
    proof {
        let v = ledger_view(ledger@);
        assert(v.take(i as int) =~= v);
        assert(groups_view(groups@) =~= groups_of_type(v, kind));
    }
    TypeSummary { entries, groups }
}

/// The summary of a ledger. Nothing in the ledger changes.
pub fn show_summary(ledger: &Vec<Transaction>) -> (summary: Summary)
    ensures
        summary.income.describes(ledger_view(ledger@), TransactionType::Income),
        summary.expense.describes(ledger_view(ledger@), TransactionType::Expense),
{
    Summary {
        income: summarize_type(ledger, TransactionType::Income),
        expense: summarize_type(ledger, TransactionType::Expense),
    }
}

} // verus!
