//! What holds of the ledger's operations taken together.

use vstd::prelude::*;
use crate::ledger::{has_id, ids_unique, max_id, new_entry, without_id};
use crate::models::{Timestamp, TransactionType, TransactionView};
use crate::summary::{categories_of_type, positions_of_category, positions_of_type};
use crate::text::{
    decimal_digits, digit_char, digits_value, id_of_text, is_digit, is_space, whitespace_words,
};

verus! {

/// No entry has an id above the largest id.
pub proof fn law_max_id_bounds(entries: Seq<TransactionView>)
    ensures
        forall|i: int| 0 <= i < entries.len() ==> (#[trigger] entries[i]).id as nat <= max_id(entries),
    decreases entries.len(),
{
    if entries.len() > 0 {
        law_max_id_bounds(entries.drop_last());
        assert forall|i: int| 0 <= i < entries.len() implies (#[trigger] entries[i]).id as nat
            <= max_id(entries) by {
            if i < entries.len() - 1 {
                assert(entries.drop_last()[i] == entries[i]);
            }
        }
    }
}

/// The first entry of an empty ledger gets id 1.
pub proof fn law_first_id(amount: u64, category: Seq<char>, is_income: bool, date: Timestamp)
    ensures
        new_entry(Seq::empty(), amount, category, is_income, date).id == 1,
{
}

/// The largest id of a ledger that holds an entry is the id of one of them.
pub proof fn law_max_id_is_held(entries: Seq<TransactionView>)
    requires
        entries.len() > 0,
    ensures
        exists|i: int| 0 <= i < entries.len() && (#[trigger] entries[i]).id as nat == max_id(entries),
    decreases entries.len(),
{
    let front = entries.drop_last();
    if entries.last().id as nat > max_id(front) || front.len() == 0 {
        assert(entries[entries.len() - 1].id as nat == max_id(entries));
    } else {
        law_max_id_is_held(front);
        let i = choose|i: int| 0 <= i < front.len() && (#[trigger] front[i]).id as nat == max_id(front);
        assert(entries[i].id as nat == max_id(entries));
    }
}

/// A new entry's id is above every id in the ledger, so a ledger whose ids
/// are unique keeps them unique when an entry is added.
pub proof fn law_add_keeps_ids_unique(
    entries: Seq<TransactionView>,
    amount: u64,
    category: Seq<char>,
    is_income: bool,
    date: Timestamp,
)
    requires
        ids_unique(entries),
        max_id(entries) < u32::MAX,
    ensures
        forall|i: int|
            0 <= i < entries.len() ==> (#[trigger] entries[i]).id < new_entry(
                entries,
                amount,
                category,
                is_income,
                date,
            ).id,
        ids_unique(entries.push(new_entry(entries, amount, category, is_income, date))),
{
    law_max_id_bounds(entries);
}

/// What a delete leaves: no entry with the id, and never more entries than
/// there were.
pub proof fn law_delete_removes_id(entries: Seq<TransactionView>, id: u32)
    ensures
        !has_id(without_id(entries, id), id),
        without_id(entries, id).len() <= entries.len(),
        forall|k: int|
            0 <= k < without_id(entries, id).len() ==> has_id(
                entries,
                (#[trigger] without_id(entries, id)[k]).id,
            ),
    decreases entries.len(),
{
    if entries.len() > 0 {
        let front = entries.drop_last();
        law_delete_removes_id(front, id);
        let left = without_id(entries, id);
        assert forall|k: int| 0 <= k < left.len() implies has_id(entries, (#[trigger] left[k]).id) by {
            if k < without_id(front, id).len() {
                let wanted = without_id(front, id)[k].id;
                assert(has_id(front, wanted));
                let j = choose|j: int| 0 <= j < front.len() && #[trigger] front[j].id == wanted;
                assert(entries[j].id == wanted);
            } else {
                assert(entries[entries.len() - 1].id == left[k].id);
            }
        }
        if has_id(left, id) {
            let k = choose|k: int| 0 <= k < left.len() && #[trigger] left[k].id == id;
            if k < without_id(front, id).len() {
                assert(without_id(front, id)[k].id == id);
            }
        }
    }
}

/// A delete that finds its id leaves fewer entries than there were.
pub proof fn law_delete_shrinks(entries: Seq<TransactionView>, id: u32)
    requires
        has_id(entries, id),
    ensures
        without_id(entries, id).len() < entries.len(),
    decreases entries.len(),
{
    let front = entries.drop_last();
    law_delete_removes_id(front, id);
    if entries.last().id != id {
        let k = choose|k: int| 0 <= k < entries.len() && #[trigger] entries[k].id == id;
        assert(front[k].id == id);
        law_delete_shrinks(front, id);
    }
}

/// In a ledger whose ids are unique, a delete that finds its id removes
/// exactly one entry.
pub proof fn law_delete_removes_one(entries: Seq<TransactionView>, id: u32)
    requires
        ids_unique(entries),
        has_id(entries, id),
    ensures
        without_id(entries, id).len() == entries.len() - 1,
    decreases entries.len(),
{
    let front = entries.drop_last();
    assert forall|i: int, j: int| 0 <= i < j < front.len() implies #[trigger] front[i].id
        != #[trigger] front[j].id by {
        assert(entries[i].id != entries[j].id);
    }
    if entries.last().id == id {
        if has_id(front, id) {
            let k = choose|k: int| 0 <= k < front.len() && #[trigger] front[k].id == id;
            assert(entries[k].id != entries[entries.len() - 1].id);
        }
        crate::ledger::lemma_without_absent_id(front, id);
    } else {
        let k = choose|k: int| 0 <= k < entries.len() && #[trigger] entries[k].id == id;
        assert(front[k].id == id);
        law_delete_removes_one(front, id);
    }
}

/// A ledger whose ids are unique keeps them unique when entries are deleted.
pub proof fn law_delete_keeps_ids_unique(entries: Seq<TransactionView>, id: u32)
    requires
        ids_unique(entries),
    ensures
        ids_unique(without_id(entries, id)),
    decreases entries.len(),
{
    if entries.len() > 0 {
        let front = entries.drop_last();
        assert forall|i: int, j: int| 0 <= i < j < front.len() implies #[trigger] front[i].id
            != #[trigger] front[j].id by {
            assert(entries[i].id != entries[j].id);
        }
        law_delete_keeps_ids_unique(front, id);
        law_delete_removes_id(front, id);
        let kept = without_id(front, id);
        let left = without_id(entries, id);
        assert forall|i: int, j: int| 0 <= i < j < left.len() implies #[trigger] left[i].id
            != #[trigger] left[j].id by {
            if j == kept.len() {
                assert(has_id(front, kept[i].id));
                let k = choose|k: int| 0 <= k < front.len() && #[trigger] front[k].id == kept[i].id;
                assert(entries[k].id != entries[entries.len() - 1].id);
            } else {
                assert(kept[i].id != kept[j].id);
            }
        }
    }
}

/// Ids are not remembered: once the only entry of a ledger is deleted, the
/// next entry gets id 1 again.
pub proof fn law_id_after_sole_delete(
    entries: Seq<TransactionView>,
    amount: u64,
    category: Seq<char>,
    is_income: bool,
    date: Timestamp,
)
    requires
        entries.len() == 1,
    ensures
        without_id(entries, entries[0].id) == Seq::<TransactionView>::empty(),
        new_entry(without_id(entries, entries[0].id), amount, category, is_income, date).id == 1,
{
    assert(entries.drop_last().len() == 0);
    assert(without_id(entries.drop_last(), entries[0].id) =~= Seq::<TransactionView>::empty());
}

/// Every position in a category's group is a position of the ledger, and the
/// entry there has the group's type and category.
pub proof fn law_group_members(
    entries: Seq<TransactionView>,
    kind: TransactionType,
    category: Seq<char>,
)
    requires
        entries.len() <= usize::MAX,
    ensures
        forall|k: int|
            0 <= k < positions_of_category(entries, kind, category).len() ==> {
                let p = #[trigger] positions_of_category(entries, kind, category)[k];
                &&& p < entries.len()
                &&& entries[p as int].transaction_type == kind
                &&& entries[p as int].category == category
            },
    decreases entries.len(),
{
    if entries.len() > 0 {
        let front = entries.drop_last();
        law_group_members(front, kind, category);
        let all = positions_of_category(entries, kind, category);
        assert forall|k: int| 0 <= k < all.len() implies {
            let p = #[trigger] all[k];
            &&& p < entries.len()
            &&& entries[p as int].transaction_type == kind
            &&& entries[p as int].category == category
        } by {
            if k < positions_of_category(front, kind, category).len() {
                let p = positions_of_category(front, kind, category)[k];
                assert(front[p as int] == entries[p as int]);
            }
        }
    }
}

/// Every entry is counted: its position stands among the positions of its
/// type and in the group of its category, and its category is one of the
/// categories of its type.
pub proof fn law_entry_is_counted(entries: Seq<TransactionView>, i: int)
    requires
        0 <= i < entries.len() <= usize::MAX,
    ensures
        positions_of_type(entries, entries[i].transaction_type).contains(i as usize),
        positions_of_category(entries, entries[i].transaction_type, entries[i].category).contains(
            i as usize,
        ),
        categories_of_type(entries, entries[i].transaction_type).contains(entries[i].category),
    decreases entries.len(),
{
    let kind = entries[i].transaction_type;
    let category = entries[i].category;
    let front = entries.drop_last();
    let by_type = positions_of_type(entries, kind);
    let by_category = positions_of_category(entries, kind, category);
    let names = categories_of_type(entries, kind);
    if i == entries.len() - 1 {
        assert(by_type[by_type.len() - 1] == i as usize);
        assert(by_category[by_category.len() - 1] == i as usize);
        if categories_of_type(front, kind).contains(category) {
            let k = choose|k: int|
                0 <= k < categories_of_type(front, kind).len() && categories_of_type(front, kind)[k]
                    == category;
            assert(names[k] == category);
        } else {
            assert(names[names.len() - 1] == category);
        }
    } else {
        assert(front[i] == entries[i]);
        law_entry_is_counted(front, i);
        let a = choose|a: int|
            0 <= a < positions_of_type(front, kind).len() && positions_of_type(front, kind)[a]
                == i as usize;
        assert(by_type[a] == i as usize);
        let b = choose|b: int|
            0 <= b < positions_of_category(front, kind, category).len() && positions_of_category(
                front,
                kind,
                category,
            )[b] == i as usize;
        assert(by_category[b] == i as usize);
        let c = choose|c: int|
            0 <= c < categories_of_type(front, kind).len() && categories_of_type(front, kind)[c]
                == category;
        assert(names[c] == category);
    }
}

/// No category is named twice among the categories of a type.
pub proof fn law_categories_distinct(entries: Seq<TransactionView>, kind: TransactionType)
    ensures
        categories_of_type(entries, kind).no_duplicates(),
    decreases entries.len(),
{
    if entries.len() > 0 {
        law_categories_distinct(entries.drop_last(), kind);
    }
}

/// A number written in decimal is a run of digits, at least one, worth that
/// number.
pub proof fn law_decimal_digits_value(n: nat)
    ensures
        decimal_digits(n).len() > 0,
        forall|i: int| 0 <= i < decimal_digits(n).len() ==> is_digit(#[trigger] decimal_digits(n)[i]),
        digits_value(decimal_digits(n)) == n,
    decreases n,
{
    let text = decimal_digits(n);
    if n < 10 {
        assert(text.drop_last() =~= Seq::<char>::empty());
        assert(digits_value(text.drop_last()) == 0);
        assert(text.last() == digit_char(n));
    } else {
        law_decimal_digits_value(n / 10);
        assert(text.drop_last() =~= decimal_digits(n / 10));
        assert(text.last() == digit_char(n % 10));
        assert forall|i: int| 0 <= i < text.len() implies is_digit(#[trigger] text[i]) by {
            if i < text.len() - 1 {
                assert(text[i] == decimal_digits(n / 10)[i]);
            }
        }
    }
}

/// An id that was written in decimal reads back as the same id.
pub proof fn law_written_id_reads_back(id: u32)
    ensures
        id_of_text(decimal_digits(id as nat)) == Some(id),
{
    law_decimal_digits_value(id as nat);
    assert(is_digit(decimal_digits(id as nat)[0]));
}

/// Every word of a line holds a character, and none of them is white space.
pub proof fn law_words_are_solid(line: Seq<char>)
    ensures
        forall|k: int|
            0 <= k < whitespace_words(line).len() ==> {
                let word = #[trigger] whitespace_words(line)[k];
                &&& word.len() > 0
                &&& forall|j: int| 0 <= j < word.len() ==> !is_space(#[trigger] word[j])
            },
    decreases line.len(),
{
    if line.len() > 0 {
        law_words_are_solid(line.drop_last());
        let before = whitespace_words(line.drop_last());
        let words = whitespace_words(line);
        assert forall|k: int| 0 <= k < words.len() implies {
            let word = #[trigger] words[k];
            &&& word.len() > 0
            &&& forall|j: int| 0 <= j < word.len() ==> !is_space(#[trigger] word[j])
        } by {
            if k < before.len() && words[k] == before[k] {
            } else if k < before.len() {
                let old_word = before[k];
                assert(words[k] == old_word.push(line.last()));
            }
        }
    }
}

/// A line of nothing but white space holds no word.
pub proof fn law_blank_line_has_no_words(line: Seq<char>)
    requires
        forall|j: int| 0 <= j < line.len() ==> is_space(#[trigger] line[j]),
    ensures
        whitespace_words(line).len() == 0,
    decreases line.len(),
{
    if line.len() > 0 {
        assert(line.last() == line[line.len() - 1]);
        assert forall|j: int| 0 <= j < line.drop_last().len() implies is_space(
            #[trigger] line.drop_last()[j],
        ) by {
            assert(line.drop_last()[j] == line[j]);
        }
        law_blank_line_has_no_words(line.drop_last());
    }
}

} // verus!
