//! What the ledger shows: the listing, the summary's groups, and the messages
//! that follow a command.

use vstd::prelude::*;
use vstd::string::StringExecFns;
use crate::interactive::Fault;
use crate::ledger::DeleteOutcome;
use crate::models::{Transaction, TransactionType, TransactionView, ledger_view, type_label};
use crate::summary::{CategoryGroup, CategoryGroupView, Summary, groups_view};
use crate::text::{decimal_digits, id_text, local_date_text, words_view};

verus! {

/// The first line of a listing.
pub open spec fn listing_header() -> Seq<char> {
    "ID\t类型\t金额\t类别\t日期"@
}

/// The second line of a listing.
pub open spec fn listing_rule() -> Seq<char> {
    "--------------------------------------------"@
}

/// One line of a listing: id, type, amount, category and date, with a tab
/// between each two.
pub open spec fn row_text(entry: TransactionView, amount: Seq<char>, date: Seq<char>) -> Seq<char> {
    decimal_digits(entry.id as nat) + "\t"@ + type_label(entry.transaction_type) + "\t"@ + amount
        + "\t"@ + entry.category + "\t"@ + date
}

/// Writes the listing's line for one entry, from its amount and date as text.
pub fn format_row(entry: &Transaction, amount: &str, date: &str) -> (line: String)
    ensures
        line@ == row_text(entry@, amount@, date@),
{
    let mut line = id_text(entry.id);
    line.append("\t");
    let label = entry.transaction_type.label();
    line.append(label.as_str());
    line.append("\t");
    line.append(amount);
    line.append("\t");
    line.append(entry.category.as_str());
    line.append("\t");
    line.append(date);
    line
}

/// Whether `line` is the row of `entry` with this amount and some date text.
pub open spec fn is_row(line: Seq<char>, entry: TransactionView, amount: Seq<char>) -> bool {
    exists|date: Seq<char>| line == row_text(entry, amount, date)
}

/// Whether `lines` is the listing of `entries` with these amounts: header,
/// rule, then one row per entry in ledger order, each with some date text.
pub open spec fn is_listing(
    lines: Seq<Seq<char>>,
    entries: Seq<TransactionView>,
    amounts: Seq<Seq<char>>,
) -> bool {
    &&& lines.len() == entries.len() + 2
    &&& lines[0] == listing_header()
    &&& lines[1] == listing_rule()
    &&& forall|k: int|
        2 <= k < lines.len() ==> is_row(#[trigger] lines[k], entries[k - 2], amounts[k - 2])
}

/// The lines of a listing. `amounts` holds each entry's amount as text, in
/// ledger order; without exactly one per entry there is no listing. Dates are
/// shown in the machine's time zone, and left blank where the calendar cannot
/// hold them.
pub fn list_transactions(ledger: &Vec<Transaction>, amounts: &Vec<String>) -> (listing: Option<
    Vec<String>,
>)
    ensures
        amounts.len() != ledger.len() ==> listing is None,
        amounts.len() == ledger.len() ==> listing is Some && is_listing(
            words_view(listing->0@),
            ledger_view(ledger@),
            words_view(amounts@),
        ),
{
    if amounts.len() != ledger.len() {
        return None;
    }
    let mut lines: Vec<String> = Vec::new();
    lines.push(String::from_str("ID\t类型\t金额\t类别\t日期"));
    lines.push(String::from_str("--------------------------------------------"));
    let mut i: usize = 0;
    while i < ledger.len()
        invariant
            i <= ledger.len(),
            amounts.len() == ledger.len(),
            lines.len() == i + 2,
            lines[0]@ == listing_header(),
            lines[1]@ == listing_rule(),
            forall|k: int|
                2 <= k < lines.len() ==> is_row(
                    (#[trigger] lines[k])@,
                    ledger[k - 2]@,
                    amounts[k - 2]@,
                ),
        decreases ledger.len() - i,
    {
        let date = match local_date_text(ledger[i].date) {
            Some(text) => text,
            None => String::new(),
        };
        let line = format_row(&ledger[i], amounts[i].as_str(), date.as_str());
        proof {
            assert(is_row(line@, ledger[i as int]@, amounts[i as int]@));
        }
        lines.push(line);
        i += 1;
    }
    proof {
        let shown = words_view(lines@);
        assert forall|k: int| 2 <= k < shown.len() implies is_row(
            #[trigger] shown[k],
            ledger_view(ledger@)[k - 2],
            words_view(amounts@)[k - 2],
        ) by {
            assert(is_row(lines[k]@, ledger[k - 2]@, amounts[k - 2]@));
        }
    }
    Some(lines)
}

/// The message after a delete. It names the id that was asked for.
pub open spec fn delete_message_text(outcome: DeleteOutcome, id: u32) -> Seq<char> {
    match outcome {
        DeleteOutcome::Deleted => "成功删除ID为 "@ + decimal_digits(id as nat) + " 的交易记录"@,
        DeleteOutcome::NotFound => "未找到ID为 "@ + decimal_digits(id as nat) + " 的交易记录"@,
    }
}

/// Writes the message after a delete.
pub fn delete_message(outcome: DeleteOutcome, id: u32) -> (message: String)
    ensures
        message@ == delete_message_text(outcome, id),
{
    let mut message = match outcome {
        DeleteOutcome::Deleted => String::from_str("成功删除ID为 "),
        DeleteOutcome::NotFound => String::from_str("未找到ID为 "),
    };
    let number = id_text(id);
    message.append(number.as_str());
    message.append(" 的交易记录");
    message
}

/// The amounts of a summary as text, each as it is to be shown.
#[derive(Debug, Clone, PartialEq, Eq)]
pub struct SummaryAmounts {
    pub income_total: String,
    pub expense_total: String,
    pub balance: String,
    /// One total per income group, in the groups' order.
    pub income_groups: Vec<String>,
    /// One total per expense group, in the groups' order.
    pub expense_groups: Vec<String>,
}

/// The line of one category in a breakdown.
pub open spec fn group_line(category: Seq<char>, amount: Seq<char>) -> Seq<char> {
    "- "@ + category + ": "@ + amount
}

/// The lines of a breakdown: one per group, in the groups' order.
pub open spec fn group_lines(groups: Seq<CategoryGroupView>, amounts: Seq<Seq<char>>) -> Seq<
    Seq<char>,
> {
    Seq::new(groups.len(), |k: int| group_line(groups[k].category, amounts[k]))
}

/// The lines that open a summary: title, total income, total expense and
/// balance, then a blank line and the heading of the income breakdown.
pub open spec fn summary_head(
    income_total: Seq<char>,
    expense_total: Seq<char>,
    balance: Seq<char>,
) -> Seq<Seq<char>> {
    seq![
        "=== 财务摘要 ==="@,
        "总收入: "@ + income_total,
        "总支出: "@ + expense_total,
        "当前余额: "@ + balance,
        Seq::<char>::empty(),
        "收入分类统计:"@,
    ]
}

/// The lines of a summary: the head, the income breakdown, a blank line, the
/// heading of the expense breakdown, and the expense breakdown.
pub open spec fn summary_text(
    income: Seq<CategoryGroupView>,
    expense: Seq<CategoryGroupView>,
    income_total: Seq<char>,
    expense_total: Seq<char>,
    balance: Seq<char>,
    income_groups: Seq<Seq<char>>,
    expense_groups: Seq<Seq<char>>,
) -> Seq<Seq<char>> {
    summary_head(income_total, expense_total, balance) + group_lines(income, income_groups)
        + seq![Seq::<char>::empty(), "支出分类统计:"@] + group_lines(expense, expense_groups)
}

fn labelled(label: &str, value: &str) -> (line: String)
    ensures
        line@ == label@ + value@,
{
    let mut line = String::from_str(label);
    line.append(value);
    line
}

fn push_group_lines(lines: &mut Vec<String>, groups: &Vec<CategoryGroup>, amounts: &Vec<String>)
    requires
        groups.len() == amounts.len(),
    ensures
        words_view(final(lines)@) == words_view(old(lines)@) + group_lines(
            groups_view(groups@),
            words_view(amounts@),
        ),
{
    let mut k: usize = 0;
    while k < groups.len()
        invariant
            k <= groups.len(),
            groups.len() == amounts.len(),
            words_view(lines@) == words_view(old(lines)@) + group_lines(
                groups_view(groups@),
                words_view(amounts@),
            ).take(k as int),
        decreases groups.len() - k,
    {
        let ghost before = words_view(lines@);
        let mut line = String::from_str("- ");
        line.append(groups[k].category.as_str());
        line.append(": ");
        line.append(amounts[k].as_str());
        lines.push(line);
        proof {
            let all = group_lines(groups_view(groups@), words_view(amounts@));
            assert(words_view(lines@) =~= before.push(all[k as int]));
            assert(all.take(k + 1) =~= all.take(k as int).push(all[k as int]));
            assert(words_view(lines@) =~= words_view(old(lines)@) + all.take(k + 1));
        }
        k += 1;
    }
    proof {
        let all = group_lines(groups_view(groups@), words_view(amounts@));
        assert(all.take(k as int) =~= all);
    }
}

/// The lines of a summary, from its groups and from the amounts as text.
/// Without exactly one amount per group on each side there are none.
pub fn summary_lines(summary: &Summary, amounts: &SummaryAmounts) -> (lines: Option<Vec<String>>)
    ensures
        lines is Some <==> summary.income.groups.len() == amounts.income_groups.len()
            && summary.expense.groups.len() == amounts.expense_groups.len(),
        lines is Some ==> words_view(lines->0@) == summary_text(
            groups_view(summary.income.groups@),
            groups_view(summary.expense.groups@),
            amounts.income_total@,
            amounts.expense_total@,
            amounts.balance@,
            words_view(amounts.income_groups@),
            words_view(amounts.expense_groups@),
        ),
{
    if summary.income.groups.len() != amounts.income_groups.len() || summary.expense.groups.len()
        != amounts.expense_groups.len() {
        return None;
    }
    let mut lines: Vec<String> = Vec::new();
    lines.push(String::from_str("=== 财务摘要 ==="));
    lines.push(labelled("总收入: ", amounts.income_total.as_str()));
    lines.push(labelled("总支出: ", amounts.expense_total.as_str()));
    lines.push(labelled("当前余额: ", amounts.balance.as_str()));
    lines.push(String::new());
    lines.push(String::from_str("收入分类统计:"));
    proof {
        assert(words_view(lines@) =~= summary_head(
            amounts.income_total@,
            amounts.expense_total@,
            amounts.balance@,
        ));
    }
    push_group_lines(&mut lines, &summary.income.groups, &amounts.income_groups);
    let ghost upper = words_view(lines@);
    lines.push(String::new());
    lines.push(String::from_str("支出分类统计:"));
    proof {
        assert(words_view(lines@) =~= upper + seq![Seq::<char>::empty(), "支出分类统计:"@]);
    }
    push_group_lines(&mut lines, &summary.expense.groups, &amounts.expense_groups);
    Some(lines)
}

/// What the session says of a line that runs no command.
pub open spec fn fault_message_text(fault: Fault) -> Seq<char> {
    match fault {
        Fault::InvalidAmount => "金额必须为数字"@,
        Fault::InvalidId => "ID必须为数字"@,
        Fault::UnknownCommand => "未知命令，可用命令: add, delete, list, summary, exit"@,
    }
}

/// Writes what the session says of a line that runs no command. The message
/// for an unknown command lists the commands there are.
pub fn fault_message(fault: Fault) -> (message: String)
    ensures
        message@ == fault_message_text(fault),
{
    match fault {
        Fault::InvalidAmount => String::from_str("金额必须为数字"),
        Fault::InvalidId => String::from_str("ID必须为数字"),
        Fault::UnknownCommand => String::from_str(
            "未知命令，可用命令: add, delete, list, summary, exit",
        ),
    }
}

} // verus!
