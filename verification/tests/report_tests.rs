use finance_ledger::ledger::DeleteOutcome;
use finance_ledger::models::{Timestamp, Transaction, TransactionType};
use finance_ledger::report::{
    delete_message, format_row, list_transactions, summary_lines, SummaryAmounts,
};
use finance_ledger::summary::{show_summary, summarize_type, CategoryGroup};

fn entry(id: u32, amount: f64, category: &str, kind: TransactionType) -> Transaction {
    Transaction {
        id,
        amount: amount.to_bits(),
        category: category.to_string(),
        date: Timestamp { seconds: 1_700_000_000, nanos: 0 },
        transaction_type: kind,
    }
}

fn total(ledger: &[Transaction], positions: &[usize]) -> f64 {
    let mut sum = 0.0;
    for &p in positions {
        sum += f64::from_bits(ledger[p].amount);
    }
    sum
}

fn sample() -> Vec<Transaction> {
    vec![
        entry(1, 100.0, "wages", TransactionType::Income),
        entry(2, 30.0, "food", TransactionType::Expense),
        entry(3, 20.0, "food", TransactionType::Expense),
    ]
}

#[test]
fn summary_totals() {
    let ledger = sample();
    let summary = show_summary(&ledger);
    let income = total(&ledger, &summary.income.entries);
    let expense = total(&ledger, &summary.expense.entries);
    assert_eq!(format!("{:.2}", income), "100.00");
    assert_eq!(format!("{:.2}", expense), "50.00");
    assert_eq!(format!("{:.2}", income - expense), "50.00");
    assert_eq!(summary.expense.groups.len(), 1);
    assert_eq!(summary.expense.groups[0].category, "food");
    assert_eq!(format!("{:.2}", total(&ledger, &summary.expense.groups[0].entries)), "50.00");
    assert_eq!(summary.income.groups.len(), 1);
    assert_eq!(summary.income.groups[0].category, "wages");
    assert_eq!(total(&ledger, &summary.income.groups[0].entries), 100.0);
}

#[test]
fn summary_names_entries_by_position() {
    let ledger = sample();
    let summary = show_summary(&ledger);
    assert_eq!(summary.income.entries, vec![0]);
    assert_eq!(summary.expense.entries, vec![1, 2]);
    assert_eq!(
        summary.expense.groups,
        vec![CategoryGroup { category: "food".to_string(), entries: vec![1, 2] }]
    );
}

#[test]
fn summary_of_an_empty_ledger_is_empty() {
    let ledger: Vec<Transaction> = Vec::new();
    let summary = show_summary(&ledger);
    assert!(summary.income.entries.is_empty());
    assert!(summary.income.groups.is_empty());
    assert!(summary.expense.entries.is_empty());
    assert!(summary.expense.groups.is_empty());
}

#[test]
fn groups_come_in_order_of_first_occurrence() {
    let ledger = vec![
        entry(1, 1.0, "rent", TransactionType::Expense),
        entry(2, 2.0, "food", TransactionType::Expense),
        entry(3, 4.0, "rent", TransactionType::Income),
        entry(4, 8.0, "rent", TransactionType::Expense),
        entry(5, 16.0, "Food", TransactionType::Expense),
    ];
    let side = summarize_type(&ledger, TransactionType::Expense);
    assert_eq!(side.entries, vec![0, 1, 3, 4]);
    assert_eq!(
        side.groups,
        vec![
            CategoryGroup { category: "rent".to_string(), entries: vec![0, 3] },
            CategoryGroup { category: "food".to_string(), entries: vec![1] },
            CategoryGroup { category: "Food".to_string(), entries: vec![4] },
        ]
    );
    let income = summarize_type(&ledger, TransactionType::Income);
    assert_eq!(income.entries, vec![2]);
    assert_eq!(income.groups, vec![CategoryGroup { category: "rent".to_string(), entries: vec![2] }]);
}

#[test]
fn every_entry_is_in_one_group_of_its_type() {
    let ledger = sample();
    let summary = show_summary(&ledger);
    for (i, t) in ledger.iter().enumerate() {
        let side = match t.transaction_type {
            TransactionType::Income => &summary.income,
            TransactionType::Expense => &summary.expense,
        };
        let holders = side.groups.iter().filter(|g| g.entries.contains(&i)).count();
        assert_eq!(holders, 1);
        assert!(side.entries.contains(&i));
    }
}

#[test]
fn row_is_tab_separated() {
    let t = entry(12, 15.99, "food", TransactionType::Expense);
    assert_eq!(
        format_row(&t, "15.99", "2023-11-14 22:13:20"),
        "12\tExpense\t15.99\tfood\t2023-11-14 22:13:20"
    );
}

#[test]
fn row_writes_ids_in_decimal() {
    let zero = entry(0, 1.0, "a", TransactionType::Income);
    assert_eq!(format_row(&zero, "1.00", "d"), "0\tIncome\t1.00\ta\td");
    let ten = entry(10, 1.0, "a", TransactionType::Income);
    assert_eq!(format_row(&ten, "1.00", "d"), "10\tIncome\t1.00\ta\td");
    let top = entry(u32::MAX, 1.0, "", TransactionType::Income);
    assert_eq!(format_row(&top, "", ""), "4294967295\tIncome\t\t\t");
}

#[test]
fn listing_has_header_rule_and_rows() {
    let ledger = sample();
    let amounts: Vec<String> =
        ledger.iter().map(|t| format!("{:.2}", f64::from_bits(t.amount))).collect();
    let lines = list_transactions(&ledger, &amounts).unwrap();
    assert_eq!(lines.len(), 5);
    assert_eq!(lines[0], "ID\t类型\t金额\t类别\t日期");
    assert_eq!(lines[1], "-".repeat(44));
    assert!(lines[2].starts_with("1\tIncome\t100.00\twages\t"));
    assert!(lines[3].starts_with("2\tExpense\t30.00\tfood\t"));
    assert!(lines[4].starts_with("3\tExpense\t20.00\tfood\t"));
    for line in &lines[2..] {
        let date: Vec<char> = line.rsplit('\t').next().unwrap().chars().collect();
        assert_eq!(date.len(), 19);
        for (i, c) in date.iter().enumerate() {
            match i {
                4 | 7 => assert_eq!(*c, '-'),
                10 => assert_eq!(*c, ' '),
                13 | 16 => assert_eq!(*c, ':'),
                _ => assert!(c.is_ascii_digit()),
            }
        }
        assert!(date.starts_with(&['2', '0', '2', '3', '-', '1', '1', '-', '1']));
    }
}

#[test]
fn listing_of_an_empty_ledger_is_header_and_rule() {
    let ledger: Vec<Transaction> = Vec::new();
    let lines = list_transactions(&ledger, &Vec::new()).unwrap();
    assert_eq!(lines, vec!["ID\t类型\t金额\t类别\t日期".to_string(), "-".repeat(44)]);
}

#[test]
fn listing_needs_one_amount_per_entry() {
    let ledger = sample();
    assert_eq!(list_transactions(&ledger, &vec!["1.00".to_string()]), None);
    assert_eq!(list_transactions(&Vec::new(), &vec!["1.00".to_string()]), None);
}

#[test]
fn listing_leaves_an_impossible_date_blank() {
    let mut t = entry(1, 1.0, "a", TransactionType::Income);
    t.date = Timestamp { seconds: i64::MAX, nanos: 0 };
    let lines = list_transactions(&vec![t], &vec!["1.00".to_string()]).unwrap();
    assert_eq!(lines[2], "1\tIncome\t1.00\ta\t");
}

#[test]
fn delete_messages_name_the_id() {
    assert_eq!(delete_message(DeleteOutcome::NotFound, 9), "未找到ID为 9 的交易记录");
    assert_eq!(delete_message(DeleteOutcome::Deleted, 120), "成功删除ID为 120 的交易记录");
}

fn shown(amount: f64) -> String {
    format!("{:.2}", amount)
}

fn amounts_of(ledger: &[Transaction]) -> SummaryAmounts {
    let summary = show_summary(&ledger.to_vec());
    let income = total(ledger, &summary.income.entries);
    let expense = total(ledger, &summary.expense.entries);
    SummaryAmounts {
        income_total: shown(income),
        expense_total: shown(expense),
        balance: shown(income - expense),
        income_groups: summary.income.groups.iter().map(|g| shown(total(ledger, &g.entries))).collect(),
        expense_groups: summary.expense.groups.iter().map(|g| shown(total(ledger, &g.entries))).collect(),
    }
}

#[test]
fn summary_lines_show_totals_and_breakdowns() {
    let ledger = sample();
    let summary = show_summary(&ledger);
    let lines = summary_lines(&summary, &amounts_of(&ledger)).unwrap();
    assert_eq!(
        lines,
        vec![
            "=== 财务摘要 ===",
            "总收入: 100.00",
            "总支出: 50.00",
            "当前余额: 50.00",
            "",
            "收入分类统计:",
            "- wages: 100.00",
            "",
            "支出分类统计:",
            "- food: 50.00",
        ]
    );
}

#[test]
fn summary_lines_of_an_empty_ledger() {
    let ledger: Vec<Transaction> = Vec::new();
    let summary = show_summary(&ledger);
    let lines = summary_lines(&summary, &amounts_of(&ledger)).unwrap();
    assert_eq!(
        lines,
        vec![
            "=== 财务摘要 ===",
            "总收入: 0.00",
            "总支出: 0.00",
            "当前余额: 0.00",
            "",
            "收入分类统计:",
            "",
            "支出分类统计:",
        ]
    );
}

#[test]
fn summary_lines_need_one_amount_per_group() {
    let ledger = sample();
    let summary = show_summary(&ledger);
    let mut amounts = amounts_of(&ledger);
    amounts.expense_groups.push("1.00".to_string());
    assert_eq!(summary_lines(&summary, &amounts), None);
    let mut amounts = amounts_of(&ledger);
    amounts.income_groups.clear();
    assert_eq!(summary_lines(&summary, &amounts), None);
}

#[test]
fn a_balance_can_be_negative() {
    let ledger = vec![
        entry(1, 10.0, "gift", TransactionType::Income),
        entry(2, 25.5, "rent", TransactionType::Expense),
    ];
    let amounts = amounts_of(&ledger);
    assert_eq!(amounts.balance, "-15.50");
    let lines = summary_lines(&show_summary(&ledger), &amounts).unwrap();
    assert_eq!(lines[3], "当前余额: -15.50");
}
