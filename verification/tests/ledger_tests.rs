use finance_ledger::ledger::{
    add_transaction, add_transaction_at, delete_transaction, highest_id, next_id, AddOutcome,
    DeleteOutcome,
};
use finance_ledger::models::{Budget, Timestamp, Transaction, TransactionType};

fn stamp() -> Timestamp {
    Timestamp { seconds: 1_700_000_000, nanos: 123_456_789 }
}

fn entry(id: u32, amount: f64, category: &str, kind: TransactionType) -> Transaction {
    Transaction {
        id,
        amount: amount.to_bits(),
        category: category.to_string(),
        date: stamp(),
        transaction_type: kind,
    }
}

#[test]
fn type_labels_are_the_variant_names() {
    assert_eq!(TransactionType::Income.label(), "Income");
    assert_eq!(TransactionType::Expense.label(), "Expense");
}

#[test]
fn income_flag_picks_the_type() {
    assert_eq!(TransactionType::from_income_flag(true), TransactionType::Income);
    assert_eq!(TransactionType::from_income_flag(false), TransactionType::Expense);
}

#[test]
fn duplicate_keeps_every_field() {
    let t = entry(4, 2.5, "rent", TransactionType::Expense);
    assert_eq!(t.duplicate(), t);
}

#[test]
fn budget_holds_its_fields() {
    let b = Budget { category: "food".to_string(), limit: 300.0f64.to_bits(), current: 0 };
    assert_eq!(b.category, "food");
    assert_eq!(f64::from_bits(b.limit), 300.0);
    assert_eq!(f64::from_bits(b.current), 0.0);
}

#[test]
fn empty_ledger_has_highest_id_zero() {
    let ledger: Vec<Transaction> = Vec::new();
    assert_eq!(highest_id(&ledger), 0);
    assert_eq!(next_id(&ledger), Some(1));
}

#[test]
fn highest_id_is_the_maximum_not_the_last() {
    let ledger = vec![
        entry(3, 1.0, "a", TransactionType::Income),
        entry(9, 1.0, "b", TransactionType::Expense),
        entry(5, 1.0, "c", TransactionType::Expense),
    ];
    assert_eq!(highest_id(&ledger), 9);
    assert_eq!(next_id(&ledger), Some(10));
}

#[test]
fn adding_to_an_empty_ledger_gives_id_one() {
    let mut ledger: Vec<Transaction> = Vec::new();
    let outcome = add_transaction_at(&mut ledger, 15.99f64.to_bits(), "food", false, stamp());
    assert_eq!(outcome, AddOutcome::Added(1));
    assert_eq!(ledger, vec![entry(1, 15.99, "food", TransactionType::Expense)]);
}

#[test]
fn adding_after_max_id_seven_gives_id_eight() {
    let mut ledger = vec![
        entry(7, 10.0, "wages", TransactionType::Income),
        entry(2, 3.0, "food", TransactionType::Expense),
    ];
    let outcome = add_transaction_at(&mut ledger, 5000.0f64.to_bits(), "salary", true, stamp());
    assert_eq!(outcome, AddOutcome::Added(8));
    assert_eq!(ledger.len(), 3);
    assert_eq!(ledger[0], entry(7, 10.0, "wages", TransactionType::Income));
    assert_eq!(ledger[1], entry(2, 3.0, "food", TransactionType::Expense));
    assert_eq!(ledger[2], entry(8, 5000.0, "salary", TransactionType::Income));
}

#[test]
fn id_is_reused_after_the_only_entry_is_deleted() {
    let mut ledger: Vec<Transaction> = Vec::new();
    assert_eq!(add_transaction_at(&mut ledger, 1.0f64.to_bits(), "a", false, stamp()), AddOutcome::Added(1));
    assert_eq!(delete_transaction(&mut ledger, 1), DeleteOutcome::Deleted);
    assert!(ledger.is_empty());
    assert_eq!(add_transaction_at(&mut ledger, 2.0f64.to_bits(), "b", false, stamp()), AddOutcome::Added(1));
}

#[test]
fn deleting_the_newest_entry_frees_its_id() {
    let mut ledger = vec![entry(7, 1.0, "a", TransactionType::Income)];
    assert_eq!(add_transaction_at(&mut ledger, 1.0f64.to_bits(), "b", false, stamp()), AddOutcome::Added(8));
    assert_eq!(delete_transaction(&mut ledger, 8), DeleteOutcome::Deleted);
    assert_eq!(add_transaction_at(&mut ledger, 1.0f64.to_bits(), "c", false, stamp()), AddOutcome::Added(8));
}

#[test]
fn no_id_is_left_after_the_largest() {
    let mut ledger = vec![entry(u32::MAX, 1.0, "a", TransactionType::Income)];
    let before = ledger.clone();
    assert_eq!(next_id(&ledger), None);
    let outcome = add_transaction_at(&mut ledger, 1.0f64.to_bits(), "b", false, stamp());
    assert_eq!(outcome, AddOutcome::IdsExhausted);
    assert_eq!(ledger, before);
}

#[test]
fn deleting_a_missing_id_changes_nothing() {
    let mut ledger = vec![
        entry(1, 100.0, "wages", TransactionType::Income),
        entry(2, 30.0, "food", TransactionType::Expense),
    ];
    let before = ledger.clone();
    assert_eq!(delete_transaction(&mut ledger, 9), DeleteOutcome::NotFound);
    assert_eq!(ledger, before);
}

#[test]
fn deleting_from_an_empty_ledger_finds_nothing() {
    let mut ledger: Vec<Transaction> = Vec::new();
    assert_eq!(delete_transaction(&mut ledger, 1), DeleteOutcome::NotFound);
    assert!(ledger.is_empty());
}

#[test]
fn deleting_keeps_the_others_in_order() {
    let mut ledger = vec![
        entry(1, 100.0, "wages", TransactionType::Income),
        entry(2, 30.0, "food", TransactionType::Expense),
        entry(3, 20.0, "food", TransactionType::Expense),
    ];
    assert_eq!(delete_transaction(&mut ledger, 2), DeleteOutcome::Deleted);
    assert_eq!(
        ledger,
        vec![
            entry(1, 100.0, "wages", TransactionType::Income),
            entry(3, 20.0, "food", TransactionType::Expense),
        ]
    );
}

#[test]
fn deleting_removes_every_entry_with_the_id() {
    let mut ledger = vec![
        entry(2, 1.0, "a", TransactionType::Income),
        entry(5, 2.0, "b", TransactionType::Expense),
        entry(2, 3.0, "c", TransactionType::Expense),
    ];
    assert_eq!(delete_transaction(&mut ledger, 2), DeleteOutcome::Deleted);
    assert_eq!(ledger, vec![entry(5, 2.0, "b", TransactionType::Expense)]);
}

#[test]
fn adding_now_stamps_the_entry_with_the_clock() {
    let mut ledger = vec![entry(7, 1.0, "a", TransactionType::Income)];
    let outcome = add_transaction(&mut ledger, 15.99f64.to_bits(), "food", false);
    assert_eq!(outcome, AddOutcome::Added(8));
    assert_eq!(ledger.len(), 2);
    assert_eq!(ledger[0], entry(7, 1.0, "a", TransactionType::Income));
    assert_eq!(ledger[1].id, 8);
    assert_eq!(f64::from_bits(ledger[1].amount), 15.99);
    assert_eq!(ledger[1].category, "food");
    assert_eq!(ledger[1].transaction_type, TransactionType::Expense);
    assert!(ledger[1].date.seconds > 1_600_000_000);
    assert!(ledger[1].date.nanos < 2_000_000_000);
}

#[test]
fn adding_now_stops_when_no_id_is_left() {
    let mut ledger = vec![entry(u32::MAX, 1.0, "a", TransactionType::Income)];
    let before = ledger.clone();
    assert_eq!(add_transaction(&mut ledger, 1.0f64.to_bits(), "b", true), AddOutcome::IdsExhausted);
    assert_eq!(ledger, before);
}
