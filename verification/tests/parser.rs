use data_guard::parser::{BatchTake, RowBudget, DIAGNOSIS_ROW_LIMIT};

#[test]
fn budget_keeps_whole_batches_while_they_fit() {
    let mut budget = RowBudget::new(1000);
    assert_eq!(budget.take(400), BatchTake::Whole);
    assert_eq!(budget.take(600), BatchTake::Whole);
    assert_eq!(budget.rows_taken(), 1000);
}

#[test]
fn budget_cuts_the_batch_that_overflows() {
    let mut budget = RowBudget::new(1000);
    assert_eq!(budget.take(600), BatchTake::Whole);
    assert_eq!(budget.take(600), BatchTake::Prefix(400));
    assert_eq!(budget.rows_taken(), 1000);
    assert_eq!(budget.max_rows(), 1000);
}

#[test]
fn full_budget_keeps_empty_prefix() {
    let mut budget = RowBudget::new(10);
    assert_eq!(budget.take(10), BatchTake::Whole);
    assert_eq!(budget.take(0), BatchTake::Whole);
    assert_eq!(budget.take(1), BatchTake::Prefix(0));
}

#[test]
fn zero_budget() {
    let mut budget = RowBudget::new(0);
    assert_eq!(budget.take(5), BatchTake::Prefix(0));
    assert_eq!(budget.rows_taken(), 0);
}

#[test]
fn diagnosis_reads_a_thousand_rows() {
    assert_eq!(DIAGNOSIS_ROW_LIMIT, 1000);
}
