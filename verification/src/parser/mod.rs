//! Reading batches from a file: how many rows of each batch to keep.

pub mod row_budget;

pub use row_budget::{BatchTake, RowBudget, DIAGNOSIS_ROW_LIMIT};
