//! Data-quality diagnosis of tabular batches: null rates, duplicate rates,
//! health grades and cleaning suggestions for each column.

pub mod app;
pub mod diagnosis;
pub mod parser;
pub mod ui;
