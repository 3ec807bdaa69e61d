//! Column diagnosis: null and duplicate rates, health grades, suggestions.

pub mod engine;
pub mod text;

pub use engine::diagnose_batch;
