//! Audits filesystem observations against declarative compliance rules.
//!
//! The library holds the rule records and the evaluator that folds what was
//! observed on disk for each rule into one exit-facing status code. Reading the
//! filesystem (expanding patterns, reading modes, probing for files) is left to
//! the caller, which hands the results over as plain values.
pub mod evaluate;
pub mod laws;
pub mod observation;
pub mod paths;
pub mod rule;
