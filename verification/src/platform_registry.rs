//! The questions that the platform registry answers.

pub mod query;
