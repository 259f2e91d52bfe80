//! Version 1 of the interface under `/api`.
pub mod compile;
