//! Version 2 of the interface under `/api`.
pub mod pdf;
