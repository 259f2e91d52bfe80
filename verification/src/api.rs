//! The HTTP interface under `/api`.
pub mod v1;
pub mod v2;
