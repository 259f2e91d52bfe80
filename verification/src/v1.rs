//! The first version of the HTTP interface.
pub mod compile;
pub mod health;
pub mod index;
