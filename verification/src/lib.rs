//! The verified core of a small web service that compiles TeX/LaTeX to PDF.
pub mod api;
pub mod bundle_index;
pub mod compile;
pub mod consul;
pub mod features;
pub mod headers;
pub mod reply;
pub mod settings;
pub mod state;
pub mod telemetry;
pub mod text;
pub mod v1;
