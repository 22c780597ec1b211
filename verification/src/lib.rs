//! Structured decoding of a container runtime CLI's text output.
//!
//! The core of the crate is a set of verified text parsers: human-readable
//! byte sizes, fixed-format timestamps, port-mapping strings, and the
//! per-line JSON records that the CLI's listing subcommands print.

pub mod decode;
pub mod json;
pub mod ops;
pub mod ports;
pub mod records;
pub mod size;
pub mod text;
pub mod timefmt;
