//! Batch validation of CSV files.
//!
//! The library checks that a byte stream is structurally well-formed CSV
//! (every record has the same number of fields as the first record) and
//! aggregates the outcomes of a whole batch of file patterns into one
//! ordered list of failure messages.

pub mod batch;
pub mod digits;
pub mod encoding;
pub mod messages;
pub mod validator;
