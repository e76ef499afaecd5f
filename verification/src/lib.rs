//! Loads a fixed-format, Shift-JIS encoded postal-code reference file into a
//! relational table, replacing the table's prior contents.
//!
//! The verified core is the per-line pipeline: decode, clean, split into
//! fields, apply the open-ended validity sentinel, normalize kana width,
//! filter by validity period, and coerce empty fields to NULL for storage.
//! Database and file I/O live outside this crate and drive the pipeline
//! through the run-controller state machine in [`run`].

pub mod clock;
pub mod codec;
pub mod record;
pub mod run;
pub mod text;
