//! Extraction of question/answer pairs from a line-oriented post dump.
//!
//! Each input line is decoded into a typed [`record::Row`]; rows that pass a
//! score threshold are kept in two id-keyed tables, which are then joined
//! into (title, question, answer) triples and encoded as CSV.

pub mod text;
pub mod markup;
pub mod record;
pub mod table;
pub mod engine;
pub mod csv_text;
