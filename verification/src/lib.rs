//! Parsing and aggregation of fixed-format monthly climatological summary
//! reports.
//!
//! The pieces, leaf to root: [`text`] and [`lexer`] turn one line into
//! tokens; [`date`] and [`decimal`] give the parsed values exact, verified
//! representations; [`metadata`] reads the report header; [`day`] reads one
//! data line through a strict twelve-step walk; [`report`] assembles whole
//! reports and offers the date, range and merge queries; [`laws`] states and
//! proves the crate-level properties of all of it.
//!
//! Every parser's contract ties its result to a mathematical model of the
//! grammar, so what a text parses to is pinned down exactly, failures
//! included.
#![verifier::loop_isolation(false)]

pub mod date;
pub mod day;
pub mod decimal;
pub mod laws;
pub mod lexer;
pub mod metadata;
pub mod report;
pub mod text;
pub mod units;
