//! Counting solid k-mers in a stream of sequence records.
//!
//! A k-mer is solid once its canonical form has been seen twice. The library slides a
//! window of length k over each record, keeps the canonical k-mers seen so far, counts the
//! solid ones, and watches, at a fixed stride of records, whether the growth of that count
//! has levelled off, in which case the scan can stop early.

pub mod canonical;
pub mod table;
pub mod tracker;
pub mod monitor;
pub mod scan;
pub mod text;
pub mod input;
