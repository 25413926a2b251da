//! Scans the tracked, non-ignored files of a working tree for textual markers
//! and reports where they stand.
//!
//! The library holds the rules of the scan and proves what they give:
//!
//! - [`markers`]: the marker keys, and whether a line holds one;
//! - [`scan`]: the scan of one file's content, line by line;
//! - [`classify`]: what to do with a directory entry;
//! - [`walk`]: the traversal of the tree and the run's failure flag;
//! - [`stats`]: the totals of the run;
//! - [`report`]: the records that are emitted;
//! - [`repo`]: the queries put to the repository;
//! - [`config`]: the settings of a run;
//! - [`text`]: the byte-string helpers the others share.
//!
//! Reading directories and files, and writing the records out, is left to
//! the caller.

pub mod classify;
pub mod config;
pub mod markers;
pub mod repo;
pub mod report;
pub mod scan;
pub mod stats;
pub mod text;
pub mod walk;
