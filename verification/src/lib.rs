//! Recursive directory comparison: the rules by which every file under one
//! directory is looked for, compared and reported against another. Paths are
//! those of Unix.

pub mod algo;
pub mod cache;
pub mod check;
pub mod compare;
pub mod hashing;
pub mod options;
pub mod paths;
pub mod queue;
pub mod report;
pub mod run;
pub mod search;
pub mod signals;
pub mod spinner;
pub mod status;
pub mod style;
pub mod text;
pub mod unicode;
pub mod units;
