//! A batch grading library for small source exercises.
//!
//! The library holds the decision logic of a grading harness: which files in a
//! directory tree count as exercises, which toolchain commands grade one
//! exercise and in what order, and how per-exercise outcomes are folded into a
//! report with consistent statistics. All I/O (walking the tree, spawning the
//! toolchain, printing, persisting the report) is left to the surrounding
//! application, which hands the library plain values.

pub mod discovery;
pub mod paths;
pub mod report;
pub mod runner;
pub mod text;
