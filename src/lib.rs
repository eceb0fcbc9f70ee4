//! Verified pieces of a procedural tree-growth simulation: the rule that
//! decides whether a branch may still fork, the rasterisation of branch
//! segments into an RGBA frame, and the lines of an error report.
pub mod branching;
pub mod canvas;
pub mod report;

pub use report::log_error;
