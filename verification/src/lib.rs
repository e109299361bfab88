//! Packaging of a compiled database-extension module into the on-disk layout
//! that the database server's extension loader expects: locate the compiled
//! shared library among the build outputs, concatenate SQL fragments in a
//! caller-declared order into one versioned script, and compute the
//! destination paths for every artifact, optionally rebased under a staging
//! root.
//!
//! All filesystem reads and writes, the build subprocess and the
//! configuration probe live outside this crate; the functions here take and
//! return plain values and carry contracts for everything they decide.

pub mod errors;
pub mod text;
pub mod paths;
pub mod artifact;
pub mod assemble;
pub mod buildcmd;
pub mod planner;



