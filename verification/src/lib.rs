//! Static detection of lifetime-annotation bugs: use-after-free and
//! aliased-mutability defects caused by a function's return value or
//! cross-argument data outliving what its declared lifetimes justify.
//!
//! The crate decomposes the types in a function signature into reachable
//! sub-values with their bounding lifetimes, classifies (source, target)
//! pairs as structural violations, and confirms flagged pairs with a
//! dataflow analysis (taint propagation or points-to) over the function
//! body. A front end extracts signatures and bodies from source text and
//! hands them over as plain values; report rendering and I/O live outside
//! this crate.

pub mod alias;
pub mod analysis;
pub mod checks;
pub mod config;
pub mod driver;
pub mod lifetimes;
pub mod mir;
pub mod process;
pub mod report;
pub mod seqs;
pub mod taint;
pub mod types;
