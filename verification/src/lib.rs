//! A verified robots.txt parser and applicability checker.
//!
//! The grammar follows the classic robots-exclusion format: a line-oriented
//! document of `User-agent:`, `Allow:` and `Disallow:` directives with
//! comments, parsed into an ordered rule set that answers whether a crawler
//! agent may fetch a given URL.

pub mod grammar;
pub mod laws;
pub mod matching;
pub mod model;

pub use model::Robots;
pub use model::RobotsParser;
pub use model::Rule;
