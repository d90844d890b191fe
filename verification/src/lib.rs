//! Build-time asset pipeline.
//!
//! Mirrors a source tree of web assets into a destination tree: CSS, JS and
//! HTML files are minified (JS optionally identifier-mangled), files whose
//! names match a configured list of suffixes are copied verbatim, and all
//! other files are skipped.

pub mod adapters;
pub mod classify;
pub mod config;
pub mod errors;
pub mod laws;
pub mod mirror;
pub mod text;
pub mod tree;
