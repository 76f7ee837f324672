//! Selects files beneath a root directory by glob-style patterns, filters
//! them through layered ignore rules, and renders the result either as a
//! stream of path/content units or as a size-sorted listing.

pub mod cli;
pub mod config;
pub mod file_processor;
pub mod output;
pub mod pattern;
pub mod sorting;
pub mod text;
pub mod traversal;
pub mod vcs;
