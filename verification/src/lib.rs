//! Audits the public interface surface of a library's item graph and reports
//! every externally-defined type that leaks through that surface without
//! explicit approval.
//!
//! The crate is organised around three parts: a recursive visitor that walks
//! the item graph along publicly reachable paths (`visitor`), a classification
//! engine that decides for each type reference whether it is local, from a
//! base library, or externally owned and subject to an allow-list (`config`),
//! and an error model that collects, deduplicates and orders the resulting
//! findings (`error`).

pub mod config;
pub mod error;
pub mod glob;
pub mod graph;
pub mod path;
pub mod samples;
pub mod strings;
pub mod visitor;
