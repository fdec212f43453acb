//! Core of a nuclear cross-section plotting tool: searching a catalog of
//! reaction records, paginating the filtered view, keeping a selection of
//! record ids, deriving dataset keys and fetch URLs for the selected records,
//! classifying chart axes from the selected series, and exporting the
//! aggregated series as JSON.
//!
//! All browser and network plumbing lives outside this crate; the library
//! works on plain strings and integers and is verified.

pub mod cache;
pub mod catalog;
pub mod chart;
pub mod export;
pub mod json;
pub mod pagination;
pub mod search;
pub mod selection;
pub mod series;
pub mod text;
