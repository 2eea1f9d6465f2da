//! Recipe discovery, parsing and version reconciliation.
//!
//! The crate scans a file tree for package recipe documents, parses each into
//! a normalized [`recipes::Recipe`] record with optional upstream-monitoring
//! metadata, reconciles local versions against upstream version data under a
//! bounded-concurrency scheduler, and renders the resulting update report.

pub mod monitoring;
pub mod nvd;
pub mod recipes;
pub mod reconcile;
pub mod registry;
pub mod render;
pub mod scan;
pub mod sequences;
pub mod strorder;
pub mod summit;
pub mod version;
