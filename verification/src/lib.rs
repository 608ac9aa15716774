//! Static dependency checker core.
//!
//! Given a snapshot of a project directory tree, the library locates the
//! designated source files (skipping hidden directories), extracts the
//! include-style dependency references they declare, and classifies each by
//! a two-tier existence check: first relative to the file's own directory,
//! then relative to the project root.
//!
//! All filesystem reading stays with the caller, which hands the scan a
//! [`FsEntry`] snapshot and plain values; everything the checker decides is
//! specified and verified here.

pub mod config;
pub mod extract;
pub mod fstree;
pub mod resolve;
pub mod scan;
pub mod text;

pub use config::Config;
pub use config::ParsingRules;
pub use config::effective_targets;
pub use extract::extract_dependencies;
pub use fstree::FsEntry;
pub use resolve::DependencyReport;
pub use resolve::ResolutionResult;
pub use resolve::resolve_dependencies;
pub use resolve::resolve_reference;
pub use scan::DetectiveError;
pub use scan::FileReport;
pub use scan::run_scan;
