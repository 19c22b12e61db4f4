//! A local development front end for PHP applications: discovers PHP
//! executables installed on the host, merges what it finds into a catalog
//! keyed by version, selects one to run, and routes HTTP requests either to
//! static files or to a backend script execution.
//!
//! This crate holds the verified logic: name classification, version-output
//! parsing, catalog construction and merging, selection, and the request
//! routing and backend-response translation rules. Process spawning, the
//! filesystem walk and the network listener live outside it and hand plain
//! values in.

pub mod backend;
pub mod binary;
pub mod catalog;
pub mod chars;
pub mod config;
pub mod matcher;
pub mod paths;
pub mod proxy;
pub mod report;
pub mod version;

use vstd::prelude::*;

verus! {

} // verus!
