//! cook: the decision logic of a small C and C++ package manager.
//!
//! The library works on plain values. What has to be read from disk, from the
//! network or from another program is handed in by the caller, and what has to
//! be written or run comes back as a value.
pub mod abi;
pub mod additions;
pub mod archive;
pub mod backend_laws;
pub mod backends;
pub mod build_laws;
pub mod builder;
pub mod cache;
pub mod checkout;
pub mod config;
pub mod digest;
pub mod externals;
pub mod failure;
pub mod findings;
pub mod generator;
pub mod lockfile;
pub mod ordered_map;
pub mod packages;
pub mod paths;
pub mod pkg_config;
pub mod programs;
pub mod project;
pub mod registry;
pub mod reporter;
pub mod resolution;
pub mod resolution_laws;
pub mod resolution_links;
pub mod resolver;
pub mod scanner;
pub mod sorting;
pub mod text;
pub mod versions;
