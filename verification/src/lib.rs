//! Dependency resolution and lockfile handling for Quantum packages.
//!
//! The library holds the rules of the package manager: how a manifest is
//! checked, how a dependency declaration selects its source, in which order
//! the dependency graph is walked, and how the outcome is written down as a
//! lockfile. File, network and process work is left to the caller, who is
//! told what to do next and reports back what came of it.

pub mod dependency;
pub mod document;
pub mod fetch;
pub mod lockfile;
pub mod manifest;
pub mod manifest_file;
pub mod name_map;
pub mod package;
pub mod registry;
pub mod resolver;
pub mod scaffold;
pub mod testing;
pub mod text;
pub mod traversal;
