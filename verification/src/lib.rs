//! Finds `@brint.feature(..)` decorators on the top-level definitions of Python
//! source files, validates their keyword arguments, and groups the resulting
//! feature records by the version that introduced them.
//!
//! Every function in this crate is verified with Verus. Calls into `semver`,
//! `rustpython-parser` and `dashmap` go through small trusted wrappers whose
//! contracts are documented where they are declared.

pub mod args;
pub mod error;
pub mod extract;
pub mod feature;
pub mod python;
pub mod scan;
pub mod store;
pub mod syntax;
mod text;
pub mod version;
