//! Package retrieval for Elm projects: which versions of a package exist, what
//! each of them depends on, and which of them a solver should try first.

pub mod package;
pub mod semver;
pub mod solver;
pub mod table;
pub mod text;
