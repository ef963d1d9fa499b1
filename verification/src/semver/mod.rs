//! Versions, and the ways to say which versions are acceptable.

pub mod constraint;
pub mod range;
pub mod version;

pub use constraint::Constraint;
pub use range::{Bound, Range};
pub use version::Version;
