//! What a version solver works with.

pub mod incompat;
pub mod retriever;
pub mod summary;

pub use incompat::Incompatibility;
pub use summary::Summary;
