//! Packages: their names, what they say of themselves, and how to find out.

pub mod calls;
pub mod id;
pub mod info;
pub mod laws;
pub mod local;
pub mod model;
pub mod name;
pub mod paths;
pub mod remote;
pub mod retriever;
pub mod stored;
pub mod versions;

pub use id::PackageId;
pub use info::Package;
pub use model::Mode;
pub use name::Name;
pub use retriever::Retriever;
pub use versions::VersionTable;
