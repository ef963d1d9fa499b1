//! Where a solver learns about packages.

use crate::semver::{Constraint, Version};
use crate::solver::incompat::Incompatibility;
use crate::solver::summary::{self, Summary};
use vstd::prelude::*;

verus! {

/// How far a retriever has come with finding out what a package is
/// incompatible with.
pub enum Progress<P, Request, Error, Cause> {
    /// Do this, and come back with what it brought.
    Ask(Request),
    /// This is what the package is incompatible with.
    Done(Vec<Incompatibility<P>>),
    /// There is no way to find out.
    Failed(Error),
    /// What was asked for failed with this, and there is no other way to find out.
    Broken(Cause),
}

/// A source of information about packages.
pub trait Retriever {
    type PackageId: summary::PackageId;

    /// Something that has to be read or downloaded.
    type Request;

    /// What reading or downloading it brings.
    type Reply;

    type Error;

    /// The project that is being solved for.
    fn root(&self) -> Summary<Self::PackageId>;

    /// Finds out what `pkg` is incompatible with. The first call has no answer;
    /// each later one has the last request and what it brought, or why it failed.
    fn incompats<Cause>(
        &mut self,
        pkg: &Summary<Self::PackageId>,
        answer: Option<(Self::Request, Result<Self::Reply, Cause>)>,
    ) -> Progress<Self::PackageId, Self::Request, Self::Error, Cause>;

    /// How many versions of `pkg` there are.
    fn count_versions(&self, pkg: &Self::PackageId) -> usize;

    /// The version of `pkg` to try first among those that satisfy `con`.
    fn best(&mut self, pkg: &Self::PackageId, con: &Constraint) -> Result<Version, Self::Error>;
}

} // verus!
