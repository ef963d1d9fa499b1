//! One version of one package.

use crate::semver::Version;
use crate::table::Key;
use vstd::prelude::*;

verus! {

/// What identifies a package to the solver.
pub trait PackageId {
    /// This is the project that is being solved for.
    spec fn stands_for_root(&self) -> bool;

    /// Whether this is the project that is being solved for.
    fn is_root(&self) -> (b: bool)
        ensures
            b == self.stands_for_root(),
    ;
}

/// One version of one package.
#[derive(PartialEq, Eq, Hash, Debug)]
pub struct Summary<P> {
    pub id: P,
    pub version: Version,
}

/// What a `Summary` stands for.
pub struct SummaryView<A> {
    pub id: A,
    pub version: Version,
}

impl<P: DeepView> DeepView for Summary<P> {
    type V = SummaryView<P::V>;

    open spec fn deep_view(&self) -> SummaryView<P::V> {
        SummaryView { id: self.id.deep_view(), version: self.version }
    }
}

impl<P: Key> Clone for Summary<P> {
    fn clone(&self) -> (r: Self)
        ensures
            r.deep_view() == self.deep_view(),
    {
        Summary { id: self.id.duplicate(), version: self.version }
    }
}

impl<P: Key> Key for Summary<P> {
    fn same(&self, other: &Self) -> (b: bool) {
        self.id.same(&other.id) && self.version == other.version
    }

    fn duplicate(&self) -> (r: Self) {
        self.clone()
    }
}

impl<P> Summary<P> {
    pub fn new(id: P, version: Version) -> (r: Summary<P>)
        ensures
            r == (Summary { id, version }),
    {
        Summary { id, version }
    }
}

/// A summary stands for what its id stands for, in its version.
pub proof fn lemma_summary_stands_for_id_and_version<P: DeepView>(s: Summary<P>)
    ensures
        s.deep_view().id == s.id.deep_view(),
        s.deep_view().version == s.version,
{
}

} // verus!
