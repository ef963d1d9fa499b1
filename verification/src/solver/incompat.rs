//! What cannot be chosen together.

use crate::semver::{Constraint, Version};
use crate::solver::summary::{Summary, SummaryView};
use crate::table::Key;
use vstd::prelude::*;

verus! {

/// One version of a package cannot be chosen together with some versions of
/// another one.
#[derive(Debug)]
pub struct Incompatibility<P> {
    dependent: Summary<P>,
    dependency: P,
    forbidden: Constraint,
}

/// What an `Incompatibility` stands for.
pub struct IncompatibilityView<A> {
    /// The version of a package that depends on another.
    pub dependent: SummaryView<A>,
    /// What it depends on.
    pub dependency: A,
    /// The versions of the dependency that it does not work with.
    pub forbidden: Set<Version>,
}

impl<A> IncompatibilityView<A> {
    /// A choice of versions has both sides of the incompatibility.
    pub open spec fn violated_by(self, chosen: Map<A, Version>) -> bool {
        &&& chosen.contains_key(self.dependent.id)
        &&& chosen[self.dependent.id] == self.dependent.version
        &&& chosen.contains_key(self.dependency)
        &&& self.forbidden.contains(chosen[self.dependency])
    }
}

impl<P: DeepView> DeepView for Incompatibility<P> {
    type V = IncompatibilityView<P::V>;

    closed spec fn deep_view(&self) -> IncompatibilityView<P::V> {
        IncompatibilityView {
            dependent: self.dependent.deep_view(),
            dependency: self.dependency.deep_view(),
            forbidden: self.forbidden@,
        }
    }
}

impl<P: Key> Clone for Incompatibility<P> {
    fn clone(&self) -> (r: Self)
        ensures
            r.deep_view() == self.deep_view(),
    {
        Incompatibility {
            dependent: self.dependent.clone(),
            dependency: self.dependency.duplicate(),
            forbidden: self.forbidden.clone(),
        }
    }
}

impl<P: DeepView> Incompatibility<P> {
    /// `a` cannot be chosen together with the versions of `b` that satisfy the
    /// constraint.
    pub fn from_dep(a: Summary<P>, b: (P, Constraint)) -> (r: Incompatibility<P>)
        ensures
            r.deep_view() == (IncompatibilityView {
                dependent: a.deep_view(),
                dependency: b.0.deep_view(),
                forbidden: b.1@,
            }),
    {
        Incompatibility { dependent: a, dependency: b.0, forbidden: b.1 }
    }

    /// The version of a package that depends on another.
    pub fn dependent(&self) -> (r: &Summary<P>)
        ensures
            r.deep_view() == self.deep_view().dependent,
    {
        &self.dependent
    }

    /// What it depends on.
    pub fn dependency(&self) -> (r: &P)
        ensures
            r.deep_view() == self.deep_view().dependency,
    {
        &self.dependency
    }

    /// Whether the version `v` of the dependency is one that it does not work with.
    pub fn forbids(&self, v: &Version) -> (b: bool)
        ensures
            b == self.deep_view().forbidden.contains(*v),
    {
        self.forbidden.satisfies(v)
    }
}

/// A choice of versions violates an incompatibility when it has the dependent in
/// that version, and a forbidden version of the dependency.
pub proof fn lemma_violated_when_both_are_chosen<A>(
    rule: IncompatibilityView<A>,
    chosen: Map<A, Version>,
    v: Version,
)
    requires
        chosen.contains_key(rule.dependent.id),
        chosen[rule.dependent.id] == rule.dependent.version,
    ensures
        !chosen.contains_key(rule.dependency) ==> !rule.violated_by(chosen),
        rule.dependency != rule.dependent.id ==> (rule.violated_by(
            chosen.insert(rule.dependency, v),
        ) <==> rule.forbidden.contains(v)),
        !rule.violated_by(chosen.remove(rule.dependent.id)),
{
}

/// An incompatibility has the dependent and the dependency that it was made with,
/// and forbids exactly the versions that satisfy the constraint.
pub proof fn lemma_from_dep<P: DeepView>(
    a: Summary<P>,
    b: P,
    con: Constraint,
    r: Incompatibility<P>,
    v: Version,
    forbidden: bool,
)
    requires
        call_ensures(Incompatibility::<P>::from_dep, (a, (b, con)), r),
        call_ensures(Incompatibility::<P>::forbids, (&r, &v), forbidden),
    ensures
        r.deep_view().dependent == a.deep_view(),
        r.deep_view().dependency == b.deep_view(),
        forbidden <==> con@.contains(v),
{
}

} // verus!
