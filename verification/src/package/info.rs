//! What a package says of itself.

use crate::package::name::{self, Name, NameView};
use crate::semver::range::{self, Range};
use vstd::prelude::*;

verus! {

/// The parts of a package's `elm.json` that a solver needs.
pub struct Package {
    /// The packages it depends on, and which versions of each it works with.
    pub dependencies: Vec<(Name, Range)>,
    /// The versions of Elm that it works with.
    pub elm_version: Range,
}

/// What a `Package` stands for.
pub struct PackageView {
    pub dependencies: Seq<(NameView, Range)>,
    pub elm_version: Range,
}

impl View for Package {
    type V = PackageView;

    open spec fn view(&self) -> PackageView {
        PackageView {
            dependencies: self.dependencies.deep_view(),
            elm_version: self.elm_version,
        }
    }
}

/// The dependencies that these texts stand for, where each name and each range
/// is one.
pub open spec fn read_dependencies(texts: Seq<(Seq<char>, Seq<char>)>) -> Option<
    Seq<(NameView, Range)>,
> {
    if forall|i: int|
        0 <= i < texts.len() ==> NameView::read((#[trigger] texts[i]).0) is Some && Range::read(
            texts[i].1,
        ) is Some {
        Some(
            Seq::new(
                texts.len(),
                |i: int| (NameView::read(texts[i].0)->0, Range::read(texts[i].1)->0),
            ),
        )
    } else {
        None
    }
}

impl PackageView {
    /// The package whose `elm.json` has these texts.
    pub open spec fn read(
        dependencies: Seq<(Seq<char>, Seq<char>)>,
        elm_version: Seq<char>,
    ) -> Option<PackageView> {
        match (read_dependencies(dependencies), Range::read(elm_version)) {
            (Some(dependencies), Some(elm_version)) => Some(
                PackageView { dependencies, elm_version },
            ),
            _ => None,
        }
    }
}

impl Package {
    /// Reads the texts that an `elm.json` has for the dependencies, which are
    /// names and ranges, and for the versions of Elm.
    pub fn parse(dependencies: &Vec<(String, String)>, elm_version: &str) -> (r: Option<Package>)
        ensures
            match r {
                Some(info) => PackageView::read(dependencies.deep_view(), elm_version@) == Some(
                    info@,
                ),
                None => PackageView::read(dependencies.deep_view(), elm_version@) is None,
            },
    {
        let ghost texts = dependencies.deep_view();
        let mut found: Vec<(Name, Range)> = Vec::new();
        let mut i: usize = 0;
        while i < dependencies.len()
            invariant
                i <= dependencies.len(),
                texts == dependencies.deep_view(),
                found.len() == i,
                forall|j: int|
                    0 <= j < i ==> NameView::read((#[trigger] texts[j]).0) == Some(found[j].0@)
                        && Range::read(texts[j].1) == Some(found[j].1),
            decreases dependencies.len() - i,
        {
            let (name, range) = &dependencies[i];
            assert(texts[i as int] == (name@, range@));
            match (Name::parse(name.as_str()), Range::parse(range.as_str())) {
                (Some(name), Some(range)) => found.push((name, range)),
                _ => {
                    return None;
                },
            }
            i = i + 1;
        }
        assert(found.deep_view() =~= read_dependencies(texts)->0);
        match Range::parse(elm_version) {
            Some(elm_version) => Some(Package { dependencies: found, elm_version }),
            None => None,
        }
    }

    /// The versions of Elm that the package works with.
    pub fn elm_version(&self) -> (r: Range)
        ensures
            r == self@.elm_version,
    {
        self.elm_version
    }
}

/// An `elm.json` can be read exactly when each name, each range and the versions
/// of Elm can. The package then has as many dependencies as there are texts, in
/// their order, and each is what its texts stand for.
pub proof fn lemma_each_dependency_is_read(texts: Seq<(Seq<char>, Seq<char>)>, elm: Seq<char>)
    ensures
        PackageView::read(texts, elm) is Some <==> {
            &&& Range::read(elm) is Some
            &&& forall|i: int|
                0 <= i < texts.len() ==> NameView::read((#[trigger] texts[i]).0) is Some
                    && Range::read(texts[i].1) is Some
        },
        PackageView::read(texts, elm) matches Some(p) ==> {
            &&& Range::read(elm) == Some(p.elm_version)
            &&& p.dependencies.len() == texts.len()
            &&& forall|i: int|
                0 <= i < texts.len() ==> NameView::read(texts[i].0) == Some(
                    (#[trigger] p.dependencies[i]).0,
                ) && Range::read(texts[i].1) == Some(p.dependencies[i].1)
        },
{
}

/// Reading a package back from the texts of its names and ranges gives the
/// package: all of its dependencies, in their order, and its versions of Elm.
pub proof fn lemma_package_reads_back(p: PackageView, texts: Seq<(Seq<char>, Seq<char>)>)
    requires
        forall|i: int|
            0 <= i < p.dependencies.len() ==> (#[trigger] p.dependencies[i]).0.valid() && !(
            p.dependencies[i].1.lower is Unbounded) && !(p.dependencies[i].1.upper is Unbounded),
        !(p.elm_version.lower is Unbounded),
        !(p.elm_version.upper is Unbounded),
        texts.len() == p.dependencies.len(),
        forall|i: int|
            0 <= i < texts.len() ==> #[trigger] texts[i] == (
                p.dependencies[i].0.text(),
                p.dependencies[i].1.text(),
            ),
    ensures
        PackageView::read(texts, p.elm_version.text()) == Some(p),
{
    range::lemma_range_text_reads_back(p.elm_version);
    assert forall|i: int| 0 <= i < texts.len() implies NameView::read((#[trigger] texts[i]).0)
        == Some(p.dependencies[i].0) && Range::read(texts[i].1) == Some(p.dependencies[i].1) by {
        let (name, range) = p.dependencies[i];
        name::lemma_name_text_reads_back(name);
        range::lemma_range_text_reads_back(range);
    }
    assert(read_dependencies(texts)->0 =~= p.dependencies);
}

/// A package stands for all of its dependencies, in their order, and for its
/// versions of Elm.
pub proof fn lemma_package_stands_for_what_it_holds(p: Package)
    ensures
        p@.elm_version == p.elm_version,
        p@.dependencies.len() == p.dependencies@.len(),
        forall|i: int|
            0 <= i < p.dependencies@.len() ==> #[trigger] p@.dependencies[i] == (
                p.dependencies@[i].0@,
                p.dependencies@[i].1,
            ),
{
}

/// What is read from the texts of an `elm.json` has as many dependencies as there
/// are texts, in their order, and each is what its texts stand for. It can be read
/// exactly when all of them can.
pub proof fn lemma_parse(dependencies: Vec<(String, String)>, elm: &str, r: Option<Package>)
    requires
        call_ensures(Package::parse, (&dependencies, elm), r),
    ensures
        r is Some <==> {
            &&& Range::read(elm@) is Some
            &&& forall|i: int|
                0 <= i < dependencies@.len() ==> NameView::read((#[trigger] dependencies@[i]).0@)
                    is Some && Range::read(dependencies@[i].1@) is Some
        },
        r matches Some(p) ==> {
            &&& Range::read(elm@) == Some(p.elm_version)
            &&& p.dependencies@.len() == dependencies@.len()
            &&& forall|i: int|
                0 <= i < dependencies@.len() ==> NameView::read(dependencies@[i].0@) == Some(
                    (#[trigger] p.dependencies@[i]).0@,
                ) && Range::read(dependencies@[i].1@) == Some(p.dependencies@[i].1)
        },
{
    let texts = dependencies.deep_view();
    assert forall|i: int| 0 <= i < texts.len() implies #[trigger] texts[i] == (
        dependencies@[i].0@,
        dependencies@[i].1@,
    ) by {}
    lemma_each_dependency_is_read(texts, elm@);
    if forall|i: int|
        0 <= i < dependencies@.len() ==> NameView::read((#[trigger] dependencies@[i]).0@) is Some
            && Range::read(dependencies@[i].1@) is Some {
        assert forall|i: int| 0 <= i < texts.len() implies NameView::read(
            (#[trigger] texts[i]).0,
        ) is Some && Range::read(texts[i].1) is Some by {
            assert(NameView::read(dependencies@[i].0@) is Some);
        }
    }
    if r is Some {
        let p = r->0;
        lemma_package_stands_for_what_it_holds(p);
        assert forall|i: int| 0 <= i < dependencies@.len() implies NameView::read(
            (#[trigger] dependencies@[i]).0@,
        ) is Some && Range::read(dependencies@[i].1@) is Some by {
            assert(NameView::read(texts[i].0) is Some);
        }
        assert forall|i: int| 0 <= i < dependencies@.len() implies NameView::read(
            dependencies@[i].0@,
        ) == Some((#[trigger] p.dependencies@[i]).0@) && Range::read(dependencies@[i].1@) == Some(
            p.dependencies@[i].1,
        ) by {
            assert(p@.dependencies[i] == (p.dependencies@[i].0@, p.dependencies@[i].1));
            assert(texts[i] == (dependencies@[i].0@, dependencies@[i].1@));
        }
    }
}

} // verus!
