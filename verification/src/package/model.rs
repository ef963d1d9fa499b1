//! What a retriever knows, and what each of its steps makes of it.

use crate::package::id::PackageIdView;
use crate::package::info::PackageView;
use crate::package::name::NameView;
use crate::package::paths;
use crate::package::versions::{self, VersionMap};
use crate::semver::{Range, Version};
use crate::solver::incompat::IncompatibilityView;
use crate::solver::summary::SummaryView;
use crate::table;
use vstd::prelude::*;

verus! {

/// Which versions to prefer: the oldest or the newest.
#[derive(Clone, Copy, PartialEq, Eq, Debug, Structural)]
pub enum Mode {
    Minimize,
    Maximize,
}

/// One version of one package.
pub type Pkg = SummaryView<PackageIdView>;

/// What cannot be chosen together.
pub type Conflict = IncompatibilityView<PackageIdView>;

/// What a retriever knows.
pub struct RetrieverView {
    /// What is known to be incompatible with each version of a package.
    pub deps: Map<Pkg, Seq<Conflict>>,
    /// The versions that exist of each package.
    pub versions: Map<PackageIdView, Seq<Version>>,
    /// The versions that have to be used.
    pub preferred: Map<PackageIdView, Version>,
    pub mode: Mode,
    /// Nothing may be downloaded.
    pub offline: bool,
}

/// The project that is being solved for.
pub open spec fn root() -> Pkg {
    SummaryView { id: PackageIdView::Root, version: Version { major: 1, minor: 0, patch: 0 } }
}

/// `pkg` works with the versions of `on` that are in `allowed`, and no others.
pub open spec fn requirement(pkg: Pkg, on: PackageIdView, allowed: Set<Version>) -> Conflict {
    IncompatibilityView { dependent: pkg, dependency: on, forbidden: allowed.complement() }
}

/// `pkg` works with the versions of each package that are in the range beside it.
pub open spec fn requirements(pkg: Pkg, on: Seq<(NameView, Range)>) -> Seq<Conflict> {
    Seq::new(on.len(), |i: int| requirement(pkg, PackageIdView::Pkg(on[i].0), on[i].1@))
}

/// What `pkg` is incompatible with when this is what it says of itself.
pub open spec fn conflicts_of(pkg: Pkg, info: PackageView) -> Seq<Conflict> {
    requirements(pkg, info.dependencies).push(
        requirement(pkg, PackageIdView::Elm, info.elm_version@),
    )
}

/// The versions of Elm that exist.
pub open spec fn elm_versions() -> Seq<Version> {
    seq![
        Version { major: 0, minor: 14, patch: 0 },
        Version { major: 0, minor: 15, patch: 0 },
        Version { major: 0, minor: 16, patch: 0 },
        Version { major: 0, minor: 17, patch: 0 },
        Version { major: 0, minor: 18, patch: 0 },
        Version { major: 0, minor: 19, patch: 0 },
        Version { major: 0, minor: 19, patch: 1 },
    ]
}

/// The versions of everything, where these are the ones of the packages.
pub open spec fn all_versions(packages: VersionMap) -> Map<PackageIdView, Seq<Version>> {
    Map::new(
        |id: PackageIdView| id matches PackageIdView::Pkg(name) ==> packages.contains_key(name),
        |id: PackageIdView|
            match id {
                PackageIdView::Root => seq![root().version],
                PackageIdView::Elm => elm_versions(),
                PackageIdView::Pkg(name) => packages[name],
            },
    )
}

/// `v` is the version to try first among those of `list` that are in `allowed`.
pub open spec fn is_best(
    v: Version,
    list: Seq<Version>,
    allowed: Set<Version>,
    mode: Mode,
) -> bool {
    &&& list.contains(v)
    &&& allowed.contains(v)
    &&& forall|w: Version| #[trigger]
        list.contains(w) && allowed.contains(w) ==> match mode {
            Mode::Minimize => !w.before(v),
            Mode::Maximize => !v.before(w),
        }
}

/// One of the versions of `list` is in `allowed`.
pub open spec fn some_allowed(list: Seq<Version>, allowed: Set<Version>) -> bool {
    exists|v: Version| #[trigger] list.contains(v) && allowed.contains(v)
}

/// How far finding out which versions exist has come.
pub enum FetchView {
    ReadCache,
    FetchRemote { versions: VersionMap, since: nat },
    Settle { versions: VersionMap, save: bool },
    Done,
}

/// The map itself, or the empty one where there is none.
pub open spec fn or_empty(m: Option<VersionMap>) -> VersionMap {
    match m {
        Some(m) => m,
        None => Map::empty(),
    }
}

/// What comes after `step`, once it brought `reply`.
pub open spec fn fetch_next(
    known: RetrieverView,
    step: FetchView,
    reply: Option<VersionMap>,
) -> (RetrieverView, FetchView) {
    match step {
        FetchView::ReadCache => {
            let cached = or_empty(reply);
            (
                known,
                if known.offline {
                    FetchView::Settle { versions: cached, save: false }
                } else {
                    FetchView::FetchRemote { versions: cached, since: table::total_len(cached) }
                },
            )
        },
        FetchView::FetchRemote { versions, since } => {
            let remote = or_empty(reply);
            (
                known,
                FetchView::Settle {
                    versions: versions::extended(versions, remote),
                    save: remote != Map::<NameView, Seq<Version>>::empty(),
                },
            )
        },
        FetchView::Settle { versions, save } => {
            let packages = versions::completed(versions, or_empty(reply));
            (RetrieverView { versions: all_versions(packages), ..known }, FetchView::Done)
        },
        FetchView::Done => (known, FetchView::Done),
    }
}

/// A file that may say what a package depends on.
#[derive(Clone, Copy, PartialEq, Eq, Debug, Structural)]
pub enum Source {
    /// What Elm 0.19.0 installed.
    Elm0190,
    /// What Elm 0.19.1 installed.
    Elm0191,
    /// What was downloaded earlier.
    Downloaded,
}

/// Something that may say what a package depends on.
pub enum RequestView {
    Read { source: Source, path: Seq<char> },
    Fetch { url: Seq<char>, path: Seq<char> },
}

/// How far finding out what a package is incompatible with has come.
pub enum LookupView<Cause> {
    Ask(RequestView),
    Done(Seq<Conflict>),
    /// It would take a download, which is not allowed.
    Offline,
    /// The download failed with this.
    Broken(Cause),
}

/// To look for what `pkg` depends on in this file.
pub open spec fn read_from(source: Source, pkg: Pkg) -> RequestView {
    RequestView::Read {
        source,
        path: match source {
            Source::Elm0190 => paths::stored_path("0.19.0"@, ""@, pkg),
            Source::Elm0191 => paths::stored_path("0.19.1"@, "s"@, pkg),
            Source::Downloaded => paths::cached_path(pkg),
        },
    }
}

/// `known`, and that this is what `pkg` says of itself.
pub open spec fn learned(known: RetrieverView, pkg: Pkg, info: PackageView) -> RetrieverView {
    RetrieverView { deps: known.deps.insert(pkg, conflicts_of(pkg, info)), ..known }
}

/// What comes next in finding out what `pkg` is incompatible with. There is no
/// `answer` at first, and then it is what was asked for and what it brought, or
/// why it failed. A file that cannot be read is passed over, whatever the cause;
/// the cause of a failed download is passed on.
pub open spec fn lookup_next<Cause>(
    known: RetrieverView,
    pkg: Pkg,
    answer: Option<(RequestView, Result<PackageView, Cause>)>,
) -> (RetrieverView, LookupView<Cause>) {
    match answer {
        None => (
            known,
            if pkg.id == PackageIdView::Elm {
                LookupView::Done(Seq::empty())
            } else if known.deps.contains_key(pkg) {
                LookupView::Done(known.deps[pkg])
            } else {
                LookupView::Ask(read_from(Source::Elm0190, pkg))
            },
        ),
        Some((_, Ok(info))) => (
            learned(known, pkg, info),
            LookupView::Done(conflicts_of(pkg, info)),
        ),
        Some((RequestView::Read { source, .. }, Err(_))) => (
            known,
            match source {
                Source::Elm0190 => LookupView::Ask(read_from(Source::Elm0191, pkg)),
                Source::Elm0191 => LookupView::Ask(read_from(Source::Downloaded, pkg)),
                Source::Downloaded => if known.offline {
                    LookupView::Offline
                } else {
                    LookupView::Ask(
                        RequestView::Fetch {
                            url: paths::deps_address(pkg),
                            path: paths::cached_path(pkg),
                        },
                    )
                },
            },
        ),
        Some((RequestView::Fetch { .. }, Err(cause))) => (known, LookupView::Broken(cause)),
    }
}

} // verus!
