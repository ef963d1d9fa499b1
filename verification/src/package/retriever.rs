//! A source of information about Elm packages.

use crate::package::id::{PackageId, PackageIdView};
use crate::package::info::{Package, PackageView};
use crate::package::model::{self, FetchView, LookupView};
use crate::package::model::{RequestView, RetrieverView, Source};
use crate::package::name::{Name, NameView};
use crate::package::paths;
use crate::package::versions::{self, VersionTable};
use crate::semver::{Constraint, Range, Version};
use crate::solver::retriever::{self, Progress};
use crate::solver::{Incompatibility, Summary};
use crate::table::{self, Table};
use vstd::prelude::*;

pub use crate::package::model::Mode;

verus! {

/// Knows which versions of Elm packages exist and what they depend on, and how
/// to find out what it does not know.
pub struct Retriever {
    deps_cache: Table<Summary<PackageId>, Vec<Incompatibility<PackageId>>>,
    versions: Table<PackageId, Vec<Version>>,
    preferred_versions: Table<PackageId, Version>,
    mode: Mode,
    offline: bool,
}

impl View for Retriever {
    type V = RetrieverView;

    closed spec fn view(&self) -> RetrieverView {
        RetrieverView {
            deps: self.deps_cache@,
            versions: self.versions@,
            preferred: self.preferred_versions@,
            mode: self.mode,
            offline: self.offline,
        }
    }
}

/// How far finding out which versions exist has come, and what to do next.
pub enum VersionFetch {
    /// Read the versions that were kept, which are the reply.
    ReadCache,
    /// Ask the package site for the versions that it has beyond the first
    /// `since`; they are the reply.
    FetchRemote { versions: VersionTable, since: usize },
    /// Keep the versions if they are to be saved, and find the ones that are
    /// installed on this machine, which are the reply.
    Settle { versions: VersionTable, save: bool },
    /// There is nothing left to do.
    Done,
}

impl View for VersionFetch {
    type V = FetchView;

    open spec fn view(&self) -> FetchView {
        match self {
            VersionFetch::ReadCache => FetchView::ReadCache,
            VersionFetch::FetchRemote { versions, since } => FetchView::FetchRemote {
                versions: versions@,
                since: *since as nat,
            },
            VersionFetch::Settle { versions, save } => FetchView::Settle {
                versions: versions@,
                save: *save,
            },
            VersionFetch::Done => FetchView::Done,
        }
    }
}

/// Something that may say what a package depends on. Paths are below the folder
/// that packages are kept in.
#[derive(PartialEq, Eq, Debug)]
pub enum Request {
    /// Read this file.
    Read { source: Source, path: String },
    /// Download from this address, and keep what comes in this file.
    Fetch { url: String, path: String },
}

impl View for Request {
    type V = RequestView;

    open spec fn view(&self) -> RequestView {
        match self {
            Request::Read { source, path } => RequestView::Read { source: *source, path: path@ },
            Request::Fetch { url, path } => RequestView::Fetch { url: url@, path: path@ },
        }
    }
}

/// Why a retriever cannot tell what it was asked.
pub enum RetrieveError {
    /// There is no telling what a package depends on without a download.
    Offline,
    /// This version has to be used, but the constraint does not allow it.
    NotAllowed { version: Version, pkg: PackageId, con: Constraint },
    /// No version satisfies the constraint.
    NoVersion(PackageId),
    /// There is no such package.
    UnknownPackage(PackageId),
}

impl RetrieveError {
    pub open spec fn text(self) -> Seq<char> {
        match self {
            RetrieveError::Offline =>
                "I need to fetch dependencies from package.elm-lang.org but I'm working in offline mode!"@,
            RetrieveError::NotAllowed { version, pkg, con } => "I want to use version "@
                + version.text() + " for "@ + pkg@.text()
                + " but it's not allowed by constraint "@ + con.text(),
            RetrieveError::NoVersion(pkg) => "Failed to find a version for "@ + pkg@.text(),
            RetrieveError::UnknownPackage(pkg) => "Unknown package "@ + pkg@.text(),
        }
    }

    /// What to tell the user.
    pub fn message(&self) -> (r: String)
        ensures
            r@ == self.text(),
    {
        match self {
            RetrieveError::Offline =>
                "I need to fetch dependencies from package.elm-lang.org but I'm working in offline mode!".to_owned(),
            RetrieveError::NotAllowed { version, pkg, con } => {
                let mut r: String = "I want to use version ".to_owned();
                r.append(version.to_text().as_str());
                r.append(" for ");
                r.append(pkg.to_text().as_str());
                r.append(" but it's not allowed by constraint ");
                r.append(con.to_text().as_str());
                r
            },
            RetrieveError::NoVersion(pkg) => {
                "Failed to find a version for ".to_owned().concat(pkg.to_text().as_str())
            },
            RetrieveError::UnknownPackage(pkg) => {
                "Unknown package ".to_owned().concat(pkg.to_text().as_str())
            },
        }
    }
}

/// What came of a search, seen from outside.
pub open spec fn lookup_view<Cause>(
    progress: Progress<PackageId, Request, RetrieveError, Cause>,
) -> Option<LookupView<Cause>> {
    match progress {
        Progress::Ask(request) => Some(LookupView::Ask(request@)),
        Progress::Done(list) => Some(LookupView::Done(list.deep_view())),
        Progress::Failed(RetrieveError::Offline) => Some(LookupView::Offline),
        Progress::Failed(_) => None,
        Progress::Broken(cause) => Some(LookupView::Broken(cause)),
    }
}

/// What an answer to a request stands for.
pub open spec fn answer_view<Cause>(
    answer: Option<(Request, Result<Package, Cause>)>,
) -> Option<(RequestView, Result<PackageView, Cause>)> {
    match answer {
        None => None,
        Some((request, Ok(info))) => Some((request@, Ok(info@))),
        Some((request, Err(cause))) => Some((request@, Err(cause))),
    }
}

impl Retriever {
    /// A retriever for a project that works with these versions of Elm. It
    /// knows of no versions yet, and prefers the newest ones.
    pub fn new(elm_version: &Constraint, offline: bool) -> (r: Retriever)
        ensures
            r@ == (RetrieverView {
                deps: Map::empty().insert(
                    model::root(),
                    seq![model::requirement(model::root(), PackageIdView::Elm, elm_version@)],
                ),
                versions: Map::empty(),
                preferred: Map::empty(),
                mode: Mode::Maximize,
                offline,
            }),
    {
        let mut deps_cache: Table<Summary<PackageId>, Vec<Incompatibility<PackageId>>> =
            Table::new();
        deps_cache.push_to(
            Self::root(),
            Incompatibility::from_dep(Self::root(), (PackageId::Elm, elm_version.complement())),
        );
        assert(deps_cache@ =~= Map::empty().insert(
            model::root(),
            seq![model::requirement(model::root(), PackageIdView::Elm, elm_version@)],
        ));
        Retriever {
            deps_cache,
            versions: Table::new(),
            preferred_versions: Table::new(),
            mode: Mode::Maximize,
            offline,
        }
    }

    /// Prefers the oldest versions from now on.
    pub fn minimize(&mut self)
        ensures
            final(self)@ == (RetrieverView { mode: Mode::Minimize, ..old(self)@ }),
    {
        self.mode = Mode::Minimize;
    }

    /// The project depends on these packages, each in the range beside it.
    pub fn add_deps(&mut self, deps: &Vec<(Name, Range)>)
        ensures
            final(self)@ == (RetrieverView {
                deps: old(self)@.deps.insert(
                    model::root(),
                    table::list_at(old(self)@.deps, model::root()) + model::requirements(
                        model::root(),
                        deps.deep_view(),
                    ),
                ),
                ..old(self)@
            }),
    {
        let added: Vec<Incompatibility<PackageId>> = requirement_list(&Self::root(), deps);
        self.deps_cache.append_to(Self::root(), added);
    }

    /// The project depends on the package, in a version that satisfies the
    /// constraint where there is one.
    pub fn add_dep(&mut self, name: Name, version: Option<Constraint>)
        ensures
            final(self)@ == (RetrieverView {
                deps: old(self)@.deps.insert(
                    model::root(),
                    table::list_at(old(self)@.deps, model::root()).push(
                        model::requirement(
                            model::root(),
                            PackageIdView::Pkg(name@),
                            match version {
                                Some(c) => c@,
                                None => Set::full(),
                            },
                        ),
                    ),
                ),
                ..old(self)@
            }),
    {
        let constraint: Constraint = match &version {
            Some(c) => c.complement(),
            None => Constraint::empty(),
        };
        proof {
            if version is None {
                assert(constraint@ =~= Set::<Version>::full().complement());
            }
        }
        self.deps_cache.push_to(
            Self::root(),
            Incompatibility::from_dep(Self::root(), (PackageId::from(name), constraint)),
        );
    }

    /// These versions have to be used, in place of others that had to before.
    pub fn add_preferred_versions(&mut self, versions: Vec<(PackageId, Version)>)
        ensures
            final(self)@ == (RetrieverView {
                preferred: old(self)@.preferred.union_prefer_right(
                    table::entries_map(versions.deep_view()),
                ),
                ..old(self)@
            }),
    {
        let ghost start = self.preferred_versions@;
        let ghost all = versions.deep_view();
        let mut i: usize = 0;
        assert(start =~= start.union_prefer_right(table::entries_map(all.take(0))));
        while i < versions.len()
            invariant
                i <= versions.len(),
                all == versions.deep_view(),
                self@ == (RetrieverView {
                    preferred: start.union_prefer_right(
                        table::entries_map(all.take(i as int)),
                    ),
                    ..old(self)@
                }),
            decreases versions.len() - i,
        {
            let (id, version) = &versions[i];
            assert(all.take(i + 1).drop_last() =~= all.take(i as int));
            self.preferred_versions.insert(id.clone(), *version);
            assert(self.preferred_versions@ =~= start.union_prefer_right(
                table::entries_map(all.take(i + 1)),
            ));
            i = i + 1;
        }
        assert(all.take(versions.len() as int) =~= all);
    }

    /// How many versions are listed, over all packages.
    pub fn count_versions(versions_map: &VersionTable) -> (n: usize)
        requires
            table::total_len(versions_map@) <= usize::MAX,
        ensures
            n == table::total_len(versions_map@),
    {
        versions::count(versions_map)
    }

    /// The project that is being solved for.
    pub fn root() -> (r: Summary<PackageId>)
        ensures
            r.deep_view() == model::root(),
    {
        Summary::new(PackageId::Root, Version::new(1, 0, 0))
    }

    /// Notes what `pkg` says of itself, and tells what it is incompatible with.
    pub fn deps_from_package(
        &mut self,
        pkg: &Summary<PackageId>,
        info: &Package,
    ) -> (r: Vec<Incompatibility<PackageId>>)
        ensures
            r.deep_view() == model::conflicts_of(pkg.deep_view(), info@),
            final(self)@ == model::learned(old(self)@, pkg.deep_view(), info@),
    {
        let mut deps: Vec<Incompatibility<PackageId>> = requirement_list(pkg, &info.dependencies);
        let ghost most = deps.deep_view();
        let last: Incompatibility<PackageId> = Incompatibility::from_dep(
            pkg.clone(),
            (PackageId::Elm, info.elm_version().to_constraint().complement()),
        );
        let ghost end = last.deep_view();
        deps.push(last);
        assert(deps.deep_view() =~= most.push(end));
        let copy: Vec<Incompatibility<PackageId>> = deps.clone();
        assert(copy.deep_view() =~= deps.deep_view());
        self.deps_cache.insert(pkg.clone(), copy);
        deps
    }
}

impl Retriever {
    /// Goes on with finding out which versions exist, once `step` brought
    /// `reply`, which is `None` where it failed. The first step is to read the
    /// versions that were kept.
    pub fn fetch_versions(
        &mut self,
        step: VersionFetch,
        reply: Option<VersionTable>,
    ) -> (next: VersionFetch)
        requires
            step is ReadCache && !old(self)@.offline ==> (reply matches Some(kept)
                ==> table::total_len(kept@) <= usize::MAX),
        ensures
            (final(self)@, next@) == model::fetch_next(
                old(self)@,
                step@,
                match reply {
                    Some(versions) => Some(versions@),
                    None => None,
                },
            ),
    {
        let reply: VersionTable = match reply {
            Some(versions) => versions,
            None => VersionTable::new(),
        };
        match step {
            VersionFetch::ReadCache => {
                if self.offline {
                    VersionFetch::Settle { versions: reply, save: false }
                } else {
                    let since: usize = Self::count_versions(&reply);
                    VersionFetch::FetchRemote { versions: reply, since }
                }
            },
            VersionFetch::FetchRemote { versions, since } => {
                let mut versions = versions;
                let save: bool = versions::extend(&mut versions, &reply);
                VersionFetch::Settle { versions, save }
            },
            VersionFetch::Settle { versions, save } => {
                let mut versions = versions;
                versions::complete(&mut versions, &reply);
                self.versions = with_root_and_elm(&versions);
                VersionFetch::Done
            },
            VersionFetch::Done => VersionFetch::Done,
        }
    }
}

/// The versions of everything, where these are the ones of the packages.
fn with_root_and_elm(packages: &VersionTable) -> (r: Table<PackageId, Vec<Version>>)
    ensures
        r@ == model::all_versions(packages@),
{
    let mut r: Table<PackageId, Vec<Version>> = Table::new();
    let len: usize = packages.len();
    let ghost all = packages.listed();
    let mut i: usize = 0;
    while i < len
        invariant
            len == all.len(),
            all == packages.listed(),
            i <= len,
            table::distinct_keys(all),
            forall|name: NameView|
                #![trigger r@.contains_key(PackageIdView::Pkg(name))]
                r@.contains_key(PackageIdView::Pkg(name)) == table::entries_map(
                    all.take(i as int),
                ).contains_key(name),
            forall|name: NameView|
                #![trigger r@[PackageIdView::Pkg(name)]]
                table::entries_map(all.take(i as int)).contains_key(name)
                    ==> r@[PackageIdView::Pkg(name)] == table::entries_map(
                    all.take(i as int),
                )[name],
        decreases len - i,
    {
        let (name, list) = packages.at(i);
        let copy: Vec<Version> = list.clone();
        assert(copy.deep_view() =~= list.deep_view());
        assert(all.take(i + 1).drop_last() =~= all.take(i as int));
        r.insert(PackageId::from(name.clone()), copy);
        i = i + 1;
    }
    assert(all.take(len as int) =~= all);
    let mut root: Vec<Version> = Vec::new();
    root.push(Version::new(1, 0, 0));
    assert(root.deep_view() =~= seq![model::root().version]);
    r.insert(PackageId::Root, root);
    let mut elm: Vec<Version> = Vec::new();
    elm.push(Version::new(0, 14, 0));
    elm.push(Version::new(0, 15, 0));
    elm.push(Version::new(0, 16, 0));
    elm.push(Version::new(0, 17, 0));
    elm.push(Version::new(0, 18, 0));
    elm.push(Version::new(0, 19, 0));
    elm.push(Version::new(0, 19, 1));
    assert(elm.deep_view() =~= model::elm_versions());
    r.insert(PackageId::Elm, elm);
    assert(r@ =~= model::all_versions(packages@));
    r
}

impl retriever::Retriever for Retriever {
    type PackageId = PackageId;

    type Request = Request;

    type Reply = Package;

    type Error = RetrieveError;

    fn root(&self) -> (r: Summary<PackageId>)
        ensures
            r.deep_view() == model::root(),
    {
        Self::root()
    }

    fn incompats<Cause>(
        &mut self,
        pkg: &Summary<PackageId>,
        answer: Option<(Request, Result<Package, Cause>)>,
    ) -> (r: Progress<PackageId, Request, RetrieveError, Cause>)
        ensures
            ({
                let (known, next) = model::lookup_next(
                    old(self)@,
                    pkg.deep_view(),
                    answer_view(answer),
                );
                final(self)@ == known && lookup_view(r) == Some(next)
            }),
            answer matches Some((_, Ok(info))) ==> (r matches Progress::Done(list)
                && list.deep_view() == model::conflicts_of(pkg.deep_view(), info@)
                && final(self)@.deps == old(self)@.deps.insert(pkg.deep_view(), list.deep_view())),
            answer matches Some((Request::Fetch { .. }, Err(cause))) ==> r == Progress::<
                PackageId,
                Request,
                RetrieveError,
                Cause,
            >::Broken(cause),
    {
        match answer {
            None => {
                if matches!(pkg.id, PackageId::Elm) {
                    let none: Vec<Incompatibility<PackageId>> = Vec::new();
                    assert(none.deep_view() =~= Seq::empty());
                    return Progress::Done(none);
                }
                match self.deps_cache.get(pkg) {
                    Some(deps) => {
                        let copy: Vec<Incompatibility<PackageId>> = deps.clone();
                        assert(copy.deep_view() =~= deps.deep_view());
                        Progress::Done(copy)
                    },
                    None => Progress::Ask(read_request(Source::Elm0190, pkg)),
                }
            },
            Some((_, Ok(info))) => Progress::Done(self.deps_from_package(pkg, &info)),
            Some((Request::Read { source, .. }, Err(_))) => match source {
                Source::Elm0190 => Progress::Ask(read_request(Source::Elm0191, pkg)),
                Source::Elm0191 => Progress::Ask(read_request(Source::Downloaded, pkg)),
                Source::Downloaded => if self.offline {
                    Progress::Failed(RetrieveError::Offline)
                } else {
                    Progress::Ask(
                        Request::Fetch {
                            url: paths::deps_url(pkg),
                            path: paths::cached_json_path(pkg),
                        },
                    )
                },
            },
            Some((Request::Fetch { .. }, Err(cause))) => Progress::Broken(cause),
        }
    }

    fn count_versions(&self, pkg: &PackageId) -> (n: usize)
        ensures
            n == table::list_at(self@.versions, pkg@).len(),
    {
        match self.versions.get(pkg) {
            Some(list) => {
                assert(list.deep_view().len() == list.len());
                list.len()
            },
            None => 0,
        }
    }

    fn best(&mut self, pkg: &PackageId, con: &Constraint) -> (r: Result<Version, RetrieveError>)
        ensures
            final(self)@ == old(self)@,
            ({
                let known = old(self)@;
                if known.preferred.contains_key(pkg@) {
                    let version = known.preferred[pkg@];
                    if con@.contains(version) {
                        r == Ok::<_, RetrieveError>(version)
                    } else {
                        &&& r matches Err(RetrieveError::NotAllowed { version: v, pkg: p, con: c })
                        &&& v == version
                        &&& p@ == pkg@
                        &&& c.ranges() == con.ranges()
                    }
                } else if known.versions.contains_key(pkg@) {
                    let list = known.versions[pkg@];
                    if model::some_allowed(list, con@) {
                        r matches Ok(v) && model::is_best(v, list, con@, known.mode)
                    } else {
                        r matches Err(RetrieveError::NoVersion(p)) && p@ == pkg@
                    }
                } else {
                    r matches Err(RetrieveError::UnknownPackage(p)) && p@ == pkg@
                }
            }),
    {
        if let Some(version) = self.preferred_versions.get(pkg) {
            if con.satisfies(version) {
                Ok(*version)
            } else {
                Err(
                    RetrieveError::NotAllowed {
                        version: *version,
                        pkg: pkg.clone(),
                        con: con.clone(),
                    },
                )
            }
        } else if let Some(list) = self.versions.get(pkg) {
            assert(list.deep_view() =~= list@);
            match best_of(list, con, self.mode) {
                Some(version) => Ok(version),
                None => Err(RetrieveError::NoVersion(pkg.clone())),
            }
        } else {
            Err(RetrieveError::UnknownPackage(pkg.clone()))
        }
    }
}

/// The version to try first among those of `list` that satisfy `con`.
fn best_of(list: &Vec<Version>, con: &Constraint, mode: Mode) -> (r: Option<Version>)
    ensures
        match r {
            Some(v) => model::is_best(v, list@, con@, mode),
            None => !model::some_allowed(list@, con@),
        },
{
    let mut best: Option<Version> = None;
    let mut i: usize = 0;
    while i < list.len()
        invariant
            i <= list.len(),
            match best {
                Some(v) => model::is_best(v, list@.take(i as int), con@, mode),
                None => !model::some_allowed(list@.take(i as int), con@),
            },
        decreases list.len() - i,
    {
        let candidate: Version = list[i];
        let ghost seen = list@.take(i as int);
        let ghost now = list@.take(i + 1);
        let ghost earlier = best;
        if con.satisfies(&candidate) {
            best = match best {
                None => Some(candidate),
                Some(v) => {
                    let better: bool = match mode {
                        Mode::Minimize => !v.is_before(&candidate),
                        Mode::Maximize => !candidate.is_before(&v),
                    };
                    if better {
                        Some(candidate)
                    } else {
                        Some(v)
                    }
                },
            };
        }
        proof {
            assert(now =~= seen.push(candidate));
            assert forall|w: Version| #[trigger] now.contains(w) <==> seen.contains(w) || w
                == candidate by {
                if seen.contains(w) {
                    let j = choose|j: int| 0 <= j < seen.len() && seen[j] == w;
                    assert(now[j] == w);
                }
                if now.contains(w) {
                    let j = choose|j: int| 0 <= j < now.len() && now[j] == w;
                    if j < i {
                        assert(seen[j] == w);
                    }
                }
                assert(now[i as int] == candidate);
            }
            assert(now.contains(candidate));
            if let Some(v) = earlier {
                assert(seen.contains(v));
                assert(now.contains(v));
            }
        }
        i = i + 1;
    }
    assert(list@.take(list.len() as int) =~= list@);
    best
}

/// To look for what `pkg` depends on in this file.
fn read_request(source: Source, pkg: &Summary<PackageId>) -> (r: Request)
    ensures
        r@ == model::read_from(source, pkg.deep_view()),
{
    let path: String = match source {
        Source::Elm0190 => paths::stored_json_path("0.19.0", "", pkg),
        Source::Elm0191 => paths::stored_json_path("0.19.1", "s", pkg),
        Source::Downloaded => paths::cached_json_path(pkg),
    };
    Request::Read { source, path }
}

/// What `pkg` is incompatible with when it depends on these packages, each in
/// the range beside it.
fn requirement_list(
    pkg: &Summary<PackageId>,
    on: &Vec<(Name, Range)>,
) -> (r: Vec<Incompatibility<PackageId>>)
    ensures
        r.deep_view() == model::requirements(pkg.deep_view(), on.deep_view()),
{
    let mut r: Vec<Incompatibility<PackageId>> = Vec::new();
    let mut i: usize = 0;
    while i < on.len()
        invariant
            i <= on.len(),
            r.len() == i,
            forall|j: int|
                0 <= j < i ==> (#[trigger] r[j]).deep_view() == model::requirements(
                    pkg.deep_view(),
                    on.deep_view(),
                )[j],
        decreases on.len() - i,
    {
        let (name, range) = &on[i];
        let constraint: Constraint = range.to_constraint().complement();
        r.push(
            Incompatibility::from_dep(pkg.clone(), (PackageId::from(name.clone()), constraint)),
        );
        i = i + 1;
    }
    assert(r.deep_view() =~= model::requirements(pkg.deep_view(), on.deep_view()));
    r
}

/// A request stands for what is asked for: the file, or the address and the file.
pub proof fn lemma_request_stands_for_what_is_asked(request: Request)
    ensures
        match request {
            Request::Read { source, path } => request@ == (RequestView::Read {
                source,
                path: path@,
            }),
            Request::Fetch { url, path } => request@ == (RequestView::Fetch {
                url: url@,
                path: path@,
            }),
        },
{
}

/// An answer stands for the request and for all that it brought, or for the cause
/// why it brought nothing.
pub proof fn lemma_answer_stands_for_what_it_brought<Cause>(
    request: Request,
    info: Package,
    cause: Cause,
)
    ensures
        answer_view(None::<(Request, Result<Package, Cause>)>) is None,
        answer_view(Some((request, Ok::<Package, Cause>(info)))) == Some(
            (request@, Ok::<PackageView, Cause>(info@)),
        ),
        answer_view(Some((request, Err::<Package, Cause>(cause)))) == Some(
            (request@, Err::<PackageView, Cause>(cause)),
        ),
{
}

/// What a search tells is the whole list, in order. What it asks for, that it
/// cannot go on offline, and the cause of a failed download are told as they are.
pub proof fn lemma_progress_tells_all<Cause>(
    request: Request,
    list: Vec<Incompatibility<PackageId>>,
    cause: Cause,
)
    ensures
        lookup_view(
            Progress::<PackageId, Request, RetrieveError, Cause>::Ask(request),
        ) == Some(LookupView::<Cause>::Ask(request@)),
        lookup_view(
            Progress::<PackageId, Request, RetrieveError, Cause>::Done(list),
        ) matches Some(LookupView::Done(told)) && told.len() == list@.len() && forall|i: int|
            0 <= i < list@.len() ==> #[trigger] told[i] == list@[i].deep_view(),
        lookup_view(
            Progress::<PackageId, Request, RetrieveError, Cause>::Failed(RetrieveError::Offline),
        ) == Some(LookupView::<Cause>::Offline),
        lookup_view(
            Progress::<PackageId, Request, RetrieveError, Cause>::Broken(cause),
        ) == Some(LookupView::Broken(cause)),
{
}

/// A failure other than that nothing may be downloaded is none that a search ends
/// with.
pub proof fn lemma_search_fails_only_offline<Cause>(e: RetrieveError)
    requires
        !(e is Offline),
    ensures
        lookup_view(Progress::<PackageId, Request, RetrieveError, Cause>::Failed(e)) is None,
{
}

/// A step stands for what there is to do, with the versions so far.
pub proof fn lemma_step_stands_for_what_to_do(step: VersionFetch)
    ensures
        match step {
            VersionFetch::ReadCache => step@ is ReadCache,
            VersionFetch::FetchRemote { versions, since } => step@ == (FetchView::FetchRemote {
                versions: versions@,
                since: since as nat,
            }),
            VersionFetch::Settle { versions, save } => step@ == (FetchView::Settle {
                versions: versions@,
                save,
            }),
            VersionFetch::Done => step@ is Done,
        },
{
}

/// What the user is told where there is no answer.
pub proof fn lemma_error_texts(version: Version, pkg: PackageId, con: Constraint)
    ensures
        RetrieveError::Offline.text()
            == "I need to fetch dependencies from package.elm-lang.org but I'm working in offline mode!"@,
        (RetrieveError::NotAllowed { version, pkg, con }).text() == "I want to use version "@
            + version.text() + " for "@ + pkg@.text() + " but it's not allowed by constraint "@
            + con.text(),
        RetrieveError::NoVersion(pkg).text() == "Failed to find a version for "@ + pkg@.text(),
        RetrieveError::UnknownPackage(pkg).text() == "Unknown package "@ + pkg@.text(),
{
}

} // verus!
