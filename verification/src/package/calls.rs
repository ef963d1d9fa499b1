//! What single calls of a retriever give back and change.

use crate::package::id::{PackageId, PackageIdView};
use crate::package::info::{self, Package};
use crate::package::laws;
use crate::package::model::{self, FetchView, Mode, RetrieverView};
use crate::package::name::{Name, NameView};
use crate::package::retriever::{self as answers, Request, RetrieveError, Retriever, VersionFetch};
use crate::package::versions::{self, VersionTable};
use crate::semver::{Constraint, Range, Version};
use crate::solver::retriever::{self, Progress};
use crate::solver::{Incompatibility, Summary};
use crate::table;
use vstd::prelude::*;

verus! {

/// A new retriever knows one thing: that the project cannot be chosen together
/// with the versions of Elm that do not satisfy the constraint. It prefers the
/// newest versions, and downloads unless it is told to work offline.
pub proof fn lemma_new(elm_version: Constraint, offline: bool, r: Retriever, v: Version)
    requires
        call_ensures(Retriever::new, (&elm_version, offline), r),
    ensures
        ({
            let root = model::root();
            let list = r@.deps[root];
            &&& r@.offline == offline
            &&& r@.mode == Mode::Maximize
            &&& forall|id: PackageIdView| !(#[trigger] r@.versions.contains_key(id))
            &&& forall|id: PackageIdView| !(#[trigger] r@.preferred.contains_key(id))
            &&& forall|pkg: model::Pkg| #[trigger] r@.deps.contains_key(pkg) <==> pkg == root
            &&& list.len() == 1
            &&& list[0].dependent == root
            &&& list[0].dependency is Elm
            &&& list[0].forbidden.contains(v) <==> !elm_version@.contains(v)
        }),
{
}

/// The project is no package, and has the version 1.0.0.
pub proof fn lemma_root(r: Summary<PackageId>)
    requires
        call_ensures(Retriever::root, (), r),
    ensures
        r.id is Root,
        r.version == (Version { major: 1, minor: 0, patch: 0 }),
{
}

/// Preferring the oldest versions changes nothing else.
pub proof fn lemma_minimize(r: &mut Retriever)
    requires
        call_ensures(Retriever::minimize, (r,), ()),
    ensures
        final(r)@.mode == Mode::Minimize,
        final(r)@.deps == old(r)@.deps,
        final(r)@.versions == old(r)@.versions,
        final(r)@.preferred == old(r)@.preferred,
        final(r)@.offline == old(r)@.offline,
{
}

/// Each dependency that is added rules out the versions of its package that its
/// range does not hold. What the project had before comes first and stays, and
/// nothing changes for any package.
pub proof fn lemma_add_deps(r: &mut Retriever, deps: Vec<(Name, Range)>, other: model::Pkg)
    requires
        call_ensures(Retriever::add_deps, (r, &deps), ()),
    ensures
        ({
            let root = model::root();
            let before = table::list_at(old(r)@.deps, root);
            let after = final(r)@.deps[root];
            let n = before.len();
            &&& final(r)@.deps.contains_key(root)
            &&& after.len() == n + deps@.len()
            &&& after.take(n as int) == before
            &&& forall|i: int|
                0 <= i < deps@.len() ==> {
                    let added = after[n + i];
                    &&& added.dependent == root
                    &&& added.dependency == PackageIdView::Pkg((#[trigger] deps@[i]).0@)
                    &&& forall|v: Version| #[trigger]
                        added.forbidden.contains(v) <==> !deps@[i].1@.contains(v)
                }
            &&& other != root ==> {
                &&& final(r)@.deps.contains_key(other) <==> old(r)@.deps.contains_key(other)
                &&& final(r)@.deps.contains_key(other) ==> final(r)@.deps[other]
                    == old(r)@.deps[other]
            }
            &&& final(r)@.versions == old(r)@.versions
            &&& final(r)@.preferred == old(r)@.preferred
            &&& final(r)@.mode == old(r)@.mode
            &&& final(r)@.offline == old(r)@.offline
        }),
{
    let before = table::list_at(old(r)@.deps, model::root());
    let after = final(r)@.deps[model::root()];
    assert(after.take(before.len() as int) =~= before);
    assert forall|i: int| 0 <= i < deps@.len() implies {
        let added = after[before.len() + i];
        &&& added.dependent == model::root()
        &&& added.dependency == PackageIdView::Pkg((#[trigger] deps@[i]).0@)
        &&& forall|v: Version| #[trigger]
            added.forbidden.contains(v) <==> !deps@[i].1@.contains(v)
    } by {
        assert(deps.deep_view()[i] == (deps@[i].0@, deps@[i].1));
    }
}

/// The dependency that is added rules out the versions that do not satisfy the
/// constraint, and none where there is no constraint. What the project had before
/// comes first and stays, and nothing changes for any package.
pub proof fn lemma_add_dep(
    r: &mut Retriever,
    name: Name,
    version: Option<Constraint>,
    v: Version,
    other: model::Pkg,
)
    requires
        call_ensures(Retriever::add_dep, (r, name, version), ()),
    ensures
        ({
            let root = model::root();
            let before = table::list_at(old(r)@.deps, root);
            let after = final(r)@.deps[root];
            let added = after.last();
            &&& final(r)@.deps.contains_key(root)
            &&& after.len() == before.len() + 1
            &&& after.take(before.len() as int) == before
            &&& added.dependent == root
            &&& added.dependency == PackageIdView::Pkg(name@)
            &&& version matches Some(con) ==> (added.forbidden.contains(v) <==> !con@.contains(v))
            &&& version is None ==> !added.forbidden.contains(v)
            &&& other != root ==> {
                &&& final(r)@.deps.contains_key(other) <==> old(r)@.deps.contains_key(other)
                &&& final(r)@.deps.contains_key(other) ==> final(r)@.deps[other]
                    == old(r)@.deps[other]
            }
            &&& final(r)@.versions == old(r)@.versions
            &&& final(r)@.preferred == old(r)@.preferred
            &&& final(r)@.mode == old(r)@.mode
            &&& final(r)@.offline == old(r)@.offline
        }),
{
    let before = table::list_at(old(r)@.deps, model::root());
    assert(final(r)@.deps[model::root()].take(before.len() as int) =~= before);
}

/// Of the versions that are asked for, the last one for an id is the one that has
/// to be used. An id that none is asked for keeps what it had, and nothing else
/// changes.
pub proof fn lemma_add_preferred_versions(
    r: &mut Retriever,
    versions: Vec<(PackageId, Version)>,
    i: int,
    other: PackageIdView,
)
    requires
        call_ensures(Retriever::add_preferred_versions, (r, versions), ()),
    ensures
        0 <= i < versions@.len() && (forall|j: int|
            i < j < versions@.len() ==> (#[trigger] versions@[j]).0@ != versions@[i].0@) ==> {
            &&& final(r)@.preferred.contains_key(versions@[i].0@)
            &&& final(r)@.preferred[versions@[i].0@] == versions@[i].1
        },
        (forall|j: int| 0 <= j < versions@.len() ==> (#[trigger] versions@[j]).0@ != other) ==> {
            &&& final(r)@.preferred.contains_key(other) <==> old(r)@.preferred.contains_key(other)
            &&& final(r)@.preferred.contains_key(other) ==> final(r)@.preferred[other]
                == old(r)@.preferred[other]
        },
        final(r)@.deps == old(r)@.deps,
        final(r)@.versions == old(r)@.versions,
        final(r)@.mode == old(r)@.mode,
        final(r)@.offline == old(r)@.offline,
{
    let all = versions.deep_view();
    assert forall|j: int| 0 <= j < all.len() implies #[trigger] all[j] == (
        versions@[j].0@,
        versions@[j].1,
    ) by {}
    if 0 <= i < versions@.len() && (forall|j: int|
        i < j < versions@.len() ==> (#[trigger] versions@[j]).0@ != versions@[i].0@) {
        assert forall|j: int| i < j < all.len() implies (#[trigger] all[j]).0 != all[i].0 by {
            assert(versions@[j].0@ != versions@[i].0@);
        }
        table::lemma_last_entry_counts(all, i);
    }
    if forall|j: int| 0 <= j < versions@.len() ==> (#[trigger] versions@[j]).0@ != other {
        table::lemma_has_key(all, other);
        assert forall|j: int| 0 <= j < all.len() implies (#[trigger] all[j]).0 != other by {
            assert(versions@[j].0@ != other);
        }
    }
}

/// What a package says of itself is told in full: one incompatibility for each of
/// its dependencies, in their order, and then the one with Elm. The same list is
/// remembered for the package, and nothing else changes.
pub proof fn lemma_deps_from_package(
    r: &mut Retriever,
    pkg: Summary<PackageId>,
    info: Package,
    list: Vec<Incompatibility<PackageId>>,
)
    requires
        call_ensures(Retriever::deps_from_package, (r, &pkg, &info), list),
    ensures
        ({
            let n = info.dependencies@.len();
            &&& list@.len() == n + 1
            &&& forall|i: int|
                0 <= i <= n ==> (#[trigger] list@[i]).deep_view().dependent == pkg.deep_view()
            &&& forall|i: int|
                0 <= i < n ==> (#[trigger] list@[i]).deep_view().dependency == PackageIdView::Pkg(
                    info.dependencies@[i].0@,
                )
            &&& forall|i: int, v: Version|
                0 <= i < n ==> (#[trigger] list@[i].deep_view().forbidden.contains(v)
                    <==> !info.dependencies@[i].1@.contains(v))
            &&& list@[n as int].deep_view().dependency is Elm
            &&& forall|v: Version| #[trigger]
                list@[n as int].deep_view().forbidden.contains(v)
                    <==> !info.elm_version@.contains(v)
            &&& final(r)@.deps == old(r)@.deps.insert(pkg.deep_view(), list.deep_view())
            &&& final(r)@.versions == old(r)@.versions
            &&& final(r)@.preferred == old(r)@.preferred
            &&& final(r)@.mode == old(r)@.mode
            &&& final(r)@.offline == old(r)@.offline
        }),
{
    lemma_list_in_full(pkg, info, list);
}

/// A list that stands for what a package is incompatible with has one entry for
/// each of its dependencies, in their order, and then the one for Elm.
proof fn lemma_list_in_full(
    pkg: Summary<PackageId>,
    info: Package,
    list: Vec<Incompatibility<PackageId>>,
)
    requires
        list.deep_view() == model::conflicts_of(pkg.deep_view(), info@),
    ensures
        ({
            let n = info.dependencies@.len();
            &&& list@.len() == n + 1
            &&& forall|i: int|
                0 <= i <= n ==> (#[trigger] list@[i]).deep_view().dependent == pkg.deep_view()
            &&& forall|i: int|
                0 <= i < n ==> (#[trigger] list@[i]).deep_view().dependency == PackageIdView::Pkg(
                    info.dependencies@[i].0@,
                )
            &&& forall|i: int, v: Version|
                0 <= i < n ==> (#[trigger] list@[i].deep_view().forbidden.contains(v)
                    <==> !info.dependencies@[i].1@.contains(v))
            &&& list@[n as int].deep_view().dependency is Elm
            &&& forall|v: Version| #[trigger]
                list@[n as int].deep_view().forbidden.contains(v)
                    <==> !info.elm_version@.contains(v)
        }),
{
    let all = model::conflicts_of(pkg.deep_view(), info@);
    laws::lemma_conflicts_leave_nothing_out(pkg.deep_view(), info@);
    info::lemma_package_stands_for_what_it_holds(info);
    assert(list.deep_view().len() == list@.len());
    assert forall|i: int| 0 <= i < list@.len() implies (#[trigger] list@[i]).deep_view()
        == all[i] by {
        assert(list.deep_view()[i] == list@[i].deep_view());
    }
    assert forall|i: int, v: Version| 0 <= i < info.dependencies@.len() implies (
    #[trigger] list@[i].deep_view().forbidden.contains(v) <==> !info.dependencies@[i].1@.contains(
        v,
    )) by {
        assert(all[i].forbidden.contains(v) <==> !info@.dependencies[i].1@.contains(v));
    }
    assert forall|i: int| 0 <= i < info.dependencies@.len() implies (
    #[trigger] list@[i]).deep_view().dependency == PackageIdView::Pkg(
        info.dependencies@[i].0@,
    ) by {
        assert(all[i].dependency == PackageIdView::Pkg(info@.dependencies[i].0));
    }
}

/// Whichever request it answers, what a package says of itself is told in full:
/// one incompatibility for each of its dependencies, in their order, and then the
/// one with Elm. The same list is remembered for the package, and nothing else
/// changes.
pub proof fn lemma_incompats_of_answer<Cause>(
    before: RetrieverView,
    after: RetrieverView,
    pkg: Summary<PackageId>,
    request: Request,
    info: Package,
    told: Progress<PackageId, Request, RetrieveError, Cause>,
)
    requires
        ({
            let answer = answers::answer_view(Some((request, Ok::<Package, Cause>(info))));
            let (known, next) = model::lookup_next(before, pkg.deep_view(), answer);
            after == known && answers::lookup_view(told) == Some(next)
        }),
    ensures
        ({
            let n = info.dependencies@.len();
            &&& told matches Progress::Done(list)
            &&& list@.len() == n + 1
            &&& forall|i: int|
                0 <= i <= n ==> (#[trigger] list@[i]).deep_view().dependent == pkg.deep_view()
            &&& forall|i: int|
                0 <= i < n ==> (#[trigger] list@[i]).deep_view().dependency == PackageIdView::Pkg(
                    info.dependencies@[i].0@,
                )
            &&& forall|i: int, v: Version|
                0 <= i < n ==> (#[trigger] list@[i].deep_view().forbidden.contains(v)
                    <==> !info.dependencies@[i].1@.contains(v))
            &&& list@[n as int].deep_view().dependency is Elm
            &&& forall|v: Version| #[trigger]
                list@[n as int].deep_view().forbidden.contains(v)
                    <==> !info.elm_version@.contains(v)
            &&& after.deps == before.deps.insert(pkg.deep_view(), list.deep_view())
            &&& after.versions == before.versions
            &&& after.preferred == before.preferred
            &&& after.mode == before.mode
            &&& after.offline == before.offline
        }),
{
    lemma_list_in_full(pkg, info, told->Done_0);
}

/// Without an answer, Elm is incompatible with nothing, and what is known of
/// anything else is told, in full. Neither changes what is known.
pub proof fn lemma_incompats_at_first<Cause>(
    before: RetrieverView,
    after: RetrieverView,
    pkg: Summary<PackageId>,
    told: Progress<PackageId, Request, RetrieveError, Cause>,
)
    requires
        ({
            let answer = answers::answer_view(None::<(Request, Result<Package, Cause>)>);
            let (known, next) = model::lookup_next(before, pkg.deep_view(), answer);
            after == known && answers::lookup_view(told) == Some(next)
        }),
    ensures
        after == before,
        pkg.id is Elm ==> (told matches Progress::Done(list) && list@.len() == 0),
        !(pkg.id is Elm) && before.deps.contains_key(pkg.deep_view()) ==> (
        told matches Progress::Done(list) && list.deep_view() == before.deps[pkg.deep_view()]),
        !(pkg.id is Elm) && !before.deps.contains_key(pkg.deep_view()) ==> told is Ask,
{
    if let Progress::Done(list) = told {
        assert(list.deep_view().len() == list@.len());
    }
}

/// The version that has to be used is the best one where it satisfies the
/// constraint, and there is none where it does not. Of the other packages, the
/// best version is by its numbers the newest known one that satisfies the
/// constraint, or the oldest where these are preferred.
pub proof fn lemma_best(
    r: &mut Retriever,
    pkg: PackageId,
    con: Constraint,
    best: Result<Version, RetrieveError>,
)
    requires
        call_ensures(<Retriever as retriever::Retriever>::best, (r, &pkg, &con), best),
    ensures
        ({
            let known = old(r)@;
            let list = known.versions[pkg@];
            let forced = known.preferred.contains_key(pkg@);
            let listed = !forced && known.versions.contains_key(pkg@);
            &&& final(r)@ == known
            &&& forced && con@.contains(known.preferred[pkg@]) ==> best == Ok::<_, RetrieveError>(
                known.preferred[pkg@],
            )
            &&& forced && !con@.contains(known.preferred[pkg@]) ==> (best matches Err(
                RetrieveError::NotAllowed { version, pkg: p, con: c },
            ) && version == known.preferred[pkg@] && p@ == pkg@ && c@ == con@)
            &&& listed ==> (best is Ok <==> exists|i: int|
                0 <= i < list.len() && con@.contains(#[trigger] list[i]))
            &&& listed && best is Err ==> (best matches Err(RetrieveError::NoVersion(p)) && p@
                == pkg@)
            &&& listed ==> (best matches Ok(v) ==> {
                &&& exists|i: int| 0 <= i < list.len() && #[trigger] list[i] == v
                &&& con@.contains(v)
                &&& forall|i: int|
                    0 <= i < list.len() && con@.contains(#[trigger] list[i]) ==> {
                        let (low, high) = match known.mode {
                            Mode::Minimize => (v, list[i]),
                            Mode::Maximize => (list[i], v),
                        };
                        ||| low.major < high.major
                        ||| low.major == high.major && low.minor < high.minor
                        ||| low.major == high.major && low.minor == high.minor && low.patch
                            <= high.patch
                    }
            })
            &&& !forced && !listed ==> (best matches Err(RetrieveError::UnknownPackage(p)) && p@
                == pkg@)
        }),
{
    let known = old(r)@;
    if !known.preferred.contains_key(pkg@) && known.versions.contains_key(pkg@) {
        laws::lemma_some_version_is_allowed(known.versions[pkg@], con@);
        if let Ok(v) = best {
            laws::lemma_best_by_numbers(v, known.versions[pkg@], con@, known.mode);
        }
    }
}

/// As many versions are counted as are known of the package, and none where the
/// package is not known.
pub proof fn lemma_count_versions(r: Retriever, pkg: PackageId, n: usize)
    requires
        call_ensures(<Retriever as retriever::Retriever>::count_versions, (&r, &pkg), n),
    ensures
        r@.versions.contains_key(pkg@) ==> n == r@.versions[pkg@].len(),
        !r@.versions.contains_key(pkg@) ==> n == 0,
{
}

/// Once the versions were kept or not, the versions that are known are those so
/// far, then the installed ones that are new. The project has the version 1.0.0,
/// and Elm has 0.14.0, 0.15.0, 0.16.0, 0.17.0, 0.18.0, 0.19.0 and 0.19.1, and no
/// others.
pub proof fn lemma_fetch_settles(
    r: &mut Retriever,
    current: VersionTable,
    save: bool,
    local: VersionTable,
    next: VersionFetch,
    pkg: NameView,
    v: Version,
)
    requires
        call_ensures(
            Retriever::fetch_versions,
            (r, VersionFetch::Settle { versions: current, save }, Some(local)),
            next,
        ),
    ensures
        ({
            let after = final(r)@.versions;
            let id = PackageIdView::Pkg(pkg);
            let (root, elm) = (after[PackageIdView::Root], after[PackageIdView::Elm]);
            &&& next is Done
            &&& after.contains_key(id) <==> current@.contains_key(pkg) || local@.contains_key(pkg)
            &&& current@.contains_key(pkg) ==> current@[pkg].is_prefix_of(after[id])
            &&& after.contains_key(id) ==> (after[id].contains(v) <==> {
                ||| current@.contains_key(pkg) && current@[pkg].contains(v)
                ||| local@.contains_key(pkg) && local@[pkg].contains(v)
            })
            &&& after.contains_key(PackageIdView::Root)
            &&& root.len() == 1
            &&& root[0].major == 1 && root[0].minor == 0 && root[0].patch == 0
            &&& after.contains_key(PackageIdView::Elm)
            &&& elm.len() == 7
            &&& elm.contains(v) <==> {
                ||| v.major == 0 && v.minor == 14 && v.patch == 0
                ||| v.major == 0 && v.minor == 15 && v.patch == 0
                ||| v.major == 0 && v.minor == 16 && v.patch == 0
                ||| v.major == 0 && v.minor == 17 && v.patch == 0
                ||| v.major == 0 && v.minor == 18 && v.patch == 0
                ||| v.major == 0 && v.minor == 19 && v.patch == 0
                ||| v.major == 0 && v.minor == 19 && v.patch == 1
            }
            &&& final(r)@.deps == old(r)@.deps
            &&& final(r)@.preferred == old(r)@.preferred
            &&& final(r)@.mode == old(r)@.mode
            &&& final(r)@.offline == old(r)@.offline
        }),
{
    laws::lemma_settled_versions(old(r)@, current@, save, local@, pkg, v);
    laws::lemma_settled_versions_of_elm(old(r)@, current@, save, Some(local@), v);
}

/// What the package site answers is added at the end of the lists that were kept,
/// and is to be saved exactly when it has a package. A failed request adds
/// nothing.
pub proof fn lemma_fetch_adds_answer(
    r: &mut Retriever,
    kept: VersionTable,
    since: usize,
    remote: Option<VersionTable>,
    next: VersionFetch,
    pkg: NameView,
)
    requires
        call_ensures(
            Retriever::fetch_versions,
            (r, VersionFetch::FetchRemote { versions: kept, since }, remote),
            next,
        ),
    ensures
        final(r)@ == old(r)@,
        next matches VersionFetch::Settle { versions: now, save } && {
            &&& remote is None ==> !save && (now@.contains_key(pkg) <==> kept@.contains_key(pkg))
                && (kept@.contains_key(pkg) ==> now@[pkg] == kept@[pkg])
            &&& remote matches Some(new) ==> {
                &&& save <==> exists|k: NameView| #[trigger] new@.contains_key(k)
                &&& now@.contains_key(pkg) <==> kept@.contains_key(pkg) || new@.contains_key(pkg)
                &&& kept@.contains_key(pkg) && new@.contains_key(pkg) ==> now@[pkg] == kept@[pkg]
                    + new@[pkg]
                &&& kept@.contains_key(pkg) && !new@.contains_key(pkg) ==> now@[pkg] == kept@[pkg]
                &&& !kept@.contains_key(pkg) && new@.contains_key(pkg) ==> now@[pkg] == new@[pkg]
            }
        },
{
    match remote {
        Some(new) => laws::lemma_answer_of_site_is_added(
            old(r)@,
            kept@,
            since as nat,
            new@,
            pkg,
        ),
        None => {
            versions::lemma_extended_lists(kept@, Map::empty(), pkg);
        },
    }
}

/// The versions that were kept are taken as they are. The package site is asked
/// for what it has beyond as many as these are, unless the retriever works
/// offline; nothing is to be saved then. Where they cannot be read, there are none.
pub proof fn lemma_fetch_takes_kept(
    r: &mut Retriever,
    kept: Option<VersionTable>,
    next: VersionFetch,
)
    requires
        call_ensures(Retriever::fetch_versions, (r, VersionFetch::ReadCache, kept), next),
    ensures
        final(r)@ == old(r)@,
        old(r)@.offline ==> (next matches VersionFetch::Settle { versions: now, save } && {
            &&& !save
            &&& kept matches Some(m) ==> now@ == m@
            &&& kept is None ==> forall|k: NameView| !(#[trigger] now@.contains_key(k))
        }),
        !old(r)@.offline ==> (next matches VersionFetch::FetchRemote { versions: now, since } && {
            &&& since == table::total_len(now@)
            &&& kept matches Some(m) ==> now@ == m@
            &&& kept is None ==> forall|k: NameView| !(#[trigger] now@.contains_key(k))
        }),
{
    assert(next@ == model::fetch_next(
        old(r)@,
        FetchView::ReadCache,
        match kept {
            Some(m) => Some(m@),
            None => None,
        },
    ).1);
}

} // verus!
