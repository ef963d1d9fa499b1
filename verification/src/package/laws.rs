//! What holds of a retriever over several calls.

use crate::package::id::PackageIdView;
use crate::package::info::PackageView;
use crate::package::model::{self, Conflict, FetchView, LookupView, Mode};
use crate::package::model::{Pkg, RequestView, RetrieverView, Source};
use crate::package::name::NameView;
use crate::package::paths;
use crate::package::remote;
use crate::package::versions::{self, VersionMap};
use crate::semver::version;
use crate::semver::{Range, Version};
use crate::table;
use vstd::prelude::*;

verus! {

/// A requirement is violated when both sides are chosen and the version of the
/// dependency is not an allowed one.
pub proof fn lemma_requirement_violated(
    pkg: Pkg,
    on: PackageIdView,
    allowed: Set<Version>,
    chosen: Map<PackageIdView, Version>,
)
    requires
        chosen.contains_key(pkg.id),
        chosen[pkg.id] == pkg.version,
    ensures
        model::requirement(pkg, on, allowed).violated_by(chosen) <==> chosen.contains_key(on)
            && !allowed.contains(chosen[on]),
{
}

/// The chosen versions are ones that `info` works with.
pub open spec fn suits(info: PackageView, chosen: Map<PackageIdView, Version>) -> bool {
    &&& forall|i: int|
        0 <= i < info.dependencies.len() && chosen.contains_key(
            PackageIdView::Pkg((#[trigger] info.dependencies[i]).0),
        ) ==> info.dependencies[i].1@.contains(
            chosen[PackageIdView::Pkg(info.dependencies[i].0)],
        )
    &&& chosen.contains_key(PackageIdView::Elm) ==> info.elm_version@.contains(
        chosen[PackageIdView::Elm],
    )
}

/// A choice with `pkg` in it violates nothing that `pkg` is incompatible with
/// exactly when the chosen versions of its dependencies, and of Elm, are in the
/// ranges that it asks for.
pub proof fn lemma_conflicts_say_what_suits(
    pkg: Pkg,
    info: PackageView,
    chosen: Map<PackageIdView, Version>,
)
    requires
        chosen.contains_key(pkg.id),
        chosen[pkg.id] == pkg.version,
    ensures
        suits(info, chosen) <==> forall|i: int|
            0 <= i < model::conflicts_of(pkg, info).len() ==> !(#[trigger] model::conflicts_of(
                pkg,
                info,
            )[i]).violated_by(chosen),
{
    let all = model::conflicts_of(pkg, info);
    let n = info.dependencies.len();
    if suits(info, chosen) {
        assert forall|i: int| 0 <= i < all.len() implies !(#[trigger] all[i]).violated_by(
            chosen,
        ) by {
            if i < n {
                let (name, range) = info.dependencies[i];
                assert(all[i] == model::requirement(pkg, PackageIdView::Pkg(name), range@));
            }
        }
    }
    if forall|i: int| 0 <= i < all.len() ==> !(#[trigger] all[i]).violated_by(chosen) {
        assert forall|i: int|
            0 <= i < n && chosen.contains_key(
                PackageIdView::Pkg((#[trigger] info.dependencies[i]).0),
            ) implies info.dependencies[i].1@.contains(
            chosen[PackageIdView::Pkg(info.dependencies[i].0)],
        ) by {
            assert(!all[i].violated_by(chosen));
        }
        assert(!all[n as int].violated_by(chosen));
    }
}

/// A dependency without a constraint rules nothing out.
pub proof fn lemma_any_version_suits(
    pkg: Pkg,
    on: PackageIdView,
    chosen: Map<PackageIdView, Version>,
)
    ensures
        !model::requirement(pkg, on, Set::full()).violated_by(chosen),
{
}

/// Adding dependencies in two goes is the same as adding them in one.
pub proof fn lemma_add_deps_in_parts(pkg: Pkg, a: Seq<(NameView, Range)>, b: Seq<(NameView, Range)>)
    ensures
        model::requirements(pkg, a + b) == model::requirements(pkg, a) + model::requirements(
            pkg,
            b,
        ),
{
    assert(model::requirements(pkg, a + b) =~= model::requirements(pkg, a) + model::requirements(
        pkg,
        b,
    ));
}

/// Adding one dependency in a range is the same as adding it with the
/// constraint that the range stands for.
pub proof fn lemma_add_one_dep(list: Seq<Conflict>, pkg: Pkg, name: NameView, range: Range)
    ensures
        list + model::requirements(pkg, seq![(name, range)]) == list.push(
            model::requirement(pkg, PackageIdView::Pkg(name), range@),
        ),
{
    assert(list + model::requirements(pkg, seq![(name, range)]) =~= list.push(
        model::requirement(pkg, PackageIdView::Pkg(name), range@),
    ));
}

/// Asking for versions in two goes is the same as asking for them in one: the
/// last one asked for is the one that counts.
pub proof fn lemma_preferred_in_parts(
    known: Map<PackageIdView, Version>,
    a: Seq<(PackageIdView, Version)>,
    b: Seq<(PackageIdView, Version)>,
)
    ensures
        known.union_prefer_right(table::entries_map(a)).union_prefer_right(table::entries_map(b))
            == known.union_prefer_right(table::entries_map(a + b)),
    decreases b.len(),
{
    if b.len() == 0 {
        assert(a + b =~= a);
        assert(known.union_prefer_right(table::entries_map(a)).union_prefer_right(
            table::entries_map(b),
        ) =~= known.union_prefer_right(table::entries_map(a)));
    } else {
        let rest = b.drop_last();
        lemma_preferred_in_parts(known, a, rest);
        assert((a + b).drop_last() =~= a + rest);
        let left = known.union_prefer_right(table::entries_map(a));
        assert(left.union_prefer_right(table::entries_map(b)) =~= left.union_prefer_right(
            table::entries_map(rest),
        ).insert(b.last().0, b.last().1));
        assert(known.union_prefer_right(table::entries_map(a + b)) =~= known.union_prefer_right(
            table::entries_map(a + rest),
        ).insert(b.last().0, b.last().1));
    }
}

/// There is no more than one version to try first.
pub proof fn lemma_best_is_unique(
    v: Version,
    w: Version,
    list: Seq<Version>,
    allowed: Set<Version>,
    mode: Mode,
)
    requires
        model::is_best(v, list, allowed, mode),
        model::is_best(w, list, allowed, mode),
    ensures
        v == w,
{
    version::lemma_version_order(v, w, v);
    assert(list.contains(v) && list.contains(w));
}

/// The version that is preferred when the oldest are is never newer than the
/// one that is preferred when the newest are.
pub proof fn lemma_oldest_and_newest(
    oldest: Version,
    newest: Version,
    list: Seq<Version>,
    allowed: Set<Version>,
)
    requires
        model::is_best(oldest, list, allowed, Mode::Minimize),
        model::is_best(newest, list, allowed, Mode::Maximize),
    ensures
        !newest.before(oldest),
{
    assert(list.contains(newest));
}

/// The order in which the versions of a package are listed, and how often, do
/// not matter for which of them is tried first.
pub proof fn lemma_best_ignores_order(
    v: Version,
    a: Seq<Version>,
    b: Seq<Version>,
    allowed: Set<Version>,
    mode: Mode,
)
    requires
        model::is_best(v, a, allowed, mode),
        forall|w: Version| #[trigger] a.contains(w) <==> b.contains(w),
    ensures
        model::is_best(v, b, allowed, mode),
{
    assert(a.contains(v));
    assert forall|w: Version| #[trigger] b.contains(w) && allowed.contains(w) implies match mode {
        Mode::Minimize => !w.before(v),
        Mode::Maximize => !v.before(w),
    } by {
        assert(a.contains(w));
    }
}

/// Once a package said what it depends on, asking again needs no reading and
/// gives the same. Elm itself is the exception: nothing is asked of it.
pub proof fn lemma_learned_is_remembered<Cause>(
    known: RetrieverView,
    pkg: Pkg,
    info: PackageView,
)
    requires
        pkg.id != PackageIdView::Elm,
    ensures
        model::lookup_next::<Cause>(model::learned(known, pkg, info), pkg, None) == (
            model::learned(known, pkg, info),
            LookupView::<Cause>::Done(model::conflicts_of(pkg, info)),
        ),
{
}

/// A search that is answered is remembered: the same search later ends at once,
/// with the same result.
pub proof fn lemma_search_is_remembered<Cause>(
    known: RetrieverView,
    pkg: Pkg,
    request: RequestView,
    info: PackageView,
)
    requires
        pkg.id != PackageIdView::Elm,
    ensures
        ({
            let (after, found) = model::lookup_next::<Cause>(
                known,
                pkg,
                Some((request, Ok(info))),
            );
            &&& found is Done
            &&& model::lookup_next::<Cause>(after, pkg, None) == (after, found)
        }),
{
}

/// A search changes what is known of the package it is about, and nothing else.
pub proof fn lemma_search_leaves_the_rest<Cause>(
    known: RetrieverView,
    pkg: Pkg,
    answer: Option<(RequestView, Result<PackageView, Cause>)>,
    other: Pkg,
)
    requires
        other != pkg,
    ensures
        ({
            let after = model::lookup_next(known, pkg, answer).0;
            &&& after.versions == known.versions
            &&& after.preferred == known.preferred
            &&& after.mode == known.mode
            &&& after.offline == known.offline
            &&& after.deps.contains_key(other) == known.deps.contains_key(other)
            &&& after.deps.contains_key(other) ==> after.deps[other] == known.deps[other]
        }),
{
}

/// The sources that a search has left to ask, after an answer.
pub open spec fn sources_left<Cause>(
    answer: Option<(RequestView, Result<PackageView, Cause>)>,
) -> nat {
    match answer {
        None => 4,
        Some((RequestView::Read { source, .. }, Err(_))) => match source {
            Source::Elm0190 => 3,
            Source::Elm0191 => 2,
            Source::Downloaded => 1,
        },
        _ => 0,
    }
}

/// A search ends: whatever comes back, there is one source less to ask.
pub proof fn lemma_search_ends<Cause>(
    known: RetrieverView,
    pkg: Pkg,
    answer: Option<(RequestView, Result<PackageView, Cause>)>,
    reply: Result<PackageView, Cause>,
)
    ensures
        model::lookup_next(known, pkg, answer).1 matches LookupView::Ask(request)
            ==> sources_left(Some((request, reply))) < sources_left(answer),
{
}

/// Where nothing is known of a package, the search asks for what Elm 0.19.0
/// installed, then for what Elm 0.19.1 installed, then for what was downloaded
/// earlier. Only then it downloads, or fails where that is not allowed. A
/// download that fails ends it, with the cause of that.
pub proof fn lemma_order_of_sources<Cause>(
    known: RetrieverView,
    pkg: Pkg,
    path: Seq<char>,
    url: Seq<char>,
    cause: Cause,
)
    requires
        pkg.id != PackageIdView::Elm,
        !known.deps.contains_key(pkg),
    ensures
        model::lookup_next::<Cause>(known, pkg, None) == (
            known,
            LookupView::<Cause>::Ask(model::read_from(Source::Elm0190, pkg)),
        ),
        model::lookup_next(
            known,
            pkg,
            Some((RequestView::Read { source: Source::Elm0190, path }, Err(cause))),
        ) == (known, LookupView::<Cause>::Ask(model::read_from(Source::Elm0191, pkg))),
        model::lookup_next(
            known,
            pkg,
            Some((RequestView::Read { source: Source::Elm0191, path }, Err(cause))),
        ) == (known, LookupView::<Cause>::Ask(model::read_from(Source::Downloaded, pkg))),
        ({
            let (after, next) = model::lookup_next(
                known,
                pkg,
                Some((RequestView::Read { source: Source::Downloaded, path }, Err(cause))),
            );
            &&& after == known
            &&& if known.offline {
                next is Offline
            } else {
                next matches LookupView::Ask(RequestView::Fetch { .. })
            }
        }),
        model::lookup_next(known, pkg, Some((RequestView::Fetch { url, path }, Err(cause)))) == (
            known,
            LookupView::Broken(cause),
        ),
{
}

/// Nothing is downloaded while working offline.
pub proof fn lemma_offline_downloads_nothing<Cause>(
    known: RetrieverView,
    pkg: Pkg,
    answer: Option<(RequestView, Result<PackageView, Cause>)>,
    step: FetchView,
    reply: Option<VersionMap>,
)
    requires
        known.offline,
    ensures
        !(model::lookup_next(known, pkg, answer).1 matches LookupView::Ask(
            RequestView::Fetch { .. },
        )),
        !(model::fetch_next(known, step, reply).1 is FetchRemote),
{
}

/// What is known once the versions were fetched, where these are what the three
/// places brought.
pub open spec fn fetched(
    known: RetrieverView,
    cached: Option<VersionMap>,
    remote: Option<VersionMap>,
    local: Option<VersionMap>,
) -> RetrieverView {
    let kept = model::or_empty(cached);
    let current = if known.offline {
        kept
    } else {
        versions::extended(kept, model::or_empty(remote))
    };
    RetrieverView {
        versions: model::all_versions(versions::completed(current, model::or_empty(local))),
        ..known
    }
}

/// Fetching takes the versions that were kept, adds the ones of the package
/// site unless it works offline, and then the installed ones that are new. A
/// place that fails counts as one without versions.
pub proof fn lemma_fetch_combines_three_places(
    known: RetrieverView,
    cached: Option<VersionMap>,
    remote: Option<VersionMap>,
    local: Option<VersionMap>,
)
    ensures
        ({
            let (one, after_cache) = model::fetch_next(known, FetchView::ReadCache, cached);
            let (two, settle) = if known.offline {
                (one, after_cache)
            } else {
                model::fetch_next(one, after_cache, remote)
            };
            &&& known.offline <==> after_cache is Settle
            &&& settle is Settle
            &&& model::fetch_next(two, settle, local) == (
                fetched(known, cached, remote, local),
                FetchView::Done,
            )
        }),
{
}

/// No version gets lost: each list that was kept is the start of the one that
/// is known after fetching.
pub proof fn lemma_fetch_keeps_versions(
    known: RetrieverView,
    cached: Option<VersionMap>,
    remote: Option<VersionMap>,
    local: Option<VersionMap>,
    pkg: NameView,
)
    requires
        model::or_empty(cached).contains_key(pkg),
    ensures
        fetched(known, cached, remote, local).versions.contains_key(PackageIdView::Pkg(pkg)),
        model::or_empty(cached)[pkg].is_prefix_of(
            fetched(known, cached, remote, local).versions[PackageIdView::Pkg(pkg)],
        ),
{
    let kept = model::or_empty(cached);
    let current = if known.offline {
        kept
    } else {
        versions::extended(kept, model::or_empty(remote))
    };
    versions::lemma_with_new(
        table::list_at(current, pkg),
        table::list_at(model::or_empty(local), pkg),
    );
}

/// The versions of a package that are known after fetching are the ones that
/// the places had.
pub proof fn lemma_fetched_versions(
    known: RetrieverView,
    cached: Option<VersionMap>,
    remote: Option<VersionMap>,
    local: Option<VersionMap>,
    pkg: NameView,
    v: Version,
)
    ensures
        table::list_at(
            fetched(known, cached, remote, local).versions,
            PackageIdView::Pkg(pkg),
        ).contains(v) <==> {
            ||| table::list_at(model::or_empty(cached), pkg).contains(v)
            ||| !known.offline && table::list_at(model::or_empty(remote), pkg).contains(v)
            ||| table::list_at(model::or_empty(local), pkg).contains(v)
        },
{
    let a = table::list_at(model::or_empty(cached), pkg);
    let b = table::list_at(model::or_empty(remote), pkg);
    let c = table::list_at(model::or_empty(local), pkg);
    let current = if known.offline {
        a
    } else {
        a + b
    };
    versions::lemma_with_new(current, c);
    assert(versions::with_new(current, c).contains(v) <==> current.contains(v) || c.contains(v));
    if a.contains(v) {
        let i = choose|i: int| 0 <= i < a.len() && a[i] == v;
        assert((a + b)[i] == v);
    }
    if b.contains(v) {
        let i = choose|i: int| 0 <= i < b.len() && b[i] == v;
        assert((a + b)[a.len() + i] == v);
    }
    if (a + b).contains(v) {
        let i = choose|i: int| 0 <= i < (a + b).len() && (a + b)[i] == v;
        if i < a.len() {
            assert(a[i] == v);
        } else {
            assert(b[i - a.len()] == v);
        }
    }
    assert(versions::with_new(Seq::empty(), Seq::empty()) =~= Seq::<Version>::empty());
    assert(Seq::<Version>::empty() + Seq::<Version>::empty() =~= Seq::<Version>::empty());
}

/// After fetching, the project has its one version and Elm has the versions
/// that exist of it, whatever the places brought.
pub proof fn lemma_root_and_elm_are_known(
    known: RetrieverView,
    cached: Option<VersionMap>,
    remote: Option<VersionMap>,
    local: Option<VersionMap>,
)
    ensures
        ({
            let all = fetched(known, cached, remote, local).versions;
            &&& all.contains_key(PackageIdView::Root)
            &&& all[PackageIdView::Root] == seq![model::root().version]
            &&& all.contains_key(PackageIdView::Elm)
            &&& all[PackageIdView::Elm] == model::elm_versions()
        }),
{
}

/// The next request to the package site starts where the last answer ended: the
/// versions that are kept then are as many as were kept before and as the
/// answer had entries.
pub proof fn lemma_next_request_goes_on(
    known: RetrieverView,
    cached: VersionMap,
    entries: Seq<Seq<char>>,
)
    requires
        !known.offline,
        cached.dom().finite(),
        remote::versions_of(entries) is Ok,
    ensures
        ({
            let asked = model::fetch_next(known, FetchView::ReadCache, Some(cached)).1;
            let answer = remote::versions_of(entries)->Ok_0;
            let settle = model::fetch_next(known, asked, Some(answer)).1;
            let again = model::fetch_next(known, FetchView::ReadCache, Some(settle->Settle_versions)).1;
            &&& asked is FetchRemote
            &&& settle is Settle
            &&& again is FetchRemote
            &&& again->since == asked->since + entries.len()
            &&& settle->save <==> entries.len() > 0
        }),
{
    let answer = remote::versions_of(entries)->Ok_0;
    remote::lemma_total_of_entries(entries);
    versions::lemma_total_of_extended(cached, answer);
    if entries.len() > 0 && answer == Map::<NameView, Seq<Version>>::empty() {
        assert(answer.dom().len() == 0);
    }
}

/// The project that is being solved for is no package, and has the version 1.0.0.
pub proof fn lemma_root_is_the_project()
    ensures
        model::root().id is Root,
        model::root().version.major == 1,
        model::root().version.minor == 0,
        model::root().version.patch == 0,
{
}

/// A requirement forbids exactly the versions that are not allowed, of what it is
/// a requirement on.
pub proof fn lemma_requirement_forbids_the_rest(
    pkg: Pkg,
    on: PackageIdView,
    allowed: Set<Version>,
    v: Version,
)
    ensures
        model::requirement(pkg, on, allowed).dependent == pkg,
        model::requirement(pkg, on, allowed).dependency == on,
        model::requirement(pkg, on, allowed).forbidden.contains(v) <==> !allowed.contains(v),
{
}

/// Each dependency becomes one requirement, in the order of the dependencies: on
/// the package that it names, and with the versions forbidden that its range does
/// not hold.
pub proof fn lemma_each_dependency_is_required(pkg: Pkg, on: Seq<(NameView, Range)>)
    ensures
        ({
            let list = model::requirements(pkg, on);
            &&& list.len() == on.len()
            &&& forall|i: int|
                0 <= i < on.len() ==> (#[trigger] list[i]).dependent == pkg && list[i].dependency
                    == PackageIdView::Pkg(on[i].0)
            &&& forall|i: int, v: Version|
                0 <= i < on.len() ==> (#[trigger] list[i].forbidden.contains(v)
                    <==> !on[i].1@.contains(v))
        }),
{
}

/// What a package is incompatible with are the versions of its dependencies that
/// are not in their ranges, one after the other and none left out, and then those
/// of Elm that it does not work with.
pub proof fn lemma_conflicts_leave_nothing_out(pkg: Pkg, info: PackageView)
    ensures
        ({
            let list = model::conflicts_of(pkg, info);
            let n = info.dependencies.len();
            &&& list.len() == n + 1
            &&& forall|i: int| 0 <= i <= n ==> (#[trigger] list[i]).dependent == pkg
            &&& forall|i: int|
                0 <= i < n ==> (#[trigger] list[i]).dependency == PackageIdView::Pkg(
                    info.dependencies[i].0,
                )
            &&& forall|i: int, v: Version|
                0 <= i < n ==> (#[trigger] list[i].forbidden.contains(v)
                    <==> !info.dependencies[i].1@.contains(v))
            &&& list[n as int].dependency is Elm
            &&& forall|v: Version| #[trigger]
                list[n as int].forbidden.contains(v) <==> !info.elm_version@.contains(v)
        }),
{
}

/// Whichever request was answered, the search ends with what exactly this answer
/// says: all of its dependencies and its versions of Elm. That is remembered for
/// the package, and nothing else changes.
pub proof fn lemma_answer_is_told_in_full<Cause>(
    known: RetrieverView,
    pkg: Pkg,
    request: RequestView,
    info: PackageView,
)
    ensures
        ({
            let (after, found) = model::lookup_next::<Cause>(
                known,
                pkg,
                Some((request, Ok(info))),
            );
            let n = info.dependencies.len();
            &&& found matches LookupView::Done(list)
            &&& after.deps == known.deps.insert(pkg, list)
            &&& after.versions == known.versions
            &&& after.preferred == known.preferred
            &&& after.mode == known.mode
            &&& after.offline == known.offline
            &&& list.len() == n + 1
            &&& forall|i: int| 0 <= i <= n ==> (#[trigger] list[i]).dependent == pkg
            &&& forall|i: int|
                0 <= i < n ==> (#[trigger] list[i]).dependency == PackageIdView::Pkg(
                    info.dependencies[i].0,
                )
            &&& forall|i: int, v: Version|
                0 <= i < n ==> (#[trigger] list[i].forbidden.contains(v)
                    <==> !info.dependencies[i].1@.contains(v))
            &&& list[n as int].dependency is Elm
            &&& forall|v: Version| #[trigger]
                list[n as int].forbidden.contains(v) <==> !info.elm_version@.contains(v)
        }),
{
    lemma_conflicts_leave_nothing_out(pkg, info);
}

/// Whichever request was answered, a choice with `pkg` in it violates nothing
/// that the search ends with exactly when the chosen versions of the dependencies,
/// and of Elm, are in the ranges that the answer has for them.
pub proof fn lemma_search_says_what_suits<Cause>(
    known: RetrieverView,
    pkg: Pkg,
    request: RequestView,
    info: PackageView,
    chosen: Map<PackageIdView, Version>,
)
    requires
        chosen.contains_key(pkg.id),
        chosen[pkg.id] == pkg.version,
    ensures
        ({
            let found = model::lookup_next::<Cause>(known, pkg, Some((request, Ok(info)))).1;
            let list = found->Done_0;
            let kept = forall|i: int|
                0 <= i < list.len() ==> !(#[trigger] list[i]).violated_by(chosen);
            let in_ranges = forall|i: int|
                0 <= i < info.dependencies.len() && chosen.contains_key(
                    PackageIdView::Pkg((#[trigger] info.dependencies[i]).0),
                ) ==> info.dependencies[i].1@.contains(
                    chosen[PackageIdView::Pkg(info.dependencies[i].0)],
                );
            let elm_in_range = chosen.contains_key(PackageIdView::Elm)
                ==> info.elm_version@.contains(chosen[PackageIdView::Elm]);
            found is Done && (kept <==> in_ranges && elm_in_range)
        }),
{
    lemma_conflicts_say_what_suits(pkg, info, chosen);
    let found = model::lookup_next::<Cause>(known, pkg, Some((request, Ok(info)))).1;
    let list = found->Done_0;
    assert(found is Done);
    assert(list == model::conflicts_of(pkg, info));
    if suits(info, chosen) {
        assert forall|i: int| 0 <= i < list.len() implies !(#[trigger] list[i]).violated_by(
            chosen,
        ) by {
            assert(!model::conflicts_of(pkg, info)[i].violated_by(chosen));
        }
    } else {
        let i = choose|i: int|
            0 <= i < model::conflicts_of(pkg, info).len() && (#[trigger] model::conflicts_of(
                pkg,
                info,
            )[i]).violated_by(chosen);
        assert(list[i].violated_by(chosen));
    }
}

/// What is noted of a package is what it says of itself, and nothing else that is
/// known changes.
pub proof fn lemma_learned_in_full(known: RetrieverView, pkg: Pkg, info: PackageView)
    ensures
        model::learned(known, pkg, info).deps == known.deps.insert(
            pkg,
            model::conflicts_of(pkg, info),
        ),
        model::learned(known, pkg, info).versions == known.versions,
        model::learned(known, pkg, info).preferred == known.preferred,
        model::learned(known, pkg, info).mode == known.mode,
        model::learned(known, pkg, info).offline == known.offline,
{
}

/// Elm is incompatible with nothing. Of anything else, what is known is told
/// without asking. Neither changes what is known.
pub proof fn lemma_known_is_told<Cause>(known: RetrieverView, pkg: Pkg)
    ensures
        pkg.id is Elm ==> model::lookup_next::<Cause>(known, pkg, None) == (
            known,
            LookupView::<Cause>::Done(Seq::empty()),
        ),
        !(pkg.id is Elm) && known.deps.contains_key(pkg) ==> model::lookup_next::<Cause>(
            known,
            pkg,
            None,
        ) == (known, LookupView::<Cause>::Done(known.deps[pkg])),
{
}

/// What a search asks for: the file of Elm 0.19.0, then that of Elm 0.19.1, then
/// the one that was downloaded earlier. What comes after that is the file of the
/// package site, which is kept where it will be looked for, or nothing while
/// working offline.
pub proof fn lemma_what_is_asked_for<Cause>(
    known: RetrieverView,
    pkg: Pkg,
    path: Seq<char>,
    cause: Cause,
)
    ensures
        ({
            let end = pkg.id.text() + "/"@ + pkg.version.text() + "/elm.json"@;
            let failed = |source: Source|
                model::lookup_next(
                    known,
                    pkg,
                    Some((RequestView::Read { source, path }, Err(cause))),
                );
            &&& !(pkg.id is Elm) && !known.deps.contains_key(pkg) ==> model::lookup_next::<Cause>(
                known,
                pkg,
                None,
            ) == (
                known,
                LookupView::<Cause>::Ask(
                    RequestView::Read {
                        source: Source::Elm0190,
                        path: "0.19.0/package/"@ + end,
                    },
                ),
            )
            &&& failed(Source::Elm0190) == (
                known,
                LookupView::<Cause>::Ask(
                    RequestView::Read {
                        source: Source::Elm0191,
                        path: "0.19.1/packages/"@ + end,
                    },
                ),
            )
            &&& failed(Source::Elm0191) == (
                known,
                LookupView::<Cause>::Ask(
                    RequestView::Read {
                        source: Source::Downloaded,
                        path: "elm-json/packages/"@ + end,
                    },
                ),
            )
            &&& known.offline ==> failed(Source::Downloaded) == (
                known,
                LookupView::<Cause>::Offline,
            )
            &&& !known.offline ==> failed(Source::Downloaded) == (
                known,
                LookupView::<Cause>::Ask(
                    RequestView::Fetch {
                        url: "https://package.elm-lang.org/packages/"@ + end,
                        path: "elm-json/packages/"@ + end,
                    },
                ),
            )
        }),
{
    paths::lemma_paths_of_anything(pkg);
}

/// A download that fails ends the search with the cause of that, and leaves what
/// is known as it is.
pub proof fn lemma_failed_download_is_passed_on<Cause>(
    known: RetrieverView,
    pkg: Pkg,
    url: Seq<char>,
    path: Seq<char>,
    cause: Cause,
)
    ensures
        model::lookup_next(known, pkg, Some((RequestView::Fetch { url, path }, Err(cause)))) == (
            known,
            LookupView::Broken(cause),
        ),
{
}

/// The versions that were kept are taken as they are. The package site is asked
/// for what it has beyond as many as these are, unless nothing may be downloaded;
/// nothing is saved then.
pub proof fn lemma_kept_versions_are_taken(known: RetrieverView, kept: VersionMap)
    ensures
        model::fetch_next(known, FetchView::ReadCache, Some(kept)) == (
            known,
            if known.offline {
                FetchView::Settle { versions: kept, save: false }
            } else {
                FetchView::FetchRemote { versions: kept, since: table::total_len(kept) }
            },
        ),
{
}

/// What the package site answers is added at the end of the lists that were kept.
/// It is saved exactly when the answer has a package.
pub proof fn lemma_answer_of_site_is_added(
    known: RetrieverView,
    kept: VersionMap,
    since: nat,
    remote: VersionMap,
    pkg: NameView,
)
    ensures
        ({
            let (after, next) = model::fetch_next(
                known,
                FetchView::FetchRemote { versions: kept, since },
                Some(remote),
            );
            &&& after == known
            &&& next matches FetchView::Settle { versions: now, save }
            &&& save <==> exists|k: NameView| #[trigger] remote.contains_key(k)
            &&& now.contains_key(pkg) <==> kept.contains_key(pkg) || remote.contains_key(pkg)
            &&& kept.contains_key(pkg) && remote.contains_key(pkg) ==> now[pkg] == kept[pkg]
                + remote[pkg]
            &&& kept.contains_key(pkg) && !remote.contains_key(pkg) ==> now[pkg] == kept[pkg]
            &&& !kept.contains_key(pkg) && remote.contains_key(pkg) ==> now[pkg] == remote[pkg]
        }),
{
    versions::lemma_extended_lists(kept, remote, pkg);
    if forall|k: NameView| !(#[trigger] remote.contains_key(k)) {
        assert(remote =~= Map::<NameView, Seq<Version>>::empty());
    }
}

/// In the end the versions are known of every package that the places had: the
/// list so far comes first, and the installed versions that it lacks follow. The
/// project has the version 1.0.0. Nothing else that is known changes.
pub proof fn lemma_settled_versions(
    known: RetrieverView,
    current: VersionMap,
    save: bool,
    local: VersionMap,
    pkg: NameView,
    v: Version,
)
    ensures
        ({
            let (after, next) = model::fetch_next(
                known,
                FetchView::Settle { versions: current, save },
                Some(local),
            );
            let id = PackageIdView::Pkg(pkg);
            &&& next is Done
            &&& after.deps == known.deps
            &&& after.preferred == known.preferred
            &&& after.mode == known.mode
            &&& after.offline == known.offline
            &&& after.versions.contains_key(id) <==> current.contains_key(pkg)
                || local.contains_key(pkg)
            &&& current.contains_key(pkg) ==> current[pkg].is_prefix_of(after.versions[id])
            &&& current.contains_key(pkg) && !local.contains_key(pkg) ==> after.versions[id]
                == current[pkg]
            &&& current.contains_key(pkg) && local.contains_key(pkg) ==> after.versions[id]
                == versions::with_new(current[pkg], local[pkg])
            &&& !current.contains_key(pkg) && local.contains_key(pkg) ==> after.versions[id]
                == versions::with_new(Seq::empty(), local[pkg])
            &&& after.versions.contains_key(id) ==> (after.versions[id].contains(v) <==> {
                ||| current.contains_key(pkg) && current[pkg].contains(v)
                ||| local.contains_key(pkg) && local[pkg].contains(v)
            })
            &&& after.versions.contains_key(PackageIdView::Root)
            &&& after.versions[PackageIdView::Root] == seq![
                Version { major: 1, minor: 0, patch: 0 },
            ]
        }),
{
    versions::lemma_completed_lists(current, local, pkg, v);
}

/// In the end the versions that are known of Elm are 0.14.0, 0.15.0, 0.16.0,
/// 0.17.0, 0.18.0, 0.19.0 and 0.19.1, in this order and no others, whatever the
/// places brought.
pub proof fn lemma_settled_versions_of_elm(
    known: RetrieverView,
    current: VersionMap,
    save: bool,
    local: Option<VersionMap>,
    v: Version,
)
    ensures
        ({
            let after = model::fetch_next(
                known,
                FetchView::Settle { versions: current, save },
                local,
            ).0;
            let list = after.versions[PackageIdView::Elm];
            &&& after.versions.contains_key(PackageIdView::Elm)
            &&& list.len() == 7
            &&& forall|i: int, j: int|
                0 <= i < j < list.len() ==> (#[trigger] list[i]).before(#[trigger] list[j])
            &&& list.contains(v) <==> {
                ||| v.major == 0 && v.minor == 14 && v.patch == 0
                ||| v.major == 0 && v.minor == 15 && v.patch == 0
                ||| v.major == 0 && v.minor == 16 && v.patch == 0
                ||| v.major == 0 && v.minor == 17 && v.patch == 0
                ||| v.major == 0 && v.minor == 18 && v.patch == 0
                ||| v.major == 0 && v.minor == 19 && v.patch == 0
                ||| v.major == 0 && v.minor == 19 && v.patch == 1
            }
        }),
{
    let list = model::all_versions(
        versions::completed(current, model::or_empty(local)),
    )[PackageIdView::Elm];
    assert(list.len() == 7);
    if v.major == 0 && v.patch == 0 && 14 <= v.minor <= 19 {
        assert(list[v.minor - 14] == v);
    }
    if v.major == 0 && v.minor == 19 && v.patch == 1 {
        assert(list[6] == v);
    }
}

/// A place that fails counts as one without versions, and there is nothing left to
/// do in the end.
pub proof fn lemma_failed_place_has_no_versions(
    known: RetrieverView,
    step: FetchView,
    reply: Option<VersionMap>,
)
    ensures
        model::fetch_next(known, step, None) == model::fetch_next(known, step, Some(Map::empty())),
        model::fetch_next(known, FetchView::Done, reply) == (known, FetchView::Done),
{
}

/// The version to try first is a listed and allowed one, and by its numbers none
/// that is listed and allowed is newer, or older where the oldest is preferred.
pub proof fn lemma_best_by_numbers(
    v: Version,
    list: Seq<Version>,
    allowed: Set<Version>,
    mode: Mode,
)
    ensures
        model::is_best(v, list, allowed, mode) <==> {
            &&& exists|i: int| 0 <= i < list.len() && #[trigger] list[i] == v
            &&& allowed.contains(v)
            &&& forall|i: int|
                0 <= i < list.len() && allowed.contains(#[trigger] list[i]) ==> {
                    let (low, high) = match mode {
                        Mode::Minimize => (v, list[i]),
                        Mode::Maximize => (list[i], v),
                    };
                    ||| low.major < high.major
                    ||| low.major == high.major && low.minor < high.minor
                    ||| low.major == high.major && low.minor == high.minor && low.patch
                        <= high.patch
                }
        },
{
    assert forall|w: Version| #[trigger] list.contains(w) <==> exists|i: int|
        0 <= i < list.len() && #[trigger] list[i] == w by {}
    assert forall|i: int| 0 <= i < list.len() implies list.contains(#[trigger] list[i]) by {}
}

/// There is a version to try first exactly when a listed one is allowed.
pub proof fn lemma_some_version_is_allowed(list: Seq<Version>, allowed: Set<Version>)
    ensures
        model::some_allowed(list, allowed) <==> exists|i: int|
            0 <= i < list.len() && allowed.contains(#[trigger] list[i]),
{
    if exists|i: int| 0 <= i < list.len() && allowed.contains(#[trigger] list[i]) {
        let i = choose|i: int| 0 <= i < list.len() && allowed.contains(#[trigger] list[i]);
        assert(list.contains(list[i]));
    }
}

} // verus!
