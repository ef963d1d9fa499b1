use elm_json::package::model::Source;
use elm_json::package::retriever::{Request, RetrieveError, VersionFetch};
use elm_json::package::{remote, Name, Package, PackageId, Retriever, VersionTable};
use elm_json::semver::{Bound, Constraint, Range, Version};
use elm_json::solver::retriever::{Progress, Retriever as Solver};
use elm_json::solver::{Incompatibility, Summary};

type Outcome = Progress<PackageId, Request, RetrieveError, String>;

fn v(major: u64, minor: u64, patch: u64) -> Version {
    Version::new(major, minor, patch)
}

fn name(s: &str) -> Name {
    Name::parse(s).unwrap()
}

fn id(s: &str) -> PackageId {
    PackageId::from(name(s))
}

fn range(s: &str) -> Range {
    Range::parse(s).unwrap()
}

fn any() -> Constraint {
    Range::new(Bound::Unbounded, Bound::Unbounded).to_constraint()
}

fn retriever(offline: bool) -> Retriever {
    Retriever::new(&range("0.19.0 <= v < 0.20.0").to_constraint(), offline)
}

fn table(entries: &[&str]) -> VersionTable {
    let entries: Vec<String> = entries.iter().map(|s| s.to_string()).collect();
    remote::read_entries(&entries).ok().unwrap()
}

/// Goes through all steps, and tells what was asked for and whether to save.
fn fetch(
    r: &mut Retriever,
    cached: Option<VersionTable>,
    answer: Option<VersionTable>,
    local: Option<VersionTable>,
) -> (Option<usize>, bool) {
    let mut asked: Option<usize> = None;
    let mut step = r.fetch_versions(VersionFetch::ReadCache, cached);
    if let VersionFetch::FetchRemote { since, .. } = &step {
        asked = Some(*since);
        step = r.fetch_versions(step, answer);
    }
    let saved = match &step {
        VersionFetch::Settle { save, .. } => *save,
        _ => panic!("not settled"),
    };
    let done = r.fetch_versions(step, local);
    assert!(matches!(done, VersionFetch::Done));
    assert!(matches!(r.fetch_versions(done, None), VersionFetch::Done));
    (asked, saved)
}

fn done(outcome: Outcome) -> Vec<Incompatibility<PackageId>> {
    match outcome {
        Progress::Done(list) => list,
        _ => panic!("not done"),
    }
}

fn asked(outcome: Outcome) -> Request {
    match outcome {
        Progress::Ask(request) => request,
        _ => panic!("nothing asked"),
    }
}

fn package() -> Package {
    Package {
        dependencies: vec![
            (name("elm/core"), range("1.0.0 <= v < 2.0.0")),
            (name("elm/json"), range("1.1.0 <= v < 2.0.0")),
        ],
        elm_version: range("0.19.0 <= v < 0.20.0"),
    }
}

fn check_package(pkg: &Summary<PackageId>, list: &[Incompatibility<PackageId>]) {
    assert_eq!(list.len(), 3);
    for one in list {
        assert_eq!(one.dependent(), pkg);
    }
    assert_eq!(list[0].dependency(), &id("elm/core"));
    assert!(list[0].forbids(&v(0, 9, 0)));
    assert!(!list[0].forbids(&v(1, 0, 0)));
    assert!(list[0].forbids(&v(2, 0, 0)));
    assert_eq!(list[1].dependency(), &id("elm/json"));
    assert!(list[1].forbids(&v(1, 0, 9)));
    assert_eq!(list[2].dependency(), &PackageId::Elm);
    assert!(list[2].forbids(&v(0, 18, 0)));
    assert!(!list[2].forbids(&v(0, 19, 1)));
}

#[test]
fn the_project_is_the_root() {
    let root = Retriever::root();
    assert_eq!(root.id, PackageId::Root);
    assert_eq!(root.version, v(1, 0, 0));
    assert_eq!(Solver::root(&retriever(true)), root);
}

#[test]
fn a_new_retriever_needs_its_elm_version() {
    let mut r = retriever(true);
    let list = done(r.incompats(&Retriever::root(), None));
    assert_eq!(list.len(), 1);
    assert_eq!(list[0].dependent(), &Retriever::root());
    assert_eq!(list[0].dependency(), &PackageId::Elm);
    assert!(list[0].forbids(&v(0, 18, 0)));
    assert!(!list[0].forbids(&v(0, 19, 0)));
    assert_eq!(r.count_versions(&PackageId::Elm), 0);
}

#[test]
fn dependencies_of_the_project_add_up() {
    let mut r = retriever(true);
    r.add_deps(&vec![
        (name("elm/core"), range("1.0.0 <= v < 2.0.0")),
        (name("elm/html"), range("1.0.0 <= v < 1.0.1")),
    ]);
    r.add_dep(name("elm/json"), Some(range("1.1.3 <= v <= 1.1.3").to_constraint()));
    r.add_dep(name("elm/time"), None);
    let list = done(r.incompats(&Retriever::root(), None));
    assert_eq!(list.len(), 5);
    assert_eq!(list[1].dependency(), &id("elm/core"));
    assert!(!list[1].forbids(&v(1, 5, 0)));
    assert!(list[1].forbids(&v(2, 0, 0)));
    assert_eq!(list[2].dependency(), &id("elm/html"));
    assert_eq!(list[3].dependency(), &id("elm/json"));
    assert!(!list[3].forbids(&v(1, 1, 3)));
    assert!(list[3].forbids(&v(1, 1, 4)));
    assert_eq!(list[4].dependency(), &id("elm/time"));
    assert!(!list[4].forbids(&v(0, 0, 0)));
    assert!(!list[4].forbids(&v(9, 9, 9)));
}

#[test]
fn fetching_combines_three_places() {
    let mut r = retriever(false);
    let result = fetch(
        &mut r,
        Some(table(&["a/b@1.0.0", "a/b@1.0.1", "c/d@1.0.0"])),
        Some(table(&["a/b@2.0.0", "e/f@1.0.0"])),
        Some(table(&["a/b@1.0.1", "a/b@3.0.0", "l/m@1.0.0"])),
    );
    assert_eq!(result, (Some(3), true));
    assert_eq!(r.count_versions(&id("a/b")), 4);
    assert_eq!(r.count_versions(&id("c/d")), 1);
    assert_eq!(r.count_versions(&id("e/f")), 1);
    assert_eq!(r.count_versions(&id("l/m")), 1);
    assert_eq!(r.count_versions(&id("x/y")), 0);
    assert_eq!(r.count_versions(&PackageId::Root), 1);
    assert_eq!(r.count_versions(&PackageId::Elm), 7);
    assert_eq!(r.best(&id("a/b"), &any()).ok(), Some(v(3, 0, 0)));
}

#[test]
fn failing_places_count_as_empty() {
    let mut r = retriever(false);
    assert_eq!(fetch(&mut r, None, None, None), (Some(0), false));
    assert_eq!(r.count_versions(&PackageId::Elm), 7);
    let cached = || Some(table(&["a/b@1.0.0"]));
    assert_eq!(fetch(&mut r, cached(), None, None), (Some(1), false));
    assert_eq!(r.count_versions(&id("a/b")), 1);
    assert_eq!(
        fetch(&mut r, cached(), Some(VersionTable::new()), None),
        (Some(1), false)
    );
}

#[test]
fn the_next_request_goes_on() {
    let mut r = retriever(false);
    let step = r.fetch_versions(VersionFetch::ReadCache, Some(table(&["a/b@1.0.0"])));
    let step = r.fetch_versions(step, Some(table(&["a/b@1.0.0", "c/d@1.0.0"])));
    let kept = match step {
        VersionFetch::Settle { versions, save } => {
            assert!(save);
            versions
        }
        _ => panic!("not settled"),
    };
    assert_eq!(Retriever::count_versions(&kept), 3);
    assert_eq!(fetch(&mut r, Some(kept), None, None), (Some(3), false));
}

#[test]
fn nothing_is_downloaded_offline() {
    let mut r = retriever(true);
    let cached = Some(table(&["a/b@1.0.0"]));
    assert_eq!(fetch(&mut r, cached, None, None), (None, false));
    assert_eq!(r.count_versions(&id("a/b")), 1);
    let pkg = Summary::new(id("a/b"), v(1, 0, 0));
    let first = asked(r.incompats(&pkg, None));
    let second = asked(r.incompats(&pkg, Some((first, Err("no such file".to_string())))));
    let third = asked(r.incompats(&pkg, Some((second, Err("no such file".to_string())))));
    match r.incompats(&pkg, Some((third, Err("no such file".to_string())))) {
        Progress::Failed(e) => {
            assert!(matches!(e, RetrieveError::Offline));
            assert_eq!(
                e.message(),
                "I need to fetch dependencies from package.elm-lang.org but I'm working in offline mode!"
            );
        }
        _ => panic!("not failed"),
    }
}

#[test]
fn sources_are_asked_in_order() {
    let mut r = retriever(false);
    let pkg = Summary::new(id("elm/http"), v(2, 0, 0));
    let first = asked(r.incompats(&pkg, None));
    assert_eq!(
        first,
        Request::Read {
            source: Source::Elm0190,
            path: "0.19.0/package/elm/http/2.0.0/elm.json".to_string(),
        }
    );
    let second = asked(r.incompats(&pkg, Some((first, Err("no such file".to_string())))));
    assert_eq!(
        second,
        Request::Read {
            source: Source::Elm0191,
            path: "0.19.1/packages/elm/http/2.0.0/elm.json".to_string(),
        }
    );
    let third = asked(r.incompats(&pkg, Some((second, Err("no such file".to_string())))));
    assert_eq!(
        third,
        Request::Read {
            source: Source::Downloaded,
            path: "elm-json/packages/elm/http/2.0.0/elm.json".to_string(),
        }
    );
    let last = asked(r.incompats(&pkg, Some((third, Err("no such file".to_string())))));
    assert_eq!(
        last,
        Request::Fetch {
            url: "https://package.elm-lang.org/packages/elm/http/2.0.0/elm.json".to_string(),
            path: "elm-json/packages/elm/http/2.0.0/elm.json".to_string(),
        }
    );
    match r.incompats(&pkg, Some((last, Err("connection refused".to_string())))) {
        Progress::Broken(cause) => assert_eq!(cause, "connection refused"),
        _ => panic!("not broken"),
    }
    asked(r.incompats(&pkg, None));
}

#[test]
fn a_download_tells_what_a_package_says() {
    let mut r = retriever(false);
    let pkg = Summary::new(id("elm/http"), v(2, 0, 0));
    let mut request = asked(r.incompats(&pkg, None));
    for _ in 0..3 {
        request = asked(r.incompats(&pkg, Some((request, Err("no such file".to_string())))));
    }
    assert!(matches!(request, Request::Fetch { .. }));
    check_package(&pkg, &done(r.incompats(&pkg, Some((request, Ok(package()))))));
    check_package(&pkg, &done(r.incompats(&pkg, None)));
}

#[test]
fn what_a_package_says_is_remembered() {
    let mut r = retriever(false);
    let pkg = Summary::new(id("elm/http"), v(2, 0, 0));
    let first = asked(r.incompats(&pkg, None));
    check_package(&pkg, &done(r.incompats(&pkg, Some((first, Ok(package()))))));
    check_package(&pkg, &done(r.incompats(&pkg, None)));
    let other = Summary::new(id("elm/http"), v(1, 0, 0));
    asked(r.incompats(&other, None));
    assert_eq!(done(r.incompats(&Retriever::root(), None)).len(), 1);
    check_package(&other, &r.deps_from_package(&other, &package()));
    check_package(&other, &done(r.incompats(&other, None)));
}

#[test]
fn elm_is_incompatible_with_nothing() {
    let mut r = retriever(false);
    let elm = Summary::new(PackageId::Elm, v(0, 19, 1));
    assert_eq!(done(r.incompats(&elm, None)).len(), 0);
    check_package(&elm, &r.deps_from_package(&elm, &package()));
    assert_eq!(done(r.incompats(&elm, None)).len(), 0);
}

#[test]
fn the_newest_version_is_best() {
    let mut r = retriever(true);
    let cached = Some(table(&["a/b@1.0.0", "a/b@2.1.0", "a/b@2.0.5", "a/b@1.9.9"]));
    fetch(&mut r, cached, None, None);
    assert_eq!(r.best(&id("a/b"), &any()).ok(), Some(v(2, 1, 0)));
    let con = range("1.0.0 <= v < 2.0.0").to_constraint();
    assert_eq!(r.best(&id("a/b"), &con).ok(), Some(v(1, 9, 9)));
    assert_eq!(r.best(&PackageId::Elm, &any()).ok(), Some(v(0, 19, 1)));
    assert_eq!(r.best(&PackageId::Root, &any()).ok(), Some(v(1, 0, 0)));
}

#[test]
fn the_oldest_version_is_best_when_minimizing() {
    let mut r = retriever(true);
    let cached = Some(table(&["a/b@1.5.0", "a/b@2.1.0", "a/b@1.0.0", "a/b@2.0.5"]));
    fetch(&mut r, cached, None, None);
    r.minimize();
    assert_eq!(r.best(&id("a/b"), &any()).ok(), Some(v(1, 0, 0)));
    let con = range("2.0.0 <= v < 3.0.0").to_constraint();
    assert_eq!(r.best(&id("a/b"), &con).ok(), Some(v(2, 0, 5)));
    assert_eq!(r.best(&PackageId::Elm, &any()).ok(), Some(v(0, 14, 0)));
}

#[test]
fn preferred_versions_have_to_be_used() {
    let mut r = retriever(true);
    fetch(&mut r, Some(table(&["a/b@1.0.0", "a/b@2.0.0"])), None, None);
    r.add_preferred_versions(vec![(id("a/b"), v(2, 0, 0)), (id("a/b"), v(1, 0, 0))]);
    assert_eq!(r.best(&id("a/b"), &any()).ok(), Some(v(1, 0, 0)));
    r.add_preferred_versions(vec![(id("a/b"), v(1, 5, 0)), (id("x/y"), v(4, 0, 0))]);
    assert_eq!(r.best(&id("a/b"), &any()).ok(), Some(v(1, 5, 0)));
    assert_eq!(r.best(&id("x/y"), &any()).ok(), Some(v(4, 0, 0)));
    let con = range("2.0.0 <= v < 3.0.0").to_constraint();
    let error = r.best(&id("a/b"), &con).err().unwrap();
    assert!(matches!(error, RetrieveError::NotAllowed { .. }));
    assert_eq!(
        error.message(),
        "I want to use version 1.5.0 for a/b but it's not allowed by constraint 2.0.0 <= v < 3.0.0"
    );
}

#[test]
fn there_may_be_no_version() {
    let mut r = retriever(true);
    fetch(&mut r, Some(table(&["a/b@1.0.0"])), None, None);
    let con = range("2.0.0 <= v < 3.0.0").to_constraint();
    let error = r.best(&id("a/b"), &con).err().unwrap();
    assert!(matches!(error, RetrieveError::NoVersion(_)));
    assert_eq!(error.message(), "Failed to find a version for a/b");
    let error = r.best(&id("x/y"), &any()).err().unwrap();
    assert!(matches!(error, RetrieveError::UnknownPackage(_)));
    assert_eq!(error.message(), "Unknown package x/y");
}
