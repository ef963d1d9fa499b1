use elm_json::package::local::{installed_versions, AuthorDir, ProjectDir, VersionDir};
use elm_json::package::paths::{self, PathError};
use elm_json::package::remote::{self, EntryError, RemoteError};
use elm_json::package::stored::{from_stored, to_stored};
use elm_json::package::{versions, Name, Package, PackageId, VersionTable};
use elm_json::semver::{Range, Version};
use elm_json::solver::summary::PackageId as _;
use elm_json::solver::Summary;
use elm_json::table::{Key, Table};

fn v(major: u64, minor: u64, patch: u64) -> Version {
    Version::new(major, minor, patch)
}

fn name(s: &str) -> Name {
    Name::parse(s).unwrap()
}

fn list(table: &VersionTable, pkg: &str) -> Option<Vec<Version>> {
    table.get(&name(pkg)).cloned()
}

fn texts(items: &[&str]) -> Vec<String> {
    items.iter().map(|s| s.to_string()).collect()
}

#[test]
fn names_read_back() {
    assert_eq!(name("elm/core").to_text(), "elm/core");
    assert_eq!(Name::new("elm", "core"), Some(name("elm/core")));
    assert_eq!(Name::parse("elm"), None);
    assert_eq!(Name::parse("elm/"), None);
    assert_eq!(Name::parse("/core"), None);
    assert_eq!(Name::parse("a/b/c"), None);
    assert_eq!(Name::new("a/b", "c"), None);
    assert_eq!(Name::new("", "c"), None);
}

#[test]
fn ids_have_a_text() {
    assert_eq!(PackageId::Root.to_text(), "root");
    assert_eq!(PackageId::Elm.to_text(), "Elm");
    assert_eq!(PackageId::from(name("elm/core")).to_text(), "elm/core");
}

#[test]
fn ids_know_what_they_are() {
    let core = PackageId::from(name("elm/core"));
    assert!(core.is(&name("elm/core")));
    assert!(!core.is(&name("elm/json")));
    assert!(!PackageId::Root.is(&name("elm/core")));
    assert!(!PackageId::Elm.is(&name("elm/core")));
    assert!(PackageId::Root.is_root());
    assert!(!PackageId::Elm.is_root());
    assert!(!core.is_root());
    assert!(core.same(&core.clone()));
    assert!(!core.same(&PackageId::Elm));
}

#[test]
fn tables_keep_one_value_for_a_key() {
    let mut table: Table<Name, Version> = Table::new();
    assert_eq!(table.len(), 0);
    table.insert(name("a/b"), v(1, 0, 0));
    table.insert(name("c/d"), v(2, 0, 0));
    table.insert(name("a/b"), v(3, 0, 0));
    assert_eq!(table.len(), 2);
    assert_eq!(table.get(&name("a/b")), Some(&v(3, 0, 0)));
    assert_eq!(table.get(&name("c/d")), Some(&v(2, 0, 0)));
    assert_eq!(table.get(&name("e/f")), None);
    assert_eq!(table.at(1).0, &name("c/d"));
}

#[test]
fn counts_all_versions() {
    let mut table = VersionTable::new();
    assert_eq!(versions::count(&table), 0);
    table.append_to(name("a/b"), vec![v(1, 0, 0), v(1, 0, 1)]);
    table.append_to(name("c/d"), Vec::new());
    table.push_to(name("e/f"), v(1, 0, 0));
    assert_eq!(versions::count(&table), 3);
}

#[test]
fn extending_adds_at_the_end() {
    let mut table = VersionTable::new();
    table.append_to(name("a/b"), vec![v(1, 0, 0)]);
    let mut more = VersionTable::new();
    assert!(!versions::extend(&mut table, &more));
    more.append_to(name("a/b"), vec![v(1, 0, 0), v(2, 0, 0)]);
    more.append_to(name("c/d"), vec![v(5, 0, 0)]);
    assert!(versions::extend(&mut table, &more));
    assert_eq!(
        list(&table, "a/b"),
        Some(vec![v(1, 0, 0), v(1, 0, 0), v(2, 0, 0)])
    );
    assert_eq!(list(&table, "c/d"), Some(vec![v(5, 0, 0)]));
    assert_eq!(versions::count(&table), 4);
}

#[test]
fn completing_adds_what_is_new() {
    let mut table = VersionTable::new();
    table.append_to(name("a/b"), vec![v(1, 0, 0)]);
    let mut more = VersionTable::new();
    more.append_to(name("a/b"), vec![v(2, 0, 0), v(1, 0, 0), v(2, 0, 0)]);
    more.append_to(name("c/d"), Vec::new());
    versions::complete(&mut table, &more);
    assert_eq!(list(&table, "a/b"), Some(vec![v(1, 0, 0), v(2, 0, 0)]));
    assert_eq!(list(&table, "c/d"), Some(Vec::new()));
    assert_eq!(list(&table, "e/f"), None);
}

#[test]
fn asks_for_what_is_missing() {
    assert_eq!(
        remote::versions_url(1234),
        "https://package.elm-lang.org/all-packages/since/1234"
    );
}

#[test]
fn reads_an_answer() {
    let table = remote::read_answer(
        r#" ["elm/core@1.0.0", "elm/json@1.1.3", "elm/core@1.0.1", "elm/html@2.0.0"] "#,
    )
    .ok()
    .unwrap();
    assert_eq!(list(&table, "elm/core"), Some(vec![v(1, 0, 0), v(1, 0, 1)]));
    assert_eq!(list(&table, "elm/json"), Some(vec![v(1, 1, 3)]));
    assert_eq!(list(&table, "elm/html"), Some(vec![v(2, 0, 0)]));
    assert_eq!(table.len(), 3);
    assert_eq!(versions::count(&table), 4);
    assert_eq!(remote::read_answer("[]").ok().unwrap().len(), 0);
}

#[test]
fn refuses_an_answer_that_is_no_list() {
    for answer in ["", "{}", "[1]", "[\"elm/core@1.0.0\"", "[\"elm/core@1.0.0\"] x"] {
        let expected = serde_json::from_str::<Vec<String>>(answer).unwrap_err();
        match remote::read_answer(answer) {
            Err(RemoteError::Json(e)) => assert_eq!(e.to_string(), expected.to_string()),
            _ => panic!("not refused: {}", answer),
        }
    }
}

#[test]
fn hands_on_the_error_of_the_json_reader() {
    let error = serde_json::from_str::<Vec<String>>("[\"elm/core@1.0.0\",\n7]").unwrap_err();
    let message = error.to_string();
    match remote::read_list(Err(error)) {
        Err(RemoteError::Json(e)) => {
            assert_eq!(e.to_string(), message);
            assert_eq!(e.line(), 2);
            assert!(e.is_data());
        }
        _ => panic!("not handed on"),
    }
    let table = remote::read_list(Ok(texts(&["elm/core@1.0.0"]))).ok().unwrap();
    assert_eq!(list(&table, "elm/core"), Some(vec![v(1, 0, 0)]));
}

#[test]
fn refuses_an_answer_with_a_bad_entry() {
    match remote::read_answer("[\"elm/core@1.0.0\", \"elm/core\"]") {
        Err(RemoteError::Entry(e)) => {
            assert_eq!(e, EntryError::InvalidEntry("elm/core".to_string()))
        }
        _ => panic!("not refused"),
    }
}

#[test]
fn refuses_the_first_bad_entry() {
    let read = |items: &[&str]| remote::read_entries(&texts(items)).err();
    assert_eq!(
        read(&["elm/core@1.0.0", "elm/core", "elm@1.0.0"]),
        Some(EntryError::InvalidEntry("elm/core".to_string()))
    );
    assert_eq!(
        read(&["elm/core@1.0.0@2.0.0"]),
        Some(EntryError::InvalidEntry("elm/core@1.0.0@2.0.0".to_string()))
    );
    assert_eq!(
        read(&["elm@x"]),
        Some(EntryError::InvalidName("elm".to_string()))
    );
    assert_eq!(
        read(&["elm/core@1.0", "bad"]),
        Some(EntryError::InvalidVersion("1.0".to_string()))
    );
    assert_eq!(read(&["elm/core@1.0.0"]), None);
    assert_eq!(
        EntryError::InvalidEntry("x".to_string()).message(),
        "Invalid entry: x"
    );
    assert_eq!(
        EntryError::InvalidName("x".to_string()).message(),
        "Invalid package name: x"
    );
    assert_eq!(
        EntryError::InvalidVersion("x".to_string()).message(),
        "Invalid version: x"
    );
}

fn version_dir(name: &str, is_dir: bool, has_elm_json: bool) -> VersionDir {
    VersionDir {
        name: name.to_string(),
        is_dir,
        has_elm_json,
    }
}

fn project_dir(name: &str, is_dir: bool, versions: Vec<VersionDir>) -> ProjectDir {
    ProjectDir {
        name: name.to_string(),
        is_dir,
        versions,
    }
}

fn author_dir(name: &str, is_dir: bool, projects: Vec<ProjectDir>) -> AuthorDir {
    AuthorDir {
        name: name.to_string(),
        is_dir,
        projects,
    }
}

#[test]
fn finds_what_is_installed() {
    let older = vec![
        author_dir(
            "lamdera",
            true,
            vec![
                project_dir(
                    "core",
                    true,
                    vec![
                        version_dir("1.0.0", true, true),
                        version_dir("1.0.1", true, false),
                        version_dir("1.0.2", false, true),
                        version_dir("latest", true, true),
                    ],
                ),
                project_dir("notes", false, vec![version_dir("1.0.0", true, true)]),
                project_dir("", true, vec![version_dir("1.0.0", true, true)]),
                project_dir("empty", true, Vec::new()),
            ],
        ),
        author_dir(
            "readme",
            false,
            vec![project_dir("x", true, vec![version_dir("1.0.0", true, true)])],
        ),
    ];
    let newer = vec![author_dir(
        "lamdera",
        true,
        vec![
            project_dir(
                "core",
                true,
                vec![
                    version_dir("2.0.0", true, true),
                    version_dir("1.0.0", true, true),
                ],
            ),
            project_dir("codecs", true, vec![version_dir("1.0.0", true, true)]),
        ],
    )];
    let found = installed_versions(&vec![older, newer]);
    assert_eq!(found.len(), 2);
    assert_eq!(
        list(&found, "lamdera/core"),
        Some(vec![v(1, 0, 0), v(2, 0, 0)])
    );
    assert_eq!(list(&found, "lamdera/codecs"), Some(vec![v(1, 0, 0)]));
    assert_eq!(installed_versions(&vec![Vec::new(), Vec::new()]).len(), 0);
}

#[test]
fn what_is_kept_reads_back() {
    let mut table = VersionTable::new();
    table.append_to(name("a/b"), vec![v(1, 0, 0), v(10, 20, 30)]);
    table.append_to(name("c/d"), Vec::new());
    let stored = to_stored(&table);
    assert_eq!(
        stored,
        vec![
            ("a/b".to_string(), texts(&["1.0.0", "10.20.30"])),
            ("c/d".to_string(), Vec::new()),
        ]
    );
    let again = from_stored(&stored).unwrap();
    assert_eq!(again.len(), 2);
    assert_eq!(list(&again, "a/b"), Some(vec![v(1, 0, 0), v(10, 20, 30)]));
    assert_eq!(list(&again, "c/d"), Some(Vec::new()));
    assert!(from_stored(&vec![("ab".to_string(), Vec::new())]).is_none());
    assert!(from_stored(&vec![("a/b".to_string(), texts(&["1.0.0", "x"]))]).is_none());
    let twice = vec![
        ("a/b".to_string(), texts(&["1.0.0"])),
        ("a/b".to_string(), texts(&["2.0.0"])),
    ];
    assert_eq!(list(&from_stored(&twice).unwrap(), "a/b"), Some(vec![v(2, 0, 0)]));
}

#[test]
fn reads_what_a_package_says() {
    let range = "1.0.0 <= v < 2.0.0";
    let elm = "0.19.0 <= v < 0.20.0";
    let deps = vec![("elm/core".to_string(), range.to_string())];
    let info = Package::parse(&deps, elm).unwrap();
    assert_eq!(
        info.dependencies,
        vec![(name("elm/core"), Range::parse(range).unwrap())]
    );
    assert_eq!(info.elm_version(), Range::parse(elm).unwrap());
    assert!(Package::parse(&deps, "0.19.0").is_none());
    assert!(Package::parse(&vec![("core".to_string(), range.to_string())], elm).is_none());
    assert!(Package::parse(&vec![("elm/core".to_string(), "any".to_string())], elm).is_none());
}

#[test]
fn packages_are_kept_in_one_folder() {
    let some = |s: &str| Some(s.to_string());
    let path = paths::packages_path(some("/elm"), true, some("/config"), some("/home"))
        .ok()
        .unwrap();
    assert_eq!((path.base.as_str(), path.folder), ("/elm", None));
    let path = paths::packages_path(None, true, some("/config"), some("/home"))
        .ok()
        .unwrap();
    assert_eq!((path.base.as_str(), path.folder), ("/config", some("elm")));
    let path = paths::packages_path(None, false, some("/config"), some("/home"))
        .ok()
        .unwrap();
    assert_eq!((path.base.as_str(), path.folder), ("/home", some(".elm")));
    let none: Option<String> = None;
    let error = paths::packages_path(none.clone(), true, None, some("/home"))
        .err()
        .unwrap();
    assert_eq!(error, PathError::NoConfigDir);
    assert_eq!(error.message(), "No config directory found?");
    let error = paths::packages_path(none, false, some("/config"), None)
        .err()
        .unwrap();
    assert_eq!(error, PathError::NoHomeDir);
    assert_eq!(error.message(), "No home directory found?");
}

#[test]
fn files_have_their_places() {
    let pkg = Summary::new(PackageId::from(name("elm/core")), v(1, 0, 5));
    assert_eq!(
        paths::cached_json_path(&pkg),
        "elm-json/packages/elm/core/1.0.5/elm.json"
    );
    assert_eq!(
        paths::stored_json_path("0.19.1", "s", &pkg),
        "0.19.1/packages/elm/core/1.0.5/elm.json"
    );
    assert_eq!(
        paths::deps_url(&pkg),
        "https://package.elm-lang.org/packages/elm/core/1.0.5/elm.json"
    );
    assert_eq!(
        paths::cache_file(),
        ("elm-json".to_string(), "versions.dat".to_string())
    );
    assert_eq!(
        paths::local_folders(),
        vec![
            ("0.19.0".to_string(), "packages".to_string()),
            ("0.19.1".to_string(), "packages".to_string()),
        ]
    );
}

#[test]
fn no_two_packages_share_a_file() {
    let all = [
        Summary::new(PackageId::Root, v(1, 0, 0)),
        Summary::new(PackageId::Elm, v(1, 0, 0)),
        Summary::new(PackageId::from(name("a/b")), v(1, 0, 0)),
        Summary::new(PackageId::from(name("a/b")), v(11, 0, 0)),
        Summary::new(PackageId::from(name("a/b1")), v(1, 0, 0)),
    ];
    for (i, one) in all.iter().enumerate() {
        for other in &all[i + 1..] {
            assert_ne!(paths::cached_json_path(one), paths::cached_json_path(other));
            assert_ne!(paths::deps_url(one), paths::deps_url(other));
        }
    }
}
