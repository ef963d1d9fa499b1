//! The packages that are installed on this machine.

use crate::package::name::{self, Name, NameView};
use crate::package::versions::{self, VersionMap, VersionTable};
use crate::semver::Version;
use crate::table;
use vstd::prelude::*;

verus! {

/// An entry in the folder of a project.
pub struct VersionDir {
    pub name: String,
    pub is_dir: bool,
    /// There is something called `elm.json` in it.
    pub has_elm_json: bool,
}

/// An entry in the folder of an author. What is no folder, or cannot be read,
/// has no versions.
pub struct ProjectDir {
    pub name: String,
    pub is_dir: bool,
    pub versions: Vec<VersionDir>,
}

/// An entry in a folder of packages. What is no folder, or cannot be read, has
/// no projects.
pub struct AuthorDir {
    pub name: String,
    pub is_dir: bool,
    pub projects: Vec<ProjectDir>,
}

/// What a `VersionDir` stands for.
pub struct VersionDirView {
    pub name: Seq<char>,
    pub is_dir: bool,
    pub has_elm_json: bool,
}

/// What a `ProjectDir` stands for.
pub struct ProjectDirView {
    pub name: Seq<char>,
    pub is_dir: bool,
    pub versions: Seq<VersionDirView>,
}

/// What an `AuthorDir` stands for.
pub struct AuthorDirView {
    pub name: Seq<char>,
    pub is_dir: bool,
    pub projects: Seq<ProjectDirView>,
}

impl DeepView for VersionDir {
    type V = VersionDirView;

    open spec fn deep_view(&self) -> VersionDirView {
        VersionDirView {
            name: self.name@,
            is_dir: self.is_dir,
            has_elm_json: self.has_elm_json,
        }
    }
}

impl DeepView for ProjectDir {
    type V = ProjectDirView;

    open spec fn deep_view(&self) -> ProjectDirView {
        ProjectDirView {
            name: self.name@,
            is_dir: self.is_dir,
            versions: self.versions.deep_view(),
        }
    }
}

impl DeepView for AuthorDir {
    type V = AuthorDirView;

    open spec fn deep_view(&self) -> AuthorDirView {
        AuthorDirView {
            name: self.name@,
            is_dir: self.is_dir,
            projects: self.projects.deep_view(),
        }
    }
}

impl VersionDirView {
    /// The version that is installed here, if one is: the entry is a folder,
    /// there is an `elm.json` in it, and its name is that version.
    pub open spec fn installed(self) -> Option<Version> {
        if self.is_dir && self.has_elm_json {
            Version::read(self.name)
        } else {
            None
        }
    }
}

/// `found`, and then the versions of `pkg` that are installed in these folders.
pub open spec fn scan_versions(
    found: VersionMap,
    pkg: NameView,
    dirs: Seq<VersionDirView>,
) -> VersionMap
    decreases dirs.len(),
{
    if dirs.len() == 0 {
        found
    } else {
        let before = scan_versions(found, pkg, dirs.drop_last());
        match dirs.last().installed() {
            Some(v) => before.insert(
                pkg,
                versions::with_new(table::list_at(before, pkg), seq![v]),
            ),
            None => before,
        }
    }
}

/// The package of an author that an entry with this name holds, if it is one.
pub open spec fn package_in(author: Seq<char>, dir: ProjectDirView) -> Option<NameView> {
    if dir.is_dir && name::valid_part(author) && name::valid_part(dir.name) {
        Some(NameView { author, project: dir.name })
    } else {
        None
    }
}

/// `found`, and then the versions that are installed in the folders of these projects.
pub open spec fn scan_projects(
    found: VersionMap,
    author: Seq<char>,
    dirs: Seq<ProjectDirView>,
) -> VersionMap
    decreases dirs.len(),
{
    if dirs.len() == 0 {
        found
    } else {
        let before = scan_projects(found, author, dirs.drop_last());
        match package_in(author, dirs.last()) {
            Some(pkg) => scan_versions(before, pkg, dirs.last().versions),
            None => before,
        }
    }
}

/// `found`, and then the versions that are installed in the folders of these authors.
pub open spec fn scan_authors(found: VersionMap, dirs: Seq<AuthorDirView>) -> VersionMap
    decreases dirs.len(),
{
    if dirs.len() == 0 {
        found
    } else {
        let before = scan_authors(found, dirs.drop_last());
        if dirs.last().is_dir {
            scan_projects(before, dirs.last().name, dirs.last().projects)
        } else {
            before
        }
    }
}

/// The versions that are installed in these folders of packages.
pub open spec fn scan(folders: Seq<Seq<AuthorDirView>>) -> VersionMap
    decreases folders.len(),
{
    if folders.len() == 0 {
        Map::empty()
    } else {
        scan_authors(scan(folders.drop_last()), folders.last())
    }
}

/// The version `v` is installed in one of these folders.
pub open spec fn in_versions(dirs: Seq<VersionDirView>, v: Version) -> bool {
    exists|i: int| 0 <= i < dirs.len() && (#[trigger] dirs[i]).installed() == Some(v)
}

/// The version `v` of `pkg` is installed in the folder of one of these projects.
pub open spec fn in_projects(
    author: Seq<char>,
    dirs: Seq<ProjectDirView>,
    pkg: NameView,
    v: Version,
) -> bool {
    exists|i: int|
        0 <= i < dirs.len() && package_in(author, #[trigger] dirs[i]) == Some(pkg) && in_versions(
            dirs[i].versions,
            v,
        )
}

/// The version `v` of `pkg` is installed in the folder of one of these authors.
pub open spec fn in_authors(dirs: Seq<AuthorDirView>, pkg: NameView, v: Version) -> bool {
    exists|i: int|
        0 <= i < dirs.len() && (#[trigger] dirs[i]).is_dir && in_projects(
            dirs[i].name,
            dirs[i].projects,
            pkg,
            v,
        )
}

/// The version `v` of `pkg` is installed in one of these folders of packages.
pub open spec fn in_folders(folders: Seq<Seq<AuthorDirView>>, pkg: NameView, v: Version) -> bool {
    exists|i: int| 0 <= i < folders.len() && in_authors(#[trigger] folders[i], pkg, v)
}

/// Finds the versions that are installed in the folders of packages, one folder
/// for each version of Elm. Each version is listed once.
pub fn installed_versions(folders: &Vec<Vec<AuthorDir>>) -> (found: VersionTable)
    ensures
        found@ == scan(folders.deep_view()),
{
    let mut found: VersionTable = VersionTable::new();
    let ghost all = folders.deep_view();
    let mut i: usize = 0;
    while i < folders.len()
        invariant
            i <= folders.len(),
            all == folders.deep_view(),
            found@ == scan(all.take(i as int)),
        decreases folders.len() - i,
    {
        assert(all.take(i + 1).drop_last() =~= all.take(i as int));
        add_authors(&mut found, &folders[i]);
        i = i + 1;
    }
    assert(all.take(folders.len() as int) =~= all);
    found
}

fn add_authors(found: &mut VersionTable, dirs: &Vec<AuthorDir>)
    ensures
        final(found)@ == scan_authors(old(found)@, dirs.deep_view()),
{
    let ghost start = found@;
    let ghost all = dirs.deep_view();
    let mut i: usize = 0;
    while i < dirs.len()
        invariant
            i <= dirs.len(),
            all == dirs.deep_view(),
            found@ == scan_authors(start, all.take(i as int)),
        decreases dirs.len() - i,
    {
        assert(all.take(i + 1).drop_last() =~= all.take(i as int));
        let dir: &AuthorDir = &dirs[i];
        if dir.is_dir {
            add_projects(found, dir.name.as_str(), &dir.projects);
        }
        i = i + 1;
    }
    assert(all.take(dirs.len() as int) =~= all);
}

fn add_projects(found: &mut VersionTable, author: &str, dirs: &Vec<ProjectDir>)
    ensures
        final(found)@ == scan_projects(old(found)@, author@, dirs.deep_view()),
{
    let ghost start = found@;
    let ghost all = dirs.deep_view();
    let mut i: usize = 0;
    while i < dirs.len()
        invariant
            i <= dirs.len(),
            all == dirs.deep_view(),
            found@ == scan_projects(start, author@, all.take(i as int)),
        decreases dirs.len() - i,
    {
        assert(all.take(i + 1).drop_last() =~= all.take(i as int));
        let dir: &ProjectDir = &dirs[i];
        if dir.is_dir {
            if let Some(pkg) = Name::new(author, dir.name.as_str()) {
                add_versions(found, &pkg, &dir.versions);
            }
        }
        i = i + 1;
    }
    assert(all.take(dirs.len() as int) =~= all);
}

fn add_versions(found: &mut VersionTable, pkg: &Name, dirs: &Vec<VersionDir>)
    ensures
        final(found)@ == scan_versions(old(found)@, pkg@, dirs.deep_view()),
{
    let ghost start = found@;
    let ghost all = dirs.deep_view();
    let mut i: usize = 0;
    while i < dirs.len()
        invariant
            i <= dirs.len(),
            all == dirs.deep_view(),
            found@ == scan_versions(start, pkg@, all.take(i as int)),
        decreases dirs.len() - i,
    {
        assert(all.take(i + 1).drop_last() =~= all.take(i as int));
        let dir: &VersionDir = &dirs[i];
        if dir.is_dir && dir.has_elm_json {
            if let Some(version) = Version::parse(dir.name.as_str()) {
                let mut one: Vec<Version> = Vec::new();
                one.push(version);
                assert(one@ =~= seq![version]);
                versions::add_new(found, pkg, &one);
            }
        }
        i = i + 1;
    }
    assert(all.take(dirs.len() as int) =~= all);
}

/// Every package that is listed has a version, and no version twice.
pub open spec fn listed_once(found: VersionMap) -> bool {
    forall|pkg: NameView| #[trigger]
        found.contains_key(pkg) ==> found[pkg].len() > 0 && found[pkg].no_duplicates()
}

/// What is found is what is installed: a version of a package is listed exactly
/// when it has a folder with an `elm.json` in it.
pub proof fn lemma_scan_finds_what_is_installed(
    folders: Seq<Seq<AuthorDirView>>,
    pkg: NameView,
    v: Version,
)
    ensures
        table::list_at(scan(folders), pkg).contains(v) <==> in_folders(folders, pkg, v),
    decreases folders.len(),
{
    if folders.len() > 0 {
        let rest = folders.drop_last();
        lemma_scan_finds_what_is_installed(rest, pkg, v);
        lemma_scan_authors(scan(rest), folders.last(), pkg, v);
        if in_folders(rest, pkg, v) {
            let i = choose|i: int| 0 <= i < rest.len() && in_authors(#[trigger] rest[i], pkg, v);
            assert(in_authors(folders[i], pkg, v));
        }
        if in_authors(folders.last(), pkg, v) {
            assert(in_authors(folders[folders.len() - 1], pkg, v));
        }
        if in_folders(folders, pkg, v) {
            let i = choose|i: int|
                0 <= i < folders.len() && in_authors(#[trigger] folders[i], pkg, v);
            if i < rest.len() {
                assert(in_authors(rest[i], pkg, v));
            }
        }
    }
}

proof fn lemma_scan_authors(
    found: VersionMap,
    dirs: Seq<AuthorDirView>,
    pkg: NameView,
    v: Version,
)
    ensures
        table::list_at(scan_authors(found, dirs), pkg).contains(v) <==> table::list_at(
            found,
            pkg,
        ).contains(v) || in_authors(dirs, pkg, v),
    decreases dirs.len(),
{
    if dirs.len() > 0 {
        let rest = dirs.drop_last();
        let last = dirs.last();
        lemma_scan_authors(found, rest, pkg, v);
        lemma_scan_projects(scan_authors(found, rest), last.name, last.projects, pkg, v);
        if in_authors(rest, pkg, v) {
            let i = choose|i: int|
                0 <= i < rest.len() && (#[trigger] rest[i]).is_dir && in_projects(
                    rest[i].name,
                    rest[i].projects,
                    pkg,
                    v,
                );
            assert(dirs[i].is_dir);
        }
        if last.is_dir && in_projects(last.name, last.projects, pkg, v) {
            assert(dirs[dirs.len() - 1].is_dir);
        }
        if in_authors(dirs, pkg, v) {
            let i = choose|i: int|
                0 <= i < dirs.len() && (#[trigger] dirs[i]).is_dir && in_projects(
                    dirs[i].name,
                    dirs[i].projects,
                    pkg,
                    v,
                );
            if i < rest.len() {
                assert(rest[i].is_dir);
            }
        }
    }
}

proof fn lemma_scan_projects(
    found: VersionMap,
    author: Seq<char>,
    dirs: Seq<ProjectDirView>,
    pkg: NameView,
    v: Version,
)
    ensures
        table::list_at(scan_projects(found, author, dirs), pkg).contains(v) <==> table::list_at(
            found,
            pkg,
        ).contains(v) || in_projects(author, dirs, pkg, v),
    decreases dirs.len(),
{
    if dirs.len() > 0 {
        let rest = dirs.drop_last();
        let last = dirs.last();
        lemma_scan_projects(found, author, rest, pkg, v);
        if let Some(here) = package_in(author, last) {
            lemma_scan_versions(scan_projects(found, author, rest), here, last.versions, pkg, v);
        }
        if in_projects(author, rest, pkg, v) {
            let i = choose|i: int|
                0 <= i < rest.len() && package_in(author, #[trigger] rest[i]) == Some(pkg)
                    && in_versions(rest[i].versions, v);
            assert(package_in(author, dirs[i]) == Some(pkg));
        }
        if package_in(author, last) == Some(pkg) && in_versions(last.versions, v) {
            assert(package_in(author, dirs[dirs.len() - 1]) == Some(pkg));
        }
        if in_projects(author, dirs, pkg, v) {
            let i = choose|i: int|
                0 <= i < dirs.len() && package_in(author, #[trigger] dirs[i]) == Some(pkg)
                    && in_versions(dirs[i].versions, v);
            if i < rest.len() {
                assert(package_in(author, rest[i]) == Some(pkg));
            }
        }
    }
}

proof fn lemma_scan_versions(
    found: VersionMap,
    here: NameView,
    dirs: Seq<VersionDirView>,
    pkg: NameView,
    v: Version,
)
    ensures
        table::list_at(scan_versions(found, here, dirs), pkg).contains(v) <==> table::list_at(
            found,
            pkg,
        ).contains(v) || pkg == here && in_versions(dirs, v),
    decreases dirs.len(),
{
    if dirs.len() > 0 {
        let rest = dirs.drop_last();
        let last = dirs.last();
        lemma_scan_versions(found, here, rest, pkg, v);
        if let Some(w) = last.installed() {
            let list = table::list_at(scan_versions(found, here, rest), here);
            versions::lemma_with_new(list, seq![w]);
            assert(versions::with_new(list, seq![w]).contains(v) <==> list.contains(v)
                || seq![w].contains(v));
            assert(seq![w][0] == w);
        }
        if in_versions(rest, v) {
            let i = choose|i: int|
                0 <= i < rest.len() && (#[trigger] rest[i]).installed() == Some(v);
            assert(dirs[i].installed() == Some(v));
        }
        if last.installed() == Some(v) {
            assert(dirs[dirs.len() - 1].installed() == Some(v));
        }
        if in_versions(dirs, v) {
            let i = choose|i: int|
                0 <= i < dirs.len() && (#[trigger] dirs[i]).installed() == Some(v);
            if i < rest.len() {
                assert(rest[i].installed() == Some(v));
            }
        }
    }
}

/// No version is listed twice, also where it is installed for several versions
/// of Elm, and no package is listed without a version.
pub proof fn lemma_scan_lists_once(folders: Seq<Seq<AuthorDirView>>)
    ensures
        listed_once(scan(folders)),
    decreases folders.len(),
{
    if folders.len() > 0 {
        lemma_scan_lists_once(folders.drop_last());
        lemma_authors_listed_once(scan(folders.drop_last()), folders.last());
    }
}

proof fn lemma_authors_listed_once(found: VersionMap, dirs: Seq<AuthorDirView>)
    requires
        listed_once(found),
    ensures
        listed_once(scan_authors(found, dirs)),
    decreases dirs.len(),
{
    if dirs.len() > 0 {
        lemma_authors_listed_once(found, dirs.drop_last());
        lemma_projects_listed_once(
            scan_authors(found, dirs.drop_last()),
            dirs.last().name,
            dirs.last().projects,
        );
    }
}

proof fn lemma_projects_listed_once(
    found: VersionMap,
    author: Seq<char>,
    dirs: Seq<ProjectDirView>,
)
    requires
        listed_once(found),
    ensures
        listed_once(scan_projects(found, author, dirs)),
    decreases dirs.len(),
{
    if dirs.len() > 0 {
        lemma_projects_listed_once(found, author, dirs.drop_last());
        if let Some(pkg) = package_in(author, dirs.last()) {
            lemma_versions_listed_once(
                scan_projects(found, author, dirs.drop_last()),
                pkg,
                dirs.last().versions,
            );
        }
    }
}

proof fn lemma_versions_listed_once(found: VersionMap, pkg: NameView, dirs: Seq<VersionDirView>)
    requires
        listed_once(found),
    ensures
        listed_once(scan_versions(found, pkg, dirs)),
    decreases dirs.len(),
{
    if dirs.len() > 0 {
        let before = scan_versions(found, pkg, dirs.drop_last());
        lemma_versions_listed_once(found, pkg, dirs.drop_last());
        if let Some(v) = dirs.last().installed() {
            let list = table::list_at(before, pkg);
            let now = versions::with_new(list, seq![v]);
            versions::lemma_with_new(list, seq![v]);
            assert(seq![v][0] == v);
            assert(now.contains(v));
            assert(list.no_duplicates());
        }
    }
}

/// A version of a package is found exactly when one of the folders has, one in
/// the other, a folder called like its author, one called like its project, and
/// one whose name is the version, with an `elm.json` in it.
pub proof fn lemma_found_where_it_is_installed(
    folders: Seq<Seq<AuthorDirView>>,
    pkg: NameView,
    v: Version,
)
    ensures
        scan(folders).contains_key(pkg) && scan(folders)[pkg].contains(v) <==> {
            &&& pkg.author.len() > 0 && !pkg.author.contains('/')
            &&& pkg.project.len() > 0 && !pkg.project.contains('/')
            &&& exists|f: int, a: int, p: int, d: int|
                0 <= f < folders.len() && 0 <= a < folders[f].len() && 0 <= p
                    < folders[f][a].projects.len() && 0 <= d
                    < folders[f][a].projects[p].versions.len() && folders[f][a].is_dir
                    && folders[f][a].name == pkg.author && folders[f][a].projects[p].is_dir
                    && folders[f][a].projects[p].name == pkg.project
                    && folders[f][a].projects[p].versions[d].is_dir
                    && folders[f][a].projects[p].versions[d].has_elm_json && Version::read(
                    (#[trigger] folders[f][a].projects[p].versions[d]).name,
                ) == Some(v)
        },
{
    lemma_scan_finds_what_is_installed(folders, pkg, v);
    if in_folders(folders, pkg, v) {
        let f = choose|f: int| 0 <= f < folders.len() && in_authors(#[trigger] folders[f], pkg, v);
        let authors = folders[f];
        let a = choose|a: int|
            0 <= a < authors.len() && (#[trigger] authors[a]).is_dir && in_projects(
                authors[a].name,
                authors[a].projects,
                pkg,
                v,
            );
        let author = authors[a];
        let p = choose|p: int|
            0 <= p < author.projects.len() && package_in(
                author.name,
                #[trigger] author.projects[p],
            ) == Some(pkg) && in_versions(author.projects[p].versions, v);
        let project = author.projects[p];
        let d = choose|d: int|
            0 <= d < project.versions.len() && (#[trigger] project.versions[d]).installed()
                == Some(v);
        assert(Version::read(folders[f][a].projects[p].versions[d].name) == Some(v));
    }
    if name::valid_part(pkg.author) && name::valid_part(pkg.project) && exists|
        f: int,
        a: int,
        p: int,
        d: int,
    |
        0 <= f < folders.len() && 0 <= a < folders[f].len() && 0 <= p
            < folders[f][a].projects.len() && 0 <= d < folders[f][a].projects[p].versions.len()
            && folders[f][a].is_dir && folders[f][a].name == pkg.author
            && folders[f][a].projects[p].is_dir && folders[f][a].projects[p].name == pkg.project
            && folders[f][a].projects[p].versions[d].is_dir
            && folders[f][a].projects[p].versions[d].has_elm_json && Version::read(
            (#[trigger] folders[f][a].projects[p].versions[d]).name,
        ) == Some(v) {
        let (f, a, p, d) = choose|f: int, a: int, p: int, d: int|
            0 <= f < folders.len() && 0 <= a < folders[f].len() && 0 <= p
                < folders[f][a].projects.len() && 0 <= d
                < folders[f][a].projects[p].versions.len() && folders[f][a].is_dir
                && folders[f][a].name == pkg.author && folders[f][a].projects[p].is_dir
                && folders[f][a].projects[p].name == pkg.project
                && folders[f][a].projects[p].versions[d].is_dir
                && folders[f][a].projects[p].versions[d].has_elm_json && Version::read(
                (#[trigger] folders[f][a].projects[p].versions[d]).name,
            ) == Some(v);
        let project = folders[f][a].projects[p];
        assert(project.versions[d].installed() == Some(v));
        assert(package_in(folders[f][a].name, folders[f][a].projects[p]) == Some(pkg));
        assert(in_projects(folders[f][a].name, folders[f][a].projects, pkg, v));
        assert(in_authors(folders[f], pkg, v));
    }
}

/// A package that is found has a version, and no version of it is found twice.
pub proof fn lemma_found_once(folders: Seq<Seq<AuthorDirView>>, pkg: NameView, i: int, j: int)
    requires
        scan(folders).contains_key(pkg),
    ensures
        scan(folders)[pkg].len() > 0,
        0 <= i < j < scan(folders)[pkg].len() ==> scan(folders)[pkg][i] != scan(folders)[pkg][j],
{
    lemma_scan_lists_once(folders);
}

/// A folder stands for its name and for what is in it, all of it and in order.
pub proof fn lemma_folder_stands_for_what_is_in_it(
    author: AuthorDir,
    project: ProjectDir,
    version: VersionDir,
)
    ensures
        author.deep_view().name == author.name@,
        author.deep_view().is_dir == author.is_dir,
        author.deep_view().projects.len() == author.projects@.len(),
        forall|i: int|
            0 <= i < author.projects@.len() ==> #[trigger] author.deep_view().projects[i]
                == author.projects@[i].deep_view(),
        project.deep_view().name == project.name@,
        project.deep_view().is_dir == project.is_dir,
        project.deep_view().versions.len() == project.versions@.len(),
        forall|i: int|
            0 <= i < project.versions@.len() ==> #[trigger] project.deep_view().versions[i]
                == project.versions@[i].deep_view(),
        version.deep_view().name == version.name@,
        version.deep_view().is_dir == version.is_dir,
        version.deep_view().has_elm_json == version.has_elm_json,
{
}

/// A further folder of packages adds versions at the end: what was found before
/// it stays in front.
pub proof fn lemma_further_folder_adds_at_the_end(
    folders: Seq<Seq<AuthorDirView>>,
    more: Seq<AuthorDirView>,
    pkg: NameView,
)
    requires
        scan(folders).contains_key(pkg),
    ensures
        scan(folders.push(more)).contains_key(pkg),
        scan(folders)[pkg].is_prefix_of(scan(folders.push(more))[pkg]),
{
    assert(folders.push(more).drop_last() =~= folders);
    lemma_authors_keep(scan(folders), more, pkg);
}

proof fn lemma_authors_keep(found: VersionMap, dirs: Seq<AuthorDirView>, pkg: NameView)
    requires
        found.contains_key(pkg),
    ensures
        scan_authors(found, dirs).contains_key(pkg),
        found[pkg].is_prefix_of(scan_authors(found, dirs)[pkg]),
    decreases dirs.len(),
{
    if dirs.len() > 0 {
        let before = scan_authors(found, dirs.drop_last());
        lemma_authors_keep(found, dirs.drop_last(), pkg);
        lemma_projects_keep(before, dirs.last().name, dirs.last().projects, pkg);
    }
}

proof fn lemma_projects_keep(
    found: VersionMap,
    author: Seq<char>,
    dirs: Seq<ProjectDirView>,
    pkg: NameView,
)
    requires
        found.contains_key(pkg),
    ensures
        scan_projects(found, author, dirs).contains_key(pkg),
        found[pkg].is_prefix_of(scan_projects(found, author, dirs)[pkg]),
    decreases dirs.len(),
{
    if dirs.len() > 0 {
        let before = scan_projects(found, author, dirs.drop_last());
        lemma_projects_keep(found, author, dirs.drop_last(), pkg);
        if let Some(here) = package_in(author, dirs.last()) {
            lemma_versions_keep(before, here, dirs.last().versions, pkg);
        }
    }
}

proof fn lemma_versions_keep(
    found: VersionMap,
    here: NameView,
    dirs: Seq<VersionDirView>,
    pkg: NameView,
)
    requires
        found.contains_key(pkg),
    ensures
        scan_versions(found, here, dirs).contains_key(pkg),
        found[pkg].is_prefix_of(scan_versions(found, here, dirs)[pkg]),
    decreases dirs.len(),
{
    if dirs.len() > 0 {
        let before = scan_versions(found, here, dirs.drop_last());
        lemma_versions_keep(found, here, dirs.drop_last(), pkg);
        if let Some(v) = dirs.last().installed() {
            versions::lemma_with_new(table::list_at(before, here), seq![v]);
        }
    }
}

} // verus!
