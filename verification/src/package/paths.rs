//! Where things are kept, on this machine and on the package site.

use crate::package::id::{PackageId, PackageIdView};
use crate::package::name;
use crate::semver::version::{self, Version};
use crate::solver::summary::{Summary, SummaryView};
use crate::text;
use vstd::prelude::*;

verus! {

/// The folder that packages are kept in: a folder of the system, or one in it.
pub struct PackagesPath<P> {
    pub base: P,
    pub folder: Option<String>,
}

/// Why the folder that packages are kept in cannot be found.
#[derive(Clone, Copy, PartialEq, Eq, Debug, Structural)]
pub enum PathError {
    NoConfigDir,
    NoHomeDir,
}

impl PathError {
    pub open spec fn text(self) -> Seq<char> {
        match self {
            PathError::NoConfigDir => "No config directory found?"@,
            PathError::NoHomeDir => "No home directory found?"@,
        }
    }

    /// What to tell the user.
    pub fn message(&self) -> (r: String)
        ensures
            r@ == self.text(),
    {
        match self {
            PathError::NoConfigDir => "No config directory found?".to_owned(),
            PathError::NoHomeDir => "No home directory found?".to_owned(),
        }
    }
}

/// The folder that packages are kept in: `elm_home` where it is set; otherwise
/// `elm` in the folder for settings on Windows, and `.elm` in the home folder
/// elsewhere.
pub fn packages_path<P>(
    elm_home: Option<P>,
    windows: bool,
    config_dir: Option<P>,
    home_dir: Option<P>,
) -> (r: Result<PackagesPath<P>, PathError>)
    ensures
        match (elm_home, windows, config_dir, home_dir) {
            (Some(home), _, _, _) => r matches Ok(path) && path.base == home && path.folder is None,
            (None, true, Some(config), _) => r matches Ok(path) && path.base == config && (
            path.folder matches Some(folder) && folder@ == "elm"@),
            (None, true, None, _) => r == Err::<PackagesPath<P>, _>(PathError::NoConfigDir),
            (None, false, _, Some(home)) => r matches Ok(path) && path.base == home && (
            path.folder matches Some(folder) && folder@ == ".elm"@),
            (None, false, _, None) => r == Err::<PackagesPath<P>, _>(PathError::NoHomeDir),
        },
{
    match elm_home {
        Some(base) => Ok(PackagesPath { base, folder: None }),
        None => if windows {
            match config_dir {
                Some(base) => Ok(PackagesPath { base, folder: Some("elm".to_owned()) }),
                None => Err(PathError::NoConfigDir),
            }
        } else {
            match home_dir {
                Some(base) => Ok(PackagesPath { base, folder: Some(".elm".to_owned()) }),
                None => Err(PathError::NoHomeDir),
            }
        },
    }
}

/// The folder, in the one for packages, and the file in it that keep the
/// versions that are known.
pub fn cache_file() -> (r: (String, String))
    ensures
        r.0@ == "elm-json"@,
        r.1@ == "versions.dat"@,
{
    ("elm-json".to_owned(), "versions.dat".to_owned())
}

/// The folders, one inside the other and all in the one for packages, that hold
/// what is installed for each version of Elm.
pub fn local_folders() -> (r: Vec<(String, String)>)
    ensures
        r.deep_view() == seq![("0.19.0"@, "packages"@), ("0.19.1"@, "packages"@)],
{
    let mut r: Vec<(String, String)> = Vec::new();
    r.push(("0.19.0".to_owned(), "packages".to_owned()));
    r.push(("0.19.1".to_owned(), "packages".to_owned()));
    assert(r.deep_view() =~= seq![("0.19.0"@, "packages"@), ("0.19.1"@, "packages"@)]);
    r
}

/// How paths and addresses name the `elm.json` of a version of a package.
pub open spec fn file_of(pkg: SummaryView<PackageIdView>) -> Seq<char> {
    pkg.id.text() + "/"@ + pkg.version.text() + "/elm.json"@
}

/// Where the `elm.json` of a package is kept once it was downloaded.
pub open spec fn cached_path(pkg: SummaryView<PackageIdView>) -> Seq<char> {
    "elm-json/packages/"@ + file_of(pkg)
}

/// Where Elm keeps the `elm.json` of a package that it installed.
pub open spec fn stored_path(
    elm_version: Seq<char>,
    extra: Seq<char>,
    pkg: SummaryView<PackageIdView>,
) -> Seq<char> {
    elm_version + "/package"@ + extra + "/"@ + file_of(pkg)
}

/// The address of the `elm.json` of a package.
pub open spec fn deps_address(pkg: SummaryView<PackageIdView>) -> Seq<char> {
    "https://package.elm-lang.org/packages/"@ + file_of(pkg)
}

fn file_text(pkg: &Summary<PackageId>) -> (r: String)
    ensures
        r@ == file_of(pkg.deep_view()),
{
    let mut r: String = pkg.id.to_text();
    r.append("/");
    r.append(pkg.version.to_text().as_str());
    r.append("/elm.json");
    r
}

/// Where the `elm.json` of a package is kept once it was downloaded, in the
/// folder for packages.
pub fn cached_json_path(pkg: &Summary<PackageId>) -> (r: String)
    ensures
        r@ == cached_path(pkg.deep_view()),
{
    "elm-json/packages/".to_owned().concat(file_text(pkg).as_str())
}

/// Where Elm keeps the `elm.json` of a package that it installed, in the folder
/// for packages.
pub fn stored_json_path(elm_version: &str, extra: &str, pkg: &Summary<PackageId>) -> (r: String)
    ensures
        r@ == stored_path(elm_version@, extra@, pkg.deep_view()),
{
    let mut r: String = elm_version.to_owned();
    r.append("/package");
    r.append(extra);
    r.append("/");
    r.append(file_text(pkg).as_str());
    r
}

/// The address of the `elm.json` of a package.
pub fn deps_url(pkg: &Summary<PackageId>) -> (r: String)
    ensures
        r@ == deps_address(pkg.deep_view()),
{
    "https://package.elm-lang.org/packages/".to_owned().concat(file_text(pkg).as_str())
}

/// The text of an id tells it from every other id.
pub proof fn lemma_id_text_is_unique(a: PackageIdView, b: PackageIdView)
    requires
        a.valid(),
        b.valid(),
        a.text() == b.text(),
    ensures
        a == b,
{
    reveal_strlit("root");
    reveal_strlit("Elm");
    assert("root"@.len() != "Elm"@.len());
    text::lemma_single_piece("root"@, '/');
    text::lemma_single_piece("Elm"@, '/');
    if let PackageIdView::Pkg(name) = a {
        name::lemma_name_text_reads_back(name);
    }
    if let PackageIdView::Pkg(name) = b {
        name::lemma_name_text_reads_back(name);
    }
}

/// No two versions of packages share a downloaded file.
pub proof fn lemma_cached_path_is_unique(
    a: SummaryView<PackageIdView>,
    b: SummaryView<PackageIdView>,
)
    requires
        a.id.valid(),
        b.id.valid(),
        cached_path(a) == cached_path(b),
    ensures
        a == b,
{
    let front = "elm-json/packages/"@;
    assert(file_of(a) =~= cached_path(a).skip(front.len() as int));
    assert(file_of(b) =~= cached_path(b).skip(front.len() as int));
    lemma_file_is_unique(a, b);
}

/// No two versions of packages share an address on the package site.
pub proof fn lemma_deps_address_is_unique(
    a: SummaryView<PackageIdView>,
    b: SummaryView<PackageIdView>,
)
    requires
        a.id.valid(),
        b.id.valid(),
        deps_address(a) == deps_address(b),
    ensures
        a == b,
{
    let front = "https://package.elm-lang.org/packages/"@;
    assert(file_of(a) =~= deps_address(a).skip(front.len() as int));
    assert(file_of(b) =~= deps_address(b).skip(front.len() as int));
    lemma_file_is_unique(a, b);
}

proof fn lemma_file_is_unique(a: SummaryView<PackageIdView>, b: SummaryView<PackageIdView>)
    requires
        a.id.valid(),
        b.id.valid(),
        file_of(a) == file_of(b),
    ensures
        a == b,
{
    reveal_strlit("/");
    assert("/"@ =~= seq!['/']);
    let end = "/elm.json"@;
    let short_a = a.id.text().push('/') + a.version.text();
    let short_b = b.id.text().push('/') + b.version.text();
    assert(short_a =~= file_of(a).take(file_of(a).len() - end.len()));
    assert(short_b =~= file_of(b).take(file_of(b).len() - end.len()));
    lemma_no_slash(a.version);
    lemma_no_slash(b.version);
    text::lemma_last_piece(a.id.text(), a.version.text(), '/');
    text::lemma_last_piece(b.id.text(), b.version.text(), '/');
    let parts_a = text::pieces(a.id.text(), '/');
    let parts_b = text::pieces(b.id.text(), '/');
    assert(parts_a.push(a.version.text()).last() == parts_b.push(b.version.text()).last());
    version::lemma_version_text_reads_back(a.version);
    version::lemma_version_text_reads_back(b.version);
    assert(a.id.text() =~= short_a.take(short_a.len() - a.version.text().len() - 1));
    assert(b.id.text() =~= short_b.take(short_b.len() - b.version.text().len() - 1));
    lemma_id_text_is_unique(a.id, b.id);
}

proof fn lemma_no_slash(v: Version)
    ensures
        !v.text().contains('/'),
{
    assert forall|i: int| 0 <= i < v.text().len() implies v.text()[i] != '/' by {
        version::lemma_version_text_characters(v, i);
    }
}

/// Where the `elm.json` of a version of a package is: below the folder of its
/// author, that of its project and that of its version.
pub proof fn lemma_paths_of_package(pkg: SummaryView<PackageIdView>)
    requires
        pkg.id is Pkg,
    ensures
        ({
            let name = pkg.id->Pkg_0;
            let end = name.author + "/"@ + name.project + "/"@ + pkg.version.text() + "/elm.json"@;
            &&& cached_path(pkg) == "elm-json/packages/"@ + end
            &&& stored_path("0.19.0"@, ""@, pkg) == "0.19.0/package/"@ + end
            &&& stored_path("0.19.1"@, "s"@, pkg) == "0.19.1/packages/"@ + end
            &&& deps_address(pkg) == "https://package.elm-lang.org/packages/"@ + end
        }),
{
    let name = pkg.id->Pkg_0;
    let end = name.author + "/"@ + name.project + "/"@ + pkg.version.text() + "/elm.json"@;
    reveal_strlit("/");
    assert("/"@ =~= seq!['/']);
    assert(pkg.id.text() =~= name.author + "/"@ + name.project);
    lemma_paths_of_anything(pkg);
    assert(cached_path(pkg) =~= "elm-json/packages/"@ + end);
    assert(stored_path("0.19.0"@, ""@, pkg) =~= "0.19.0/package/"@ + end);
    assert(stored_path("0.19.1"@, "s"@, pkg) =~= "0.19.1/packages/"@ + end);
    assert(deps_address(pkg) =~= "https://package.elm-lang.org/packages/"@ + end);
}

/// Where the `elm.json` of anything is: below the folder that is called as it is
/// written, and that of its version.
pub proof fn lemma_paths_of_anything(pkg: SummaryView<PackageIdView>)
    ensures
        ({
            let end = pkg.id.text() + "/"@ + pkg.version.text() + "/elm.json"@;
            &&& cached_path(pkg) == "elm-json/packages/"@ + end
            &&& stored_path("0.19.0"@, ""@, pkg) == "0.19.0/package/"@ + end
            &&& stored_path("0.19.1"@, "s"@, pkg) == "0.19.1/packages/"@ + end
            &&& deps_address(pkg) == "https://package.elm-lang.org/packages/"@ + end
        }),
{
    reveal_strlit("");
    reveal_strlit("s");
    reveal_strlit("/");
    reveal_strlit("/package");
    reveal_strlit("0.19.0");
    reveal_strlit("0.19.1");
    reveal_strlit("0.19.0/package/");
    reveal_strlit("0.19.1/packages/");
    let end = pkg.id.text() + "/"@ + pkg.version.text() + "/elm.json"@;
    assert("0.19.0"@ + "/package"@ + ""@ + "/"@ =~= "0.19.0/package/"@);
    assert("0.19.1"@ + "/package"@ + "s"@ + "/"@ =~= "0.19.1/packages/"@);
    assert(cached_path(pkg) =~= "elm-json/packages/"@ + end);
    assert(stored_path("0.19.0"@, ""@, pkg) =~= "0.19.0/package/"@ + end);
    assert(stored_path("0.19.1"@, "s"@, pkg) =~= "0.19.1/packages/"@ + end);
    assert(deps_address(pkg) =~= "https://package.elm-lang.org/packages/"@ + end);
}

/// A path of a file that Elm installed starts with the version of Elm, and ends
/// like the path of the downloaded file.
pub proof fn lemma_stored_path_parts(
    elm_version: Seq<char>,
    extra: Seq<char>,
    pkg: SummaryView<PackageIdView>,
)
    ensures
        stored_path(elm_version, extra, pkg) == elm_version + "/package"@ + extra + "/"@
            + pkg.id.text() + "/"@ + pkg.version.text() + "/elm.json"@,
{
    assert(stored_path(elm_version, extra, pkg) =~= elm_version + "/package"@ + extra + "/"@
        + pkg.id.text() + "/"@ + pkg.version.text() + "/elm.json"@);
}

/// What the user is told where there is no folder for packages.
pub proof fn lemma_path_error_texts()
    ensures
        PathError::NoConfigDir.text() == "No config directory found?"@,
        PathError::NoHomeDir.text() == "No home directory found?"@,
{
}

/// The folder for packages is the one that is set. Where none is, it is `elm` in
/// the folder for settings on Windows, and `.elm` in the home folder elsewhere; the
/// other one of these does not matter.
pub proof fn lemma_packages_path<P>(
    elm_home: Option<P>,
    windows: bool,
    config_dir: Option<P>,
    home_dir: Option<P>,
    r: Result<PackagesPath<P>, PathError>,
)
    requires
        call_ensures(packages_path::<P>, (elm_home, windows, config_dir, home_dir), r),
    ensures
        elm_home matches Some(home) ==> (r matches Ok(path) && path.base == home
            && path.folder is None),
        elm_home is None ==> {
            let base = if windows {
                config_dir
            } else {
                home_dir
            };
            &&& r is Ok <==> base is Some
            &&& r matches Ok(path) ==> Some(path.base) == base && (path.folder matches Some(folder)
                && folder@ == (if windows {
                "elm"@
            } else {
                ".elm"@
            }))
            &&& r matches Err(e) ==> (e is NoConfigDir <==> windows)
        },
{
}

/// The versions that are known are kept in `elm-json/versions.dat`.
pub proof fn lemma_cache_file(r: (String, String))
    requires
        call_ensures(cache_file, (), r),
    ensures
        r.0@ + "/"@ + r.1@ == "elm-json/versions.dat"@,
{
    reveal_strlit("/");
    reveal_strlit("elm-json");
    reveal_strlit("versions.dat");
    reveal_strlit("elm-json/versions.dat");
    assert(r.0@ + "/"@ + r.1@ =~= "elm-json/versions.dat"@);
}

/// What is installed is looked for in `0.19.0/packages`, and then in
/// `0.19.1/packages`.
pub proof fn lemma_local_folders(r: Vec<(String, String)>)
    requires
        call_ensures(local_folders, (), r),
    ensures
        r@.len() == 2,
        r@[0].0@ == "0.19.0"@,
        r@[0].1@ == "packages"@,
        r@[1].0@ == "0.19.1"@,
        r@[1].1@ == "packages"@,
{
    assert(r.deep_view().len() == r@.len());
    assert(r.deep_view()[0] == (r@[0].0@, r@[0].1@));
    assert(r.deep_view()[1] == (r@[1].0@, r@[1].1@));
}

} // verus!
