//! The list of versions that the package site keeps.

use crate::package::name::{self, Name, NameView};
use crate::package::versions::{VersionMap, VersionTable};
use crate::semver::version::{self, Version};
use crate::table;
use crate::text;
use vstd::prelude::*;

verus! {

/// Why an entry of an answer cannot be used.
#[derive(PartialEq, Eq, Debug)]
pub enum EntryError {
    /// This entry is not made of two parts, separated by `@`.
    InvalidEntry(String),
    /// This part of an entry is not the name of a package.
    InvalidName(String),
    /// This part of an entry is not a version.
    InvalidVersion(String),
}

/// What an `EntryError` stands for.
pub enum EntryErrorView {
    InvalidEntry(Seq<char>),
    InvalidName(Seq<char>),
    InvalidVersion(Seq<char>),
}

impl View for EntryError {
    type V = EntryErrorView;

    open spec fn view(&self) -> EntryErrorView {
        match self {
            EntryError::InvalidEntry(s) => EntryErrorView::InvalidEntry(s@),
            EntryError::InvalidName(s) => EntryErrorView::InvalidName(s@),
            EntryError::InvalidVersion(s) => EntryErrorView::InvalidVersion(s@),
        }
    }
}

impl EntryErrorView {
    pub open spec fn text(self) -> Seq<char> {
        match self {
            EntryErrorView::InvalidEntry(s) => "Invalid entry: "@ + s,
            EntryErrorView::InvalidName(s) => "Invalid package name: "@ + s,
            EntryErrorView::InvalidVersion(s) => "Invalid version: "@ + s,
        }
    }
}

impl EntryError {
    /// What to tell the user.
    pub fn message(&self) -> (r: String)
        ensures
            r@ == self@.text(),
    {
        match self {
            EntryError::InvalidEntry(s) => "Invalid entry: ".to_owned().concat(s.as_str()),
            EntryError::InvalidName(s) => "Invalid package name: ".to_owned().concat(s.as_str()),
            EntryError::InvalidVersion(s) => "Invalid version: ".to_owned().concat(s.as_str()),
        }
    }
}

/// The error of the JSON reader.
#[verifier::external_type_specification]
#[verifier::external_body]
pub struct ExJsonError(serde_json::Error);

/// Why an answer of the package site cannot be used.
#[derive(Debug)]
pub enum RemoteError {
    /// It is not a JSON list of strings. This is what the JSON reader says of it.
    Json(serde_json::Error),
    /// One of its entries cannot be used.
    Entry(EntryError),
}

/// The list of strings that `text` holds as JSON, where it holds one.
pub uninterp spec fn json_strings(text: Seq<char>) -> Option<Seq<Seq<char>>>;

/// Reads a JSON list of strings with `serde_json::from_str`. What it gives back
/// is fixed by the text alone: the strings of the list in their order, or an
/// error where the text is not a JSON list of strings. How JSON is written is
/// left to `serde_json`, and so is what the error says.
#[verifier::external_body]
fn parse_json_strings(text: &str) -> (r: Result<Vec<String>, serde_json::Error>)
    ensures
        r matches Ok(list) ==> json_strings(text@) == Some(list.deep_view()),
        r is Err ==> json_strings(text@) is None,
{
    serde_json::from_str(text)
}

/// The package and the version that one entry, such as `elm/core@1.0.0`, names.
pub open spec fn entry_of(entry: Seq<char>) -> Result<(NameView, Version), EntryErrorView> {
    let parts = text::pieces(entry, '@');
    if parts.len() != 2 {
        Err(EntryErrorView::InvalidEntry(entry))
    } else {
        match NameView::read(parts[0]) {
            None => Err(EntryErrorView::InvalidName(parts[0])),
            Some(name) => match Version::read(parts[1]) {
                None => Err(EntryErrorView::InvalidVersion(parts[1])),
                Some(version) => Ok((name, version)),
            },
        }
    }
}

/// The versions that the entries name, listed for each package in the order of
/// the entries; or what is wrong with the first entry that cannot be read.
pub open spec fn versions_of(entries: Seq<Seq<char>>) -> Result<VersionMap, EntryErrorView>
    decreases entries.len(),
{
    if entries.len() == 0 {
        Ok(Map::empty())
    } else {
        match versions_of(entries.drop_last()) {
            Err(e) => Err(e),
            Ok(before) => match entry_of(entries.last()) {
                Err(e) => Err(e),
                Ok((name, version)) => Ok(
                    before.insert(name, table::list_at(before, name).push(version)),
                ),
            },
        }
    }
}

/// The address of the list of versions, without the first `from` of them.
pub fn versions_url(from: usize) -> (url: String)
    ensures
        url@ == "https://package.elm-lang.org/all-packages/since/"@ + text::decimal(from as nat),
{
    let start: String = "https://package.elm-lang.org/all-packages/since/".to_owned();
    start.concat(text::decimal_text(from as u64).as_str())
}

/// Reads one entry, such as `elm/core@1.0.0`.
pub fn read_entry(entry: &String) -> (r: Result<(Name, Version), EntryError>)
    ensures
        match r {
            Ok((name, version)) => entry_of(entry@) == Ok::<_, EntryErrorView>((name@, version)),
            Err(e) => entry_of(entry@) == Err::<(NameView, Version), _>(e@),
        },
{
    let parts: Vec<String> = text::split(entry.as_str(), '@');
    assert(parts.deep_view().len() == parts.len());
    if parts.len() != 2 {
        return Err(EntryError::InvalidEntry(entry.clone()));
    }
    assert(parts.deep_view()[0] == parts[0]@);
    assert(parts.deep_view()[1] == parts[1]@);
    match Name::parse(parts[0].as_str()) {
        None => Err(EntryError::InvalidName(parts[0].clone())),
        Some(name) => match Version::parse(parts[1].as_str()) {
            None => Err(EntryError::InvalidVersion(parts[1].clone())),
            Some(version) => Ok((name, version)),
        },
    }
}

/// Reads the entries of an answer.
pub fn read_entries(entries: &Vec<String>) -> (r: Result<VersionTable, EntryError>)
    ensures
        match r {
            Ok(versions) => versions_of(entries.deep_view()) == Ok::<_, EntryErrorView>(versions@),
            Err(e) => versions_of(entries.deep_view()) == Err::<VersionMap, _>(e@),
        },
{
    let mut versions: VersionTable = VersionTable::new();
    let ghost all = entries.deep_view();
    let mut i: usize = 0;
    while i < entries.len()
        invariant
            i <= entries.len(),
            all == entries.deep_view(),
            versions_of(all.take(i as int)) == Ok::<_, EntryErrorView>(versions@),
        decreases entries.len() - i,
    {
        proof {
            assert(all.take(i + 1).drop_last() =~= all.take(i as int));
            assert(all.take(i + 1).last() == entries[i as int]@);
        }
        match read_entry(&entries[i]) {
            Ok((name, version)) => {
                versions.push_to(name, version);
            },
            Err(e) => {
                proof {
                    lemma_first_error(all, i + 1);
                }
                return Err(e);
            },
        }
        i = i + 1;
    }
    assert(all.take(entries.len() as int) =~= all);
    Ok(versions)
}

/// Reads the list of an answer. Where there is none, the error of the JSON
/// reader is passed on.
pub fn read_list(list: Result<Vec<String>, serde_json::Error>) -> (r: Result<
    VersionTable,
    RemoteError,
>)
    ensures
        match list {
            Err(e) => r == Err::<VersionTable, _>(RemoteError::Json(e)),
            Ok(entries) => match r {
                Ok(versions) => versions_of(entries.deep_view()) == Ok::<_, EntryErrorView>(
                    versions@,
                ),
                Err(RemoteError::Entry(e)) => versions_of(entries.deep_view()) == Err::<
                    VersionMap,
                    _,
                >(e@),
                Err(RemoteError::Json(_)) => false,
            },
        },
{
    match list {
        Err(e) => Err(RemoteError::Json(e)),
        Ok(entries) => match read_entries(&entries) {
            Ok(versions) => Ok(versions),
            Err(e) => Err(RemoteError::Entry(e)),
        },
    }
}

/// Reads what the package site answered. The error of the JSON reader, where
/// there is one, is passed on as it is; what it says of the text is left to
/// `serde_json`.
pub fn read_answer(response: &str) -> (r: Result<VersionTable, RemoteError>)
    ensures
        match json_strings(response@) {
            None => r matches Err(RemoteError::Json(_)),
            Some(entries) => match r {
                Ok(versions) => versions_of(entries) == Ok::<_, EntryErrorView>(versions@),
                Err(RemoteError::Entry(e)) => versions_of(entries) == Err::<VersionMap, _>(e@),
                Err(RemoteError::Json(_)) => false,
            },
        },
{
    read_list(parse_json_strings(response))
}

/// Entries after one that cannot be read change nothing.
proof fn lemma_first_error(entries: Seq<Seq<char>>, n: int)
    requires
        0 <= n <= entries.len(),
        versions_of(entries.take(n)) is Err,
    ensures
        versions_of(entries) == versions_of(entries.take(n)),
    decreases entries.len() - n,
{
    if n < entries.len() {
        assert(entries.take(n + 1).drop_last() =~= entries.take(n));
        lemma_first_error(entries, n + 1);
    } else {
        assert(entries.take(n) =~= entries);
    }
}

/// The versions of `pkg` that the entries name, in their order.
pub open spec fn versions_named(entries: Seq<Seq<char>>, pkg: NameView) -> Seq<Version>
    decreases entries.len(),
{
    if entries.len() == 0 {
        Seq::empty()
    } else {
        let before = versions_named(entries.drop_last(), pkg);
        match entry_of(entries.last()) {
            Ok((name, version)) => if name == pkg {
                before.push(version)
            } else {
                before
            },
            Err(_) => before,
        }
    }
}

/// An answer can be read exactly when each of its entries can. It then lists
/// for each package the versions that the entries name, in their order.
pub proof fn lemma_entries_in_order(entries: Seq<Seq<char>>, pkg: NameView)
    ensures
        versions_of(entries) is Ok <==> forall|i: int|
            0 <= i < entries.len() ==> entry_of(#[trigger] entries[i]) is Ok,
        versions_of(entries) matches Ok(m) ==> table::list_at(m, pkg) == versions_named(
            entries,
            pkg,
        ),
    decreases entries.len(),
{
    if entries.len() > 0 {
        let rest = entries.drop_last();
        lemma_entries_in_order(rest, pkg);
        if versions_of(entries) is Ok {
            assert forall|i: int| 0 <= i < entries.len() implies entry_of(
                #[trigger] entries[i],
            ) is Ok by {
                if i < rest.len() {
                    assert(rest[i] == entries[i]);
                }
            }
        }
        if forall|i: int| 0 <= i < entries.len() ==> entry_of(#[trigger] entries[i]) is Ok {
            assert forall|i: int| 0 <= i < rest.len() implies entry_of(#[trigger] rest[i]) is Ok by {
                assert(rest[i] == entries[i]);
            }
            assert(entry_of(entries[entries.len() - 1]) is Ok);
        }
    }
}

/// An answer that cannot be read fails with what is wrong with the first entry
/// that cannot be read.
pub proof fn lemma_first_bad_entry_decides(entries: Seq<Seq<char>>, i: int)
    requires
        0 <= i < entries.len(),
        entry_of(entries[i]) is Err,
        forall|j: int| 0 <= j < i ==> entry_of(#[trigger] entries[j]) is Ok,
    ensures
        versions_of(entries) == Err::<VersionMap, _>(entry_of(entries[i])->Err_0),
{
    let good = entries.take(i);
    let now = entries.take(i + 1);
    assert forall|j: int| 0 <= j < good.len() implies entry_of(#[trigger] good[j]) is Ok by {
        assert(good[j] == entries[j]);
    }
    lemma_entries_in_order(good, arbitrary());
    assert(now.drop_last() =~= good);
    lemma_first_error(entries, i + 1);
}

/// Every entry that is read counts as one version.
pub proof fn lemma_total_of_entries(entries: Seq<Seq<char>>)
    ensures
        versions_of(entries) matches Ok(m) ==> m.dom().finite() && table::total_len(m)
            == entries.len(),
    decreases entries.len(),
{
    if entries.len() > 0 {
        lemma_total_of_entries(entries.drop_last());
        if let Ok(before) = versions_of(entries.drop_last()) {
            if let Ok((name, version)) = entry_of(entries.last()) {
                table::lemma_total_after_insert(
                    before,
                    name,
                    table::list_at(before, name).push(version),
                );
            }
        }
    }
}

/// Two texts with an `@` between them name the package that the first stands for,
/// in the version that the second stands for. The first of them that stands for
/// nothing is what is wrong with the entry.
pub proof fn lemma_entry_names_package_and_version(pkg: Seq<char>, version: Seq<char>)
    requires
        !pkg.contains('@'),
        !version.contains('@'),
    ensures
        match (NameView::read(pkg), Version::read(version)) {
            (Some(name), Some(v)) => entry_of(pkg + seq!['@'] + version) == Ok::<
                _,
                EntryErrorView,
            >((name, v)),
            (None, _) => entry_of(pkg + seq!['@'] + version) == Err::<(NameView, Version), _>(
                EntryErrorView::InvalidName(pkg),
            ),
            (Some(_), None) => entry_of(pkg + seq!['@'] + version) == Err::<
                (NameView, Version),
                _,
            >(EntryErrorView::InvalidVersion(version)),
        },
{
    text::lemma_single_piece(pkg, '@');
    text::lemma_last_piece(pkg, version, '@');
    assert(pkg + seq!['@'] + version =~= pkg.push('@') + version);
}

/// An entry that is not made of two texts with an `@` between them is refused as
/// a whole.
pub proof fn lemma_other_entry_is_refused(entry: Seq<char>)
    requires
        text::pieces(entry, '@').len() != 2,
    ensures
        entry_of(entry) == Err::<(NameView, Version), _>(EntryErrorView::InvalidEntry(entry)),
{
}

/// Every version of every package reads as itself, however many digits it has.
pub proof fn lemma_published_version_reads_back(name: NameView, v: Version)
    requires
        name.valid(),
        !name.text().contains('@'),
    ensures
        entry_of(name.text() + seq!['@'] + v.text()) == Ok::<_, EntryErrorView>((name, v)),
{
    name::lemma_name_text_reads_back(name);
    version::lemma_version_text_reads_back(v);
    assert forall|i: int| 0 <= i < v.text().len() implies v.text()[i] != '@' by {
        version::lemma_version_text_characters(v, i);
    }
    lemma_entry_names_package_and_version(name.text(), v.text());
}

/// One more entry adds its version at the end of the list of its package, and
/// changes no other list. An entry that cannot be read fails the answer, unless an
/// entry before it does. No entries list nothing.
pub proof fn lemma_one_more_entry(entries: Seq<Seq<char>>, entry: Seq<char>, other: NameView)
    ensures
        versions_of(Seq::empty()) == Ok::<_, EntryErrorView>(
            Map::<NameView, Seq<Version>>::empty(),
        ),
        match (versions_of(entries), entry_of(entry)) {
            (Err(e), _) => versions_of(entries.push(entry)) == Err::<VersionMap, _>(e),
            (Ok(_), Err(e)) => versions_of(entries.push(entry)) == Err::<VersionMap, _>(e),
            (Ok(before), Ok((name, v))) => versions_of(entries.push(entry)) matches Ok(after) && {
                &&& after.contains_key(name)
                &&& before.contains_key(name) ==> after[name] == before[name].push(v)
                &&& !before.contains_key(name) ==> after[name] == seq![v]
                &&& other != name ==> {
                    &&& after.contains_key(other) <==> before.contains_key(other)
                    &&& after.contains_key(other) ==> after[other] == before[other]
                }
            },
        },
{
    assert(entries.push(entry).drop_last() =~= entries);
    assert(entries.push(entry).last() == entry);
    if let Ok((name, v)) = entry_of(entry) {
        assert(Seq::<Version>::empty().push(v) =~= seq![v]);
    }
}

/// What the user is told of an entry that cannot be used.
pub proof fn lemma_entry_error_texts(s: Seq<char>)
    ensures
        EntryErrorView::InvalidEntry(s).text() == "Invalid entry: "@ + s,
        EntryErrorView::InvalidName(s).text() == "Invalid package name: "@ + s,
        EntryErrorView::InvalidVersion(s).text() == "Invalid version: "@ + s,
{
}

/// An error stands for its kind and its text.
pub proof fn lemma_entry_error_stands_for_its_text(e: EntryError)
    ensures
        match e {
            EntryError::InvalidEntry(s) => e@ == EntryErrorView::InvalidEntry(s@),
            EntryError::InvalidName(s) => e@ == EntryErrorView::InvalidName(s@),
            EntryError::InvalidVersion(s) => e@ == EntryErrorView::InvalidVersion(s@),
        },
{
}

/// An entry with the text of a name, an `@` and the text of a version is read as
/// that name and that version.
pub proof fn lemma_read_entry(
    name: NameView,
    v: Version,
    entry: String,
    r: Result<(Name, Version), EntryError>,
)
    requires
        name.valid(),
        !name.text().contains('@'),
        entry@ == name.text() + seq!['@'] + v.text(),
        call_ensures(read_entry, (&entry,), r),
    ensures
        r matches Ok((n, w)) && n@ == name && w == v,
{
    lemma_published_version_reads_back(name, v);
}

/// The address of the list of versions ends with the number of those to leave out.
pub proof fn lemma_versions_url(from: usize, url: String)
    requires
        call_ensures(versions_url, (from,), url),
    ensures
        url@ == "https://package.elm-lang.org/all-packages/since/"@ + text::decimal(from as nat),
{
}

/// Entries can be read exactly when each of them can. What is read lists the
/// version that each entry names for the package that it names, and no others.
pub proof fn lemma_read_entries(
    entries: Vec<String>,
    r: Result<VersionTable, EntryError>,
    pkg: NameView,
    v: Version,
)
    requires
        call_ensures(read_entries, (&entries,), r),
    ensures
        r is Ok <==> forall|i: int|
            0 <= i < entries@.len() ==> entry_of((#[trigger] entries@[i])@) is Ok,
        r matches Ok(found) ==> table::total_len(found@) == entries@.len(),
        r matches Ok(found) ==> (found@.contains_key(pkg) && found@[pkg].contains(v)
            <==> exists|i: int|
            0 <= i < entries@.len() && entry_of((#[trigger] entries@[i])@) == Ok::<
                _,
                EntryErrorView,
            >((pkg, v))),
{
    let all = entries.deep_view();
    assert forall|i: int| 0 <= i < all.len() implies #[trigger] all[i] == entries@[i]@ by {}
    lemma_entries_in_order(all, pkg);
    lemma_total_of_entries(all);
    lemma_named_versions(all, pkg, v);
    if forall|i: int| 0 <= i < entries@.len() ==> entry_of((#[trigger] entries@[i])@) is Ok {
        assert forall|i: int| 0 <= i < all.len() implies entry_of(#[trigger] all[i]) is Ok by {
            assert(entry_of(entries@[i]@) is Ok);
        }
    }
    if r is Ok {
        assert forall|i: int| 0 <= i < entries@.len() implies entry_of(
            (#[trigger] entries@[i])@,
        ) is Ok by {
            assert(entry_of(all[i]) is Ok);
        }
        if versions_named(all, pkg).contains(v) {
            let i = choose|i: int|
                0 <= i < all.len() && entry_of(#[trigger] all[i]) == Ok::<_, EntryErrorView>(
                    (pkg, v),
                );
            assert(entry_of(entries@[i]@) == Ok::<_, EntryErrorView>((pkg, v)));
        }
        if exists|i: int|
            0 <= i < entries@.len() && entry_of((#[trigger] entries@[i])@) == Ok::<
                _,
                EntryErrorView,
            >((pkg, v)) {
            let i = choose|i: int|
                0 <= i < entries@.len() && entry_of((#[trigger] entries@[i])@) == Ok::<
                    _,
                    EntryErrorView,
                >((pkg, v));
            assert(entry_of(all[i]) == Ok::<_, EntryErrorView>((pkg, v)));
        }
    }
}

/// The versions of a package that entries name are those that one of them names.
pub proof fn lemma_named_versions(entries: Seq<Seq<char>>, pkg: NameView, v: Version)
    ensures
        versions_named(entries, pkg).contains(v) <==> exists|i: int|
            0 <= i < entries.len() && entry_of(#[trigger] entries[i]) == Ok::<_, EntryErrorView>(
                (pkg, v),
            ),
    decreases entries.len(),
{
    if entries.len() > 0 {
        let rest = entries.drop_last();
        let before = versions_named(rest, pkg);
        let now = versions_named(entries, pkg);
        lemma_named_versions(rest, pkg, v);
        if before.contains(v) {
            let i = choose|i: int|
                0 <= i < rest.len() && entry_of(#[trigger] rest[i]) == Ok::<_, EntryErrorView>(
                    (pkg, v),
                );
            assert(entry_of(entries[i]) == Ok::<_, EntryErrorView>((pkg, v)));
            let j = choose|j: int| 0 <= j < before.len() && before[j] == v;
            assert(now[j] == v);
        }
        if entry_of(entries.last()) == Ok::<_, EntryErrorView>((pkg, v)) {
            assert(entry_of(entries[entries.len() - 1]) == Ok::<_, EntryErrorView>((pkg, v)));
            assert(now[before.len() as int] == v);
        }
        if now.contains(v) {
            let j = choose|j: int| 0 <= j < now.len() && now[j] == v;
            if j < before.len() {
                assert(before[j] == v);
            }
        }
        if exists|i: int|
            0 <= i < entries.len() && entry_of(#[trigger] entries[i]) == Ok::<_, EntryErrorView>(
                (pkg, v),
            ) {
            let i = choose|i: int|
                0 <= i < entries.len() && entry_of(#[trigger] entries[i]) == Ok::<
                    _,
                    EntryErrorView,
                >((pkg, v));
            if i < rest.len() {
                assert(entry_of(rest[i]) == Ok::<_, EntryErrorView>((pkg, v)));
            }
        }
    }
}

/// An answer gives what its entries give, and the error of the JSON reader is
/// passed on where there are no entries.
pub proof fn lemma_read_list(
    list: Result<Vec<String>, serde_json::Error>,
    r: Result<VersionTable, RemoteError>,
    entries: Result<VersionTable, EntryError>,
)
    requires
        call_ensures(read_list, (list,), r),
        list matches Ok(texts) ==> call_ensures(read_entries, (&texts,), entries),
    ensures
        list matches Err(e) ==> r == Err::<VersionTable, _>(RemoteError::Json(e)),
        list is Ok ==> match (r, entries) {
            (Ok(a), Ok(b)) => a@ == b@,
            (Err(RemoteError::Entry(a)), Err(b)) => a@ == b@,
            _ => false,
        },
{
}

} // verus!
