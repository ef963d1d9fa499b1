//! The form in which the versions that are known are kept.

use crate::package::name::{self, Name, NameView};
use crate::package::versions::{VersionMap, VersionTable};
use crate::semver::version::{self, Version};
use crate::table;
use vstd::prelude::*;

verus! {

/// The texts of a list of versions.
pub open spec fn version_texts(list: Seq<Version>) -> Seq<Seq<char>> {
    Seq::new(list.len(), |i: int| list[i].text())
}

/// The versions that a list of texts stands for, where each of them is one.
pub open spec fn read_versions(list: Seq<Seq<char>>) -> Option<Seq<Version>> {
    if forall|i: int| 0 <= i < list.len() ==> Version::read(#[trigger] list[i]) is Some {
        Some(Seq::new(list.len(), |i: int| Version::read(list[i])->0))
    } else {
        None
    }
}

/// The texts of the packages and of their versions.
pub open spec fn stored_form(listed: Seq<(NameView, Seq<Version>)>) -> Seq<
    (Seq<char>, Seq<Seq<char>>),
> {
    Seq::new(listed.len(), |i: int| (listed[i].0.text(), version_texts(listed[i].1)))
}

/// The versions that are kept in this form, where each text is what it should
/// be. The last entry of a package is the one that counts.
pub open spec fn read_stored(stored: Seq<(Seq<char>, Seq<Seq<char>>)>) -> Option<VersionMap>
    decreases stored.len(),
{
    if stored.len() == 0 {
        Some(Map::empty())
    } else {
        match (
            read_stored(stored.drop_last()),
            NameView::read(stored.last().0),
            read_versions(stored.last().1),
        ) {
            (Some(before), Some(name), Some(list)) => Some(before.insert(name, list)),
            _ => None,
        }
    }
}

/// Brings the versions that are known in the form in which they are kept.
pub fn to_stored(versions: &VersionTable) -> (r: Vec<(String, Vec<String>)>)
    ensures
        r.deep_view() == stored_form(versions.listed()),
        read_stored(r.deep_view()) == Some(versions@),
{
    let len: usize = versions.len();
    let ghost all = versions.listed();
    let mut r: Vec<(String, Vec<String>)> = Vec::new();
    let mut i: usize = 0;
    while i < len
        invariant
            len == all.len(),
            all == versions.listed(),
            i <= len,
            r.len() == i,
            forall|j: int|
                0 <= j < i ==> (#[trigger] all[j]).0.valid() && r[j].deep_view() == stored_form(
                    all,
                )[j],
        decreases len - i,
    {
        let (name, list) = versions.at(i);
        let texts: Vec<String> = texts_of(list);
        assert(list.deep_view() =~= list@);
        r.push((name.to_text(), texts));
        i = i + 1;
    }
    assert(r.deep_view() =~= stored_form(all));
    proof {
        lemma_stored_form_reads_back(all);
    }
    r
}

fn texts_of(list: &Vec<Version>) -> (r: Vec<String>)
    ensures
        r.deep_view() == version_texts(list@),
{
    let mut r: Vec<String> = Vec::new();
    let mut i: usize = 0;
    while i < list.len()
        invariant
            i <= list.len(),
            r.len() == i,
            forall|j: int| 0 <= j < i ==> (#[trigger] r[j])@ == list[j].text(),
        decreases list.len() - i,
    {
        r.push(list[i].to_text());
        i = i + 1;
    }
    assert(r.deep_view() =~= version_texts(list@));
    r
}

/// Brings back the versions that are kept in this form.
pub fn from_stored(stored: &Vec<(String, Vec<String>)>) -> (r: Option<VersionTable>)
    ensures
        match r {
            Some(versions) => read_stored(stored.deep_view()) == Some(versions@),
            None => read_stored(stored.deep_view()) is None,
        },
{
    let mut versions: VersionTable = VersionTable::new();
    let ghost all = stored.deep_view();
    let mut i: usize = 0;
    while i < stored.len()
        invariant
            i <= stored.len(),
            all == stored.deep_view(),
            read_stored(all.take(i as int)) == Some(versions@),
        decreases stored.len() - i,
    {
        let (name, list) = &stored[i];
        proof {
            assert(all.take(i + 1).drop_last() =~= all.take(i as int));
            assert(all.take(i + 1).last() == (name@, list.deep_view()));
        }
        match (Name::parse(name.as_str()), parse_versions(list)) {
            (Some(name), Some(list)) => {
                assert(list.deep_view() =~= list@);
                versions.insert(name, list);
            },
            _ => {
                proof {
                    lemma_unreadable_stays(all, i + 1);
                }
                return None;
            },
        }
        i = i + 1;
    }
    assert(all.take(stored.len() as int) =~= all);
    Some(versions)
}

fn parse_versions(list: &Vec<String>) -> (r: Option<Vec<Version>>)
    ensures
        match r {
            Some(versions) => read_versions(list.deep_view()) == Some(versions@),
            None => read_versions(list.deep_view()) is None,
        },
{
    let mut versions: Vec<Version> = Vec::new();
    let mut i: usize = 0;
    while i < list.len()
        invariant
            i <= list.len(),
            versions.len() == i,
            forall|j: int|
                0 <= j < i ==> Version::read(#[trigger] list.deep_view()[j]) == Some(versions[j]),
        decreases list.len() - i,
    {
        assert(list.deep_view()[i as int] == list[i as int]@);
        match Version::parse(list[i].as_str()) {
            Some(v) => versions.push(v),
            None => {
                return None;
            },
        }
        i = i + 1;
    }
    assert(versions@ =~= read_versions(list.deep_view())->0);
    Some(versions)
}

proof fn lemma_unreadable_stays(stored: Seq<(Seq<char>, Seq<Seq<char>>)>, n: int)
    requires
        0 <= n <= stored.len(),
        read_stored(stored.take(n)) is None,
    ensures
        read_stored(stored) is None,
    decreases stored.len() - n,
{
    if n < stored.len() {
        assert(stored.take(n + 1).drop_last() =~= stored.take(n));
        lemma_unreadable_stays(stored, n + 1);
    } else {
        assert(stored.take(n) =~= stored);
    }
}

/// Reading back the form in which versions are kept gives the versions.
pub proof fn lemma_stored_form_reads_back(listed: Seq<(NameView, Seq<Version>)>)
    requires
        forall|i: int| 0 <= i < listed.len() ==> (#[trigger] listed[i]).0.valid(),
    ensures
        read_stored(stored_form(listed)) == Some(table::entries_map(listed)),
    decreases listed.len(),
{
    if listed.len() > 0 {
        let rest = listed.drop_last();
        let (pkg, list) = listed.last();
        assert forall|i: int| 0 <= i < rest.len() implies (#[trigger] rest[i]).0.valid() by {
            assert(listed[i].0.valid());
        }
        lemma_stored_form_reads_back(rest);
        assert(stored_form(listed).drop_last() =~= stored_form(rest));
        assert(listed[listed.len() - 1].0.valid());
        name::lemma_name_text_reads_back(pkg);
        let texts = version_texts(list);
        assert forall|i: int| 0 <= i < texts.len() implies Version::read(#[trigger] texts[i])
            == Some(list[i]) by {
            version::lemma_version_text_reads_back(list[i]);
        }
        assert(read_versions(texts)->0 =~= list);
    }
}

/// Each package is kept as the text of its name, with the texts of its versions,
/// all in the order in which they are listed.
pub proof fn lemma_stored_form_has_every_text(
    listed: Seq<(NameView, Seq<Version>)>,
    i: int,
    j: int,
)
    ensures
        stored_form(listed).len() == listed.len(),
        0 <= i < listed.len() ==> {
            &&& stored_form(listed)[i].0 == listed[i].0.text()
            &&& stored_form(listed)[i].1.len() == listed[i].1.len()
            &&& 0 <= j < listed[i].1.len() ==> stored_form(listed)[i].1[j] == listed[i].1[j].text()
        },
{
}

/// A package that is kept behind others is read with all of its versions, in
/// their order, and takes the place of what was read for it before. Nothing is
/// read where one of the texts is not what it should be.
pub proof fn lemma_stored_package_is_read(
    stored: Seq<(Seq<char>, Seq<Seq<char>>)>,
    pkg: Seq<char>,
    texts: Seq<Seq<char>>,
    other: NameView,
)
    ensures
        read_stored(Seq::empty()) == Some(Map::<NameView, Seq<Version>>::empty()),
        read_stored(stored.push((pkg, texts))) is Some <==> {
            &&& read_stored(stored) is Some
            &&& NameView::read(pkg) is Some
            &&& forall|i: int| 0 <= i < texts.len() ==> Version::read(#[trigger] texts[i]) is Some
        },
        read_stored(stored.push((pkg, texts))) matches Some(after) ==> {
            let before = read_stored(stored)->0;
            let name = NameView::read(pkg)->0;
            &&& after.contains_key(name)
            &&& after[name].len() == texts.len()
            &&& forall|i: int|
                0 <= i < texts.len() ==> Version::read(texts[i]) == Some(#[trigger] after[name][i])
            &&& other != name ==> {
                &&& after.contains_key(other) <==> before.contains_key(other)
                &&& after.contains_key(other) ==> after[other] == before[other]
            }
        },
{
    assert(stored.push((pkg, texts)).drop_last() =~= stored);
}

/// Versions that are kept and then brought back are the same.
pub proof fn lemma_from_stored_after_to_stored(
    versions: VersionTable,
    stored: Vec<(String, Vec<String>)>,
    r: Option<VersionTable>,
)
    requires
        call_ensures(to_stored, (&versions,), stored),
        call_ensures(from_stored, (&stored,), r),
    ensures
        r matches Some(again) && again@ == versions@,
{
}

} // verus!
