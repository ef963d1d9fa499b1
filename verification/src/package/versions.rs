//! Which versions of each package exist.

use crate::package::name::{Name, NameView};
use crate::semver::Version;
use crate::table::{self, Table};
use vstd::prelude::*;

verus! {

/// The versions that are known of each package.
pub type VersionTable = Table<Name, Vec<Version>>;

/// What a `VersionTable` stands for.
pub type VersionMap = Map<NameView, Seq<Version>>;

/// `a` with the lists of `b` added at the end of its own.
pub open spec fn extended(a: VersionMap, b: VersionMap) -> VersionMap {
    Map::new(
        |k: NameView| a.contains_key(k) || b.contains_key(k),
        |k: NameView| table::list_at(a, k) + table::list_at(b, k),
    )
}

/// `list`, and then those of `more` that are not there yet.
pub open spec fn with_new(list: Seq<Version>, more: Seq<Version>) -> Seq<Version>
    decreases more.len(),
{
    if more.len() == 0 {
        list
    } else {
        let before = with_new(list, more.drop_last());
        if before.contains(more.last()) {
            before
        } else {
            before.push(more.last())
        }
    }
}

/// `a` with those of the versions of `b` that it does not list yet.
pub open spec fn completed(a: VersionMap, b: VersionMap) -> VersionMap {
    Map::new(
        |k: NameView| a.contains_key(k) || b.contains_key(k),
        |k: NameView| with_new(table::list_at(a, k), table::list_at(b, k)),
    )
}

/// How many versions are listed, over all packages.
pub fn count(versions: &VersionTable) -> (n: usize)
    requires
        table::total_len(versions@) <= usize::MAX,
    ensures
        n == table::total_len(versions@),
{
    let len: usize = versions.len();
    let ghost all = versions.listed();
    let mut n: usize = 0;
    let mut i: usize = 0;
    while i < len
        invariant
            len == all.len(),
            all == versions.listed(),
            i <= len,
            table::distinct_keys(all),
            table::total_len(table::entries_map(all)) <= usize::MAX,
            n == table::total_len(table::entries_map(all.take(i as int))),
        decreases len - i,
    {
        let (_, list) = versions.at(i);
        proof {
            lemma_total_of_prefix(all, i as int);
            lemma_total_of_prefix(all, i + 1);
            assert(list.deep_view().len() == list.len());
        }
        n = n + list.len();
        i = i + 1;
    }
    assert(all.take(len as int) =~= all);
    n
}

/// Adds the lists of `more` at the end of those of `versions`, and says whether
/// there were any.
pub fn extend(versions: &mut VersionTable, more: &VersionTable) -> (changed: bool)
    ensures
        final(versions)@ == extended(old(versions)@, more@),
        changed == (more@ != Map::<NameView, Seq<Version>>::empty()),
{
    let len: usize = more.len();
    let ghost start = versions@;
    let ghost all = more.listed();
    let mut changed: bool = false;
    let mut i: usize = 0;
    assert(all.take(0) =~= Seq::empty());
    assert(versions@ =~= extended(start, table::entries_map(all.take(0))));
    while i < len
        invariant
            len == all.len(),
            all == more.listed(),
            i <= len,
            table::distinct_keys(all),
            changed == (i > 0),
            versions@ == extended(start, table::entries_map(all.take(i as int))),
        decreases len - i,
    {
        let (pkg, list) = more.at(i);
        let added: Vec<Version> = list.clone();
        let ghost seen = table::entries_map(all.take(i as int));
        let ghost now = table::entries_map(all.take(i + 1));
        proof {
            assert(added.deep_view() =~= list.deep_view());
            lemma_fresh_key(all, i as int);
            assert(all.take(i + 1).drop_last() =~= all.take(i as int));
            assert(table::list_at(versions@, pkg@) =~= table::list_at(start, pkg@));
        }
        versions.append_to(pkg.clone(), added);
        changed = true;
        assert(versions@ =~= extended(start, now));
        i = i + 1;
    }
    proof {
        assert(all.take(len as int) =~= all);
        if len > 0 {
            table::lemma_entry_at(all, 0);
        }
    }
    changed
}

/// Adds to the lists of `versions` those versions of `more` that are not there yet.
pub fn complete(versions: &mut VersionTable, more: &VersionTable)
    ensures
        final(versions)@ == completed(old(versions)@, more@),
{
    let len: usize = more.len();
    let ghost start = versions@;
    let ghost all = more.listed();
    let mut i: usize = 0;
    assert(all.take(0) =~= Seq::empty());
    assert(versions@ =~= completed(start, table::entries_map(all.take(0))));
    while i < len
        invariant
            len == all.len(),
            all == more.listed(),
            i <= len,
            table::distinct_keys(all),
            versions@ == completed(start, table::entries_map(all.take(i as int))),
        decreases len - i,
    {
        let (pkg, list) = more.at(i);
        let ghost now = table::entries_map(all.take(i + 1));
        proof {
            lemma_fresh_key(all, i as int);
            assert(all.take(i + 1).drop_last() =~= all.take(i as int));
            assert(table::list_at(versions@, pkg@) =~= table::list_at(start, pkg@));
            assert(list.deep_view() =~= list@);
        }
        add_new(versions, pkg, list);
        assert(versions@ =~= completed(start, now));
        i = i + 1;
    }
    assert(all.take(len as int) =~= all);
}

/// Adds to the list for `pkg` those versions of `more` that are not there yet.
pub fn add_new(versions: &mut VersionTable, pkg: &Name, more: &Vec<Version>)
    ensures
        final(versions)@ == old(versions)@.insert(
            pkg@,
            with_new(table::list_at(old(versions)@, pkg@), more@),
        ),
{
    let mut list: Vec<Version> = match versions.get(pkg) {
        Some(list) => {
            let copy: Vec<Version> = list.clone();
            assert(copy.deep_view() =~= list.deep_view());
            copy
        },
        None => Vec::new(),
    };
    let ghost start = table::list_at(versions@, pkg@);
    assert(list.deep_view() =~= list@);
    assert(list@ =~= start);
    let mut i: usize = 0;
    assert(more@.take(0) =~= Seq::empty());
    while i < more.len()
        invariant
            i <= more.len(),
            list@ == with_new(start, more@.take(i as int)),
        decreases more.len() - i,
    {
        assert(more@.take(i + 1).drop_last() =~= more@.take(i as int));
        if !contains(&list, &more[i]) {
            list.push(more[i]);
        }
        i = i + 1;
    }
    assert(more@.take(more.len() as int) =~= more@);
    assert(list.deep_view() =~= list@);
    versions.insert(pkg.clone(), list);
}

/// Whether `list` has the version `v`.
pub fn contains(list: &Vec<Version>, v: &Version) -> (b: bool)
    ensures
        b == list@.contains(*v),
{
    let mut i: usize = 0;
    while i < list.len()
        invariant
            i <= list.len(),
            forall|j: int| 0 <= j < i ==> list@[j] != *v,
        decreases list.len() - i,
    {
        if list[i] == *v {
            assert(list@[i as int] == *v);
            return true;
        }
        i = i + 1;
    }
    false
}

/// The key of an entry is not among those of the entries before it.
proof fn lemma_fresh_key(all: Seq<(NameView, Seq<Version>)>, i: int)
    requires
        table::distinct_keys(all),
        0 <= i < all.len(),
    ensures
        !table::entries_map(all.take(i)).contains_key(all[i].0),
{
    let seen = all.take(i);
    table::lemma_has_key(seen, all[i].0);
    assert forall|j: int| 0 <= j < seen.len() implies (#[trigger] seen[j]).0 != all[i].0 by {
        assert(all[j].0 != all[i].0);
    }
}

/// The lists of the first entries are together no longer than those of all of
/// them, and each entry adds the length of its list.
proof fn lemma_total_of_prefix(all: Seq<(NameView, Seq<Version>)>, n: int)
    requires
        table::distinct_keys(all),
        0 <= n <= all.len(),
    ensures
        table::total_len(table::entries_map(all.take(n))) <= table::total_len(
            table::entries_map(all),
        ),
        n < all.len() ==> table::total_len(table::entries_map(all.take(n + 1)))
            == table::total_len(table::entries_map(all.take(n))) + all[n].1.len(),
    decreases all.len() - n,
{
    if n < all.len() {
        lemma_total_of_prefix(all, n + 1);
        lemma_fresh_key(all, n);
        table::lemma_finite_keys(all.take(n));
        table::lemma_total_after_insert(
            table::entries_map(all.take(n)),
            all[n].0,
            all[n].1,
        );
        assert(all.take(n + 1).drop_last() =~= all.take(n));
    } else {
        assert(all.take(n) =~= all);
    }
}

/// Adding the lists of one table to those of another adds up their totals.
pub proof fn lemma_total_of_extended(a: VersionMap, b: VersionMap)
    requires
        a.dom().finite(),
        b.dom().finite(),
    ensures
        table::total_len(extended(a, b)) == table::total_len(a) + table::total_len(b),
        extended(a, b).dom().finite(),
    decreases b.dom().len(),
{
    if b.dom().len() == 0 {
        assert(b.dom() =~= Set::empty());
        assert(extended(a, b) =~= a);
    } else {
        let k = b.dom().choose();
        let rest = b.remove(k);
        lemma_total_of_extended(a, rest);
        let before = extended(a, rest);
        let list = table::list_at(a, k) + b[k];
        table::lemma_total_of_key(b, k);
        table::lemma_total_after_insert(before, k, list);
        assert(table::list_at(before, k) =~= table::list_at(a, k));
        assert(extended(a, b) =~= before.insert(k, list));
    }
}

/// Completing a list keeps what it has in front, adds the versions that it
/// lacks and nothing else, and repeats no version that was not repeated before.
pub proof fn lemma_with_new(list: Seq<Version>, more: Seq<Version>)
    ensures
        list.is_prefix_of(with_new(list, more)),
        forall|v: Version| #[trigger]
            with_new(list, more).contains(v) <==> list.contains(v) || more.contains(v),
        list.no_duplicates() ==> with_new(list, more).no_duplicates(),
    decreases more.len(),
{
    if more.len() > 0 {
        let rest = more.drop_last();
        let before = with_new(list, rest);
        let now = with_new(list, more);
        lemma_with_new(list, rest);
        assert forall|v: Version| #[trigger]
            now.contains(v) <==> list.contains(v) || more.contains(v) by {
            assert(more.contains(v) <==> rest.contains(v) || v == more.last()) by {
                if more.contains(v) {
                    let i = choose|i: int| 0 <= i < more.len() && more[i] == v;
                    if i < rest.len() {
                        assert(rest[i] == v);
                    }
                }
                if rest.contains(v) {
                    let i = choose|i: int| 0 <= i < rest.len() && rest[i] == v;
                    assert(more[i] == v);
                }
                assert(more[more.len() - 1] == more.last());
            }
            if before.contains(v) {
                let i = choose|i: int| 0 <= i < before.len() && before[i] == v;
                assert(now[i] == v);
            }
            if now.contains(v) {
                let i = choose|i: int| 0 <= i < now.len() && now[i] == v;
                if i < before.len() {
                    assert(before[i] == v);
                }
            }
            if v == more.last() {
                if !before.contains(v) {
                    assert(now[before.len() as int] == v);
                }
            }
        }
    }
}

/// Adding lists at the end of others keeps both, one behind the other, and lists
/// no package that neither had.
pub proof fn lemma_extended_lists(a: VersionMap, b: VersionMap, pkg: NameView)
    ensures
        extended(a, b).contains_key(pkg) <==> a.contains_key(pkg) || b.contains_key(pkg),
        a.contains_key(pkg) && b.contains_key(pkg) ==> extended(a, b)[pkg] == a[pkg] + b[pkg],
        a.contains_key(pkg) && !b.contains_key(pkg) ==> extended(a, b)[pkg] == a[pkg],
        !a.contains_key(pkg) && b.contains_key(pkg) ==> extended(a, b)[pkg] == b[pkg],
{
    assert(table::list_at(a, pkg) + Seq::<Version>::empty() =~= table::list_at(a, pkg));
    assert(Seq::<Version>::empty() + table::list_at(b, pkg) =~= table::list_at(b, pkg));
}

/// A version is added at the end of a list exactly when it is neither in the list
/// nor among those that were added before it.
pub proof fn lemma_new_one_goes_last(list: Seq<Version>, more: Seq<Version>, v: Version)
    ensures
        with_new(list, Seq::empty()) == list,
        with_new(list, more.push(v)) == (if list.contains(v) || more.contains(v) {
            with_new(list, more)
        } else {
            with_new(list, more).push(v)
        }),
{
    assert(more.push(v).drop_last() =~= more);
    lemma_with_new(list, more);
    assert(with_new(list, more).contains(v) <==> list.contains(v) || more.contains(v));
}

/// Completing the lists of packages completes the list of each package, and lists
/// no package that neither side had.
pub proof fn lemma_completed_lists(a: VersionMap, b: VersionMap, pkg: NameView, v: Version)
    ensures
        completed(a, b).contains_key(pkg) <==> a.contains_key(pkg) || b.contains_key(pkg),
        a.contains_key(pkg) ==> a[pkg].is_prefix_of(completed(a, b)[pkg]),
        a.contains_key(pkg) && b.contains_key(pkg) ==> completed(a, b)[pkg] == with_new(
            a[pkg],
            b[pkg],
        ),
        a.contains_key(pkg) && !b.contains_key(pkg) ==> completed(a, b)[pkg] == a[pkg],
        !a.contains_key(pkg) && b.contains_key(pkg) ==> completed(a, b)[pkg] == with_new(
            Seq::empty(),
            b[pkg],
        ),
        completed(a, b).contains_key(pkg) ==> (completed(a, b)[pkg].contains(v) <==> {
            ||| a.contains_key(pkg) && a[pkg].contains(v)
            ||| b.contains_key(pkg) && b[pkg].contains(v)
        }),
{
    lemma_with_new(table::list_at(a, pkg), table::list_at(b, pkg));
    assert(with_new(table::list_at(a, pkg), table::list_at(b, pkg)).contains(v)
        <==> table::list_at(a, pkg).contains(v) || table::list_at(b, pkg).contains(v));
}

/// A version is in a list exactly when it is at one of the places of the list.
pub proof fn lemma_contains(list: Vec<Version>, v: Version, b: bool)
    requires
        call_ensures(contains, (&list, &v), b),
    ensures
        b <==> exists|i: int| 0 <= i < list@.len() && #[trigger] list@[i] == v,
{
}

/// Adding lists keeps the old ones in front and puts the new ones behind them, and
/// something changes exactly when there is a new list.
pub proof fn lemma_extend(
    known: &mut VersionTable,
    more: VersionTable,
    changed: bool,
    pkg: NameView,
)
    requires
        call_ensures(extend, (known, &more), changed),
    ensures
        changed <==> exists|k: NameView| #[trigger] more@.contains_key(k),
        final(known)@.contains_key(pkg) <==> old(known)@.contains_key(pkg) || more@.contains_key(
            pkg,
        ),
        old(known)@.contains_key(pkg) && more@.contains_key(pkg) ==> final(known)@[pkg]
            == old(known)@[pkg] + more@[pkg],
        old(known)@.contains_key(pkg) && !more@.contains_key(pkg) ==> final(known)@[pkg]
            == old(known)@[pkg],
        !old(known)@.contains_key(pkg) && more@.contains_key(pkg) ==> final(known)@[pkg]
            == more@[pkg],
{
    lemma_extended_lists(old(known)@, more@, pkg);
    if forall|k: NameView| !(#[trigger] more@.contains_key(k)) {
        assert(more@ =~= Map::<NameView, Seq<Version>>::empty());
    }
}

/// Completing lists keeps the old ones in front, and lists a version of a package
/// exactly when one of the sides did.
pub proof fn lemma_complete(
    known: &mut VersionTable,
    more: VersionTable,
    pkg: NameView,
    v: Version,
)
    requires
        call_ensures(complete, (known, &more), ()),
    ensures
        ({
            let (a, b, now) = (old(known)@, more@, final(known)@);
            &&& now.contains_key(pkg) <==> a.contains_key(pkg) || b.contains_key(pkg)
            &&& a.contains_key(pkg) ==> a[pkg].is_prefix_of(now[pkg])
            &&& now.contains_key(pkg) ==> (now[pkg].contains(v) <==> {
                ||| a.contains_key(pkg) && a[pkg].contains(v)
                ||| b.contains_key(pkg) && b[pkg].contains(v)
            })
        }),
{
    lemma_completed_lists(old(known)@, more@, pkg, v);
}

} // verus!
