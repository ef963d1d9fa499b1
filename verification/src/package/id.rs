//! What a project can depend on.

use crate::package::name::{Name, NameView};
use crate::solver::summary;
use crate::table::Key;
use vstd::prelude::*;

verus! {

/// Something that takes part in solving: the project itself, the Elm compiler,
/// or a package.
#[derive(PartialEq, Eq, PartialOrd, Ord, Hash, Debug)]
pub enum PackageId {
    Root,
    Elm,
    Pkg(Name),
}

/// What a `PackageId` stands for.
pub enum PackageIdView {
    Root,
    Elm,
    Pkg(NameView),
}

impl PackageIdView {
    /// The text of the id: the name of a package, or the word for the other two.
    pub open spec fn text(self) -> Seq<char> {
        match self {
            PackageIdView::Root => "root"@,
            PackageIdView::Elm => "Elm"@,
            PackageIdView::Pkg(name) => name.text(),
        }
    }

    /// The name of a package is a valid one.
    pub open spec fn valid(self) -> bool {
        self matches PackageIdView::Pkg(name) ==> name.valid()
    }
}

impl View for PackageId {
    type V = PackageIdView;

    open spec fn view(&self) -> PackageIdView {
        match self {
            PackageId::Root => PackageIdView::Root,
            PackageId::Elm => PackageIdView::Elm,
            PackageId::Pkg(name) => PackageIdView::Pkg(name@),
        }
    }
}

impl DeepView for PackageId {
    type V = PackageIdView;

    open spec fn deep_view(&self) -> PackageIdView {
        self@
    }
}

impl Clone for PackageId {
    fn clone(&self) -> (r: Self)
        ensures
            r@ == self@,
    {
        match self {
            PackageId::Root => PackageId::Root,
            PackageId::Elm => PackageId::Elm,
            PackageId::Pkg(name) => PackageId::Pkg(name.clone()),
        }
    }
}

impl Key for PackageId {
    fn same(&self, other: &Self) -> (b: bool) {
        match (self, other) {
            (PackageId::Root, PackageId::Root) => true,
            (PackageId::Elm, PackageId::Elm) => true,
            (PackageId::Pkg(a), PackageId::Pkg(b)) => a.same(b),
            _ => false,
        }
    }

    fn duplicate(&self) -> (r: Self) {
        self.clone()
    }
}

impl summary::PackageId for PackageId {
    open spec fn stands_for_root(&self) -> bool {
        *self is Root
    }

    fn is_root(&self) -> (b: bool) {
        matches!(self, PackageId::Root)
    }
}

impl From<Name> for PackageId {
    fn from(n: Name) -> (r: Self) {
        PackageId::Pkg(n)
    }
}

impl vstd::std_specs::convert::FromSpecImpl<Name> for PackageId {
    open spec fn obeys_from_spec() -> bool {
        true
    }

    open spec fn from_spec(n: Name) -> Self {
        PackageId::Pkg(n)
    }
}

impl PackageId {
    /// Whether this is the package with the name `n`.
    pub fn is(&self, n: &Name) -> (b: bool)
        ensures
            b == (self@ == PackageIdView::Pkg(n@)),
    {
        match self {
            PackageId::Root => false,
            PackageId::Elm => false,
            PackageId::Pkg(name) => name.same(n),
        }
    }

    /// Writes the id: `root`, `Elm` or the name of the package.
    pub fn to_text(&self) -> (r: String)
        ensures
            r@ == self@.text(),
            self@.valid(),
    {
        match self {
            PackageId::Root => "root".to_owned(),
            PackageId::Elm => "Elm".to_owned(),
            PackageId::Pkg(name) => name.to_text(),
        }
    }
}

/// The project is written `root`, the compiler `Elm`, and a package as its
/// author, a slash and its project.
pub proof fn lemma_id_texts(author: Seq<char>, project: Seq<char>)
    ensures
        PackageIdView::Root.text() == "root"@,
        PackageIdView::Elm.text() == "Elm"@,
        PackageIdView::Pkg((NameView { author, project })).text() == author + seq!['/'] + project,
        PackageIdView::Pkg((NameView { author, project })).valid() <==> author.len() > 0
            && !author.contains('/') && project.len() > 0 && !project.contains('/'),
{
}

/// An id stands for the project, for the compiler or for the package that it
/// names, so ids that stand for the same are of the same kind and name the same.
pub proof fn lemma_id_stands_for_what_it_names(id: PackageId)
    ensures
        id.deep_view() == id@,
        id is Root <==> id@ is Root,
        id is Elm <==> id@ is Elm,
        id matches PackageId::Pkg(name) ==> id@ == PackageIdView::Pkg(name@),
{
}

/// An id is the package with a name exactly when it is that of a package, and the
/// package has this name. Only the project is the root.
pub proof fn lemma_is(id: PackageId, n: Name, b: bool, root: bool)
    requires
        call_ensures(PackageId::is, (&id, &n), b),
        call_ensures(<PackageId as summary::PackageId>::is_root, (&id,), root),
    ensures
        b <==> (id matches PackageId::Pkg(name) && name@ == n@),
        root <==> id is Root,
{
}

} // verus!
