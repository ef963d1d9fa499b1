//! Package names.

use crate::table::Key;
use crate::text;
use vstd::prelude::*;

verus! {

/// The name of a package: its author and its project, written `author/project`.
/// Neither part is empty or holds a slash.
#[derive(PartialEq, Eq, PartialOrd, Ord, Hash, Debug)]
pub struct Name {
    author: String,
    project: String,
}

/// What a name stands for.
pub struct NameView {
    pub author: Seq<char>,
    pub project: Seq<char>,
}

/// `s` can be one of the two parts of a name.
pub open spec fn valid_part(s: Seq<char>) -> bool {
    s.len() > 0 && !s.contains('/')
}

impl NameView {
    pub open spec fn valid(self) -> bool {
        valid_part(self.author) && valid_part(self.project)
    }

    /// The text of the name: its parts, separated by a slash.
    pub open spec fn text(self) -> Seq<char> {
        self.author + seq!['/'] + self.project
    }

    /// The name that `s` stands for: two non-empty parts, separated by the only slash.
    pub open spec fn read(s: Seq<char>) -> Option<NameView> {
        let parts = text::pieces(s, '/');
        if parts.len() == 2 && valid_part(parts[0]) && valid_part(parts[1]) {
            Some(NameView { author: parts[0], project: parts[1] })
        } else {
            None
        }
    }
}

impl View for Name {
    type V = NameView;

    closed spec fn view(&self) -> NameView {
        NameView { author: self.author@, project: self.project@ }
    }
}

impl DeepView for Name {
    type V = NameView;

    open spec fn deep_view(&self) -> NameView {
        self@
    }
}

impl Clone for Name {
    fn clone(&self) -> (r: Self)
        ensures
            r@ == self@,
    {
        proof {
            use_type_invariant(self);
        }
        Name { author: self.author.clone(), project: self.project.clone() }
    }
}

impl Key for Name {
    fn same(&self, other: &Self) -> (b: bool) {
        self.author == other.author && self.project == other.project
    }

    fn duplicate(&self) -> (r: Self) {
        self.clone()
    }
}

fn is_valid_part(s: &str) -> (b: bool)
    ensures
        b == valid_part(s@),
{
    !s.is_empty() && !text::has(s, '/')
}

impl Name {
    #[verifier::type_invariant]
    spec fn well_formed(self) -> bool {
        self@.valid()
    }

    /// The name with these parts, where both are valid.
    pub fn new(author: &str, project: &str) -> (r: Option<Name>)
        ensures
            match r {
                Some(name) => valid_part(author@) && valid_part(project@) && name@ == (NameView {
                    author: author@,
                    project: project@,
                }),
                None => !(valid_part(author@) && valid_part(project@)),
            },
    {
        if is_valid_part(author) && is_valid_part(project) {
            Some(Name { author: author.to_owned(), project: project.to_owned() })
        } else {
            None
        }
    }

    /// Writes the name, such as `elm/core`.
    pub fn to_text(&self) -> (r: String)
        ensures
            r@ == self@.text(),
            self@.valid(),
    {
        proof {
            use_type_invariant(self);
            reveal_strlit("/");
            assert("/"@ =~= seq!['/']);
        }
        let mut r: String = self.author.clone();
        r.append("/");
        r.append(self.project.as_str());
        r
    }

    /// Reads a name such as `elm/core`.
    pub fn parse(s: &str) -> (r: Option<Name>)
        ensures
            match r {
                Some(name) => NameView::read(s@) == Some(name@),
                None => NameView::read(s@) is None,
            },
    {
        let parts: Vec<String> = text::split(s, '/');
        assert(parts.deep_view().len() == parts.len());
        if parts.len() != 2 {
            return None;
        }
        assert(parts.deep_view()[0] == parts[0]@);
        assert(parts.deep_view()[1] == parts[1]@);
        Name::new(parts[0].as_str(), parts[1].as_str())
    }
}

/// Reading a name back from its text gives the name.
pub proof fn lemma_name_text_reads_back(name: NameView)
    requires
        name.valid(),
    ensures
        NameView::read(name.text()) == Some(name),
{
    text::lemma_single_piece(name.author, '/');
    text::lemma_last_piece(name.author, name.project, '/');
    assert(name.text() =~= name.author.push('/') + name.project);
}

/// A name is valid exactly when both of its parts have characters, and none of
/// these is a slash.
pub proof fn lemma_valid_name(name: NameView)
    ensures
        name.valid() <==> {
            &&& name.author.len() > 0
            &&& name.project.len() > 0
            &&& forall|i: int| 0 <= i < name.author.len() ==> #[trigger] name.author[i] != '/'
            &&& forall|i: int| 0 <= i < name.project.len() ==> #[trigger] name.project[i] != '/'
        },
{
    assert(name.author.contains('/') <==> exists|i: int|
        0 <= i < name.author.len() && #[trigger] name.author[i] == '/');
    assert(name.project.contains('/') <==> exists|i: int|
        0 <= i < name.project.len() && #[trigger] name.project[i] == '/');
}

/// Two texts with a slash between them are the name with these parts, as long as
/// neither is empty or holds another slash.
pub proof fn lemma_two_parts_are_a_name(author: Seq<char>, project: Seq<char>)
    ensures
        author.len() > 0 && !author.contains('/') && project.len() > 0 && !project.contains('/')
            ==> NameView::read(author + seq!['/'] + project) == Some(NameView { author, project }),
{
    if valid_part(author) && valid_part(project) {
        lemma_name_text_reads_back(NameView { author, project });
        assert((NameView { author, project }).text() =~= author + seq!['/'] + project);
    }
}

/// What is read as a name is the name's author, a slash and the name's project,
/// and the name is a valid one.
pub proof fn lemma_name_is_what_was_read(s: Seq<char>)
    ensures
        NameView::read(s) matches Some(name) ==> {
            &&& s == name.author + seq!['/'] + name.project
            &&& s == name.text()
            &&& name.valid()
        },
{
    if NameView::read(s) is Some {
        text::lemma_two_pieces(s, '/');
        let name = NameView::read(s)->0;
        assert(s =~= name.author + seq!['/'] + name.project);
        assert(s =~= name.text());
    }
}

/// The text of a valid name has its author and its project on the two sides of
/// the slash.
pub proof fn lemma_name_text_parts(name: NameView)
    requires
        name.valid(),
    ensures
        text::pieces(name.text(), '/') == seq![name.author, name.project],
{
    text::lemma_single_piece(name.author, '/');
    text::lemma_last_piece(name.author, name.project, '/');
    assert(name.text() =~= name.author.push('/') + name.project);
    assert(text::pieces(name.text(), '/') =~= seq![name.author, name.project]);
}

/// A name that is written and then read is the name.
pub proof fn lemma_parse_after_to_text(name: Name, written: String, s: &str, r: Option<Name>)
    requires
        call_ensures(Name::to_text, (&name,), written),
        s@ == written@,
        call_ensures(Name::parse, (s,), r),
    ensures
        r matches Some(again) && again@ == name@,
{
    lemma_name_text_reads_back(name@);
}

/// There is a name with two parts exactly when neither is empty or holds a slash,
/// and it has these parts.
pub proof fn lemma_new(author: &str, project: &str, r: Option<Name>)
    requires
        call_ensures(Name::new, (author, project), r),
    ensures
        r is Some <==> author@.len() > 0 && !author@.contains('/') && project@.len() > 0
            && !project@.contains('/'),
        r matches Some(name) ==> name@.author == author@ && name@.project == project@,
{
}

/// A name stands for its two parts, however it is looked at.
pub proof fn lemma_name_stands_for_its_parts(name: Name)
    ensures
        name.deep_view() == name@,
{
}

} // verus!
