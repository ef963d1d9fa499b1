//! Version numbers.

use crate::text;
use vstd::prelude::*;

verus! {

/// A version number such as `1.0.5`. Versions are ordered by their major, then
/// their minor, then their patch number.
#[derive(Clone, Copy, PartialEq, Eq, PartialOrd, Ord, Hash, Debug, Structural)]
pub struct Version {
    pub major: u64,
    pub minor: u64,
    pub patch: u64,
}

impl DeepView for Version {
    type V = Version;

    open spec fn deep_view(&self) -> Version {
        *self
    }
}

impl Version {
    /// `self` comes before `other`.
    pub open spec fn before(self, other: Version) -> bool {
        ||| self.major < other.major
        ||| self.major == other.major && self.minor < other.minor
        ||| self.major == other.major && self.minor == other.minor && self.patch < other.patch
    }

    /// The text of the version: its three numbers, separated by dots.
    pub open spec fn text(self) -> Seq<char> {
        text::decimal(self.major as nat) + seq!['.'] + text::decimal(self.minor as nat) + seq!['.'] + text::decimal(
            self.patch as nat,
        )
    }

    /// The version that `s` stands for: three decimal numbers, separated by dots.
    pub open spec fn read(s: Seq<char>) -> Option<Version> {
        let parts = text::pieces(s, '.');
        if parts.len() != 3 {
            None
        } else {
            match (text::number(parts[0]), text::number(parts[1]), text::number(parts[2])) {
                (Some(major), Some(minor), Some(patch)) => Some(Version { major, minor, patch }),
                _ => None,
            }
        }
    }

    pub fn new(major: u64, minor: u64, patch: u64) -> (v: Version)
        ensures
            v == (Version { major, minor, patch }),
    {
        Version { major, minor, patch }
    }

    /// Whether `self` comes before `other`.
    pub fn is_before(&self, other: &Version) -> (b: bool)
        ensures
            b == self.before(*other),
    {
        if self.major != other.major {
            self.major < other.major
        } else if self.minor != other.minor {
            self.minor < other.minor
        } else {
            self.patch < other.patch
        }
    }

    /// Writes the version, such as `1.0.5`.
    pub fn to_text(&self) -> (r: String)
        ensures
            r@ == self.text(),
    {
        proof {
            reveal_strlit(".");
        }
        let mut r: String = text::decimal_text(self.major);
        r.append(".");
        r.append(text::decimal_text(self.minor).as_str());
        r.append(".");
        r.append(text::decimal_text(self.patch).as_str());
        assert("."@ =~= seq!['.']);
        r
    }

    /// Reads a version such as `1.0.5`.
    pub fn parse(s: &str) -> (r: Option<Version>)
        ensures
            r == Version::read(s@),
    {
        let parts: Vec<String> = text::split(s, '.');
        assert(parts.deep_view().len() == parts.len());
        if parts.len() != 3 {
            return None;
        }
        assert(parts.deep_view()[0] == parts[0]@);
        assert(parts.deep_view()[1] == parts[1]@);
        assert(parts.deep_view()[2] == parts[2]@);
        match (
            text::parse_number(parts[0].as_str()),
            text::parse_number(parts[1].as_str()),
            text::parse_number(parts[2].as_str()),
        ) {
            (Some(major), Some(minor), Some(patch)) => Some(Version { major, minor, patch }),
            _ => None,
        }
    }
}

/// Any two versions are equal or one comes before the other, never both, and
/// the order is transitive.
pub proof fn lemma_version_order(a: Version, b: Version, c: Version)
    ensures
        !a.before(a),
        a == b || a.before(b) || b.before(a),
        !(a.before(b) && b.before(a)),
        a.before(b) && b.before(c) ==> a.before(c),
{
}

/// Reading a version back from its text gives the version.
pub proof fn lemma_version_text_reads_back(v: Version)
    ensures
        Version::read(v.text()) == Some(v),
{
    let (major, minor, patch) = (
        text::decimal(v.major as nat),
        text::decimal(v.minor as nat),
        text::decimal(v.patch as nat),
    );
    text::lemma_decimal_value(v.major as nat);
    text::lemma_decimal_value(v.minor as nat);
    text::lemma_decimal_value(v.patch as nat);
    text::lemma_single_piece(major, '.');
    text::lemma_last_piece(major, minor, '.');
    let front = major.push('.') + minor;
    text::lemma_last_piece(front, patch, '.');
    assert(v.text() =~= front.push('.') + patch);
}

/// The text of a version holds nothing but digits and dots.
pub proof fn lemma_version_text_characters(v: Version, i: int)
    requires
        0 <= i < v.text().len(),
    ensures
        v.text()[i] == '.' || text::is_digit(v.text()[i]),
{
    text::lemma_decimal_value(v.major as nat);
    text::lemma_decimal_value(v.minor as nat);
    text::lemma_decimal_value(v.patch as nat);
}

/// Versions are compared by the values of their numbers: the major numbers
/// decide; where they are the same, the minor numbers do; and where those are the
/// same too, the patch numbers do.
pub proof fn lemma_numbers_decide_order(a: Version, b: Version)
    ensures
        a.major < b.major ==> a.before(b) && !b.before(a),
        a.major == b.major && a.minor < b.minor ==> a.before(b) && !b.before(a),
        a.major == b.major && a.minor == b.minor && a.patch < b.patch ==> a.before(b) && !b.before(
            a,
        ),
        a.major == b.major && a.minor == b.minor && a.patch == b.patch ==> !a.before(b),
{
}

/// `is_before` tells by the numbers which of two versions comes first.
pub proof fn lemma_is_before_compares_numbers(a: Version, b: Version, r: bool)
    requires
        call_ensures(Version::is_before, (&a, &b), r),
    ensures
        r <==> {
            ||| a.major < b.major
            ||| a.major == b.major && a.minor < b.minor
            ||| a.major == b.major && a.minor == b.minor && a.patch < b.patch
        },
{
}

/// Three texts with dots between them stand for the version with the three
/// numbers that they stand for, and for none where one of them is no number.
pub proof fn lemma_three_numbers_are_a_version(a: Seq<char>, b: Seq<char>, c: Seq<char>)
    requires
        !a.contains('.'),
        !b.contains('.'),
        !c.contains('.'),
    ensures
        Version::read(a + seq!['.'] + b + seq!['.'] + c) == (match (
            text::number(a),
            text::number(b),
            text::number(c),
        ) {
            (Some(major), Some(minor), Some(patch)) => Some(Version { major, minor, patch }),
            _ => None,
        }),
{
    let front = a.push('.') + b;
    text::lemma_single_piece(a, '.');
    text::lemma_last_piece(a, b, '.');
    text::lemma_last_piece(front, c, '.');
    assert(a + seq!['.'] + b + seq!['.'] + c =~= front.push('.') + c);
}

/// Text that is not made of three pieces with dots between them is no version.
pub proof fn lemma_version_needs_three_numbers(s: Seq<char>)
    requires
        text::pieces(s, '.').len() != 3,
    ensures
        Version::read(s) is None,
{
}

/// The text of a version has its three numbers, in decimal, between the dots.
pub proof fn lemma_version_text_parts(v: Version)
    ensures
        text::pieces(v.text(), '.') == seq![
            text::decimal(v.major as nat),
            text::decimal(v.minor as nat),
            text::decimal(v.patch as nat),
        ],
{
    let (major, minor, patch) = (
        text::decimal(v.major as nat),
        text::decimal(v.minor as nat),
        text::decimal(v.patch as nat),
    );
    text::lemma_decimal_value(v.major as nat);
    text::lemma_decimal_value(v.minor as nat);
    text::lemma_decimal_value(v.patch as nat);
    text::lemma_single_piece(major, '.');
    text::lemma_last_piece(major, minor, '.');
    let front = major.push('.') + minor;
    text::lemma_last_piece(front, patch, '.');
    assert(v.text() =~= front.push('.') + patch);
    assert(text::pieces(v.text(), '.') =~= seq![major, minor, patch]);
}

/// A version stands for itself.
pub proof fn lemma_version_stands_for_itself(v: Version)
    ensures
        v.deep_view() == v,
{
}

/// A version that is written and then read is the version.
pub proof fn lemma_parse_after_to_text(v: Version, written: String, s: &str, r: Option<Version>)
    requires
        call_ensures(Version::to_text, (&v,), written),
        s@ == written@,
        call_ensures(Version::parse, (s,), r),
    ensures
        r == Some(v),
{
    lemma_version_text_reads_back(v);
}

} // verus!
