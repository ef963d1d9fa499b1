//! Contiguous ranges of versions.

use crate::semver::constraint::Constraint;
use crate::semver::version::{self, Version};
use crate::text;
use vstd::prelude::*;

verus! {

/// One end of a range.
#[derive(Clone, Copy, PartialEq, Eq, Hash, Debug, Structural)]
pub enum Bound {
    /// The range does not end on this side.
    Unbounded,
    /// The range ends at this version and holds it.
    Inclusive(Version),
    /// The range ends at this version and does not hold it.
    Exclusive(Version),
}

impl Bound {
    /// `v` is on the inner side of this bound, taken as a lower one.
    pub open spec fn admits_above(self, v: Version) -> bool {
        match self {
            Bound::Unbounded => true,
            Bound::Inclusive(b) => b == v || b.before(v),
            Bound::Exclusive(b) => b.before(v),
        }
    }

    /// `v` is on the inner side of this bound, taken as an upper one.
    pub open spec fn admits_below(self, v: Version) -> bool {
        match self {
            Bound::Unbounded => true,
            Bound::Inclusive(b) => v == b || v.before(b),
            Bound::Exclusive(b) => v.before(b),
        }
    }

    /// Whether `v` is on the inner side of this bound, taken as a lower one.
    fn lets_above(&self, v: &Version) -> (b: bool)
        ensures
            b == self.admits_above(*v),
    {
        match self {
            Bound::Unbounded => true,
            Bound::Inclusive(bound) => !v.is_before(bound),
            Bound::Exclusive(bound) => bound.is_before(v),
        }
    }

    /// Whether `v` is on the inner side of this bound, taken as an upper one.
    fn lets_below(&self, v: &Version) -> (b: bool)
        ensures
            b == self.admits_below(*v),
    {
        match self {
            Bound::Unbounded => true,
            Bound::Inclusive(bound) => !bound.is_before(v),
            Bound::Exclusive(bound) => v.is_before(bound),
        }
    }

    /// The stricter of two lower bounds.
    pub fn higher_lower(a: Bound, b: Bound) -> (r: Bound)
        ensures
            r == a || r == b,
            forall|v: Version| #[trigger]
                r.admits_above(v) <==> a.admits_above(v) && b.admits_above(v),
    {
        match a {
            Bound::Unbounded => b,
            Bound::Inclusive(v) => if b.lets_above(&v) {
                a
            } else {
                b
            },
            Bound::Exclusive(v) => match b {
                Bound::Exclusive(w) => if v.is_before(&w) {
                    b
                } else {
                    a
                },
                _ => if b.lets_above(&v) {
                    a
                } else {
                    b
                },
            },
        }
    }

    /// The stricter of two upper bounds.
    pub fn lower_upper(a: Bound, b: Bound) -> (r: Bound)
        ensures
            r == a || r == b,
            forall|v: Version| #[trigger]
                r.admits_below(v) <==> a.admits_below(v) && b.admits_below(v),
    {
        match a {
            Bound::Unbounded => b,
            Bound::Inclusive(v) => if b.lets_below(&v) {
                a
            } else {
                b
            },
            Bound::Exclusive(v) => match b {
                Bound::Exclusive(w) => if w.is_before(&v) {
                    b
                } else {
                    a
                },
                _ => if b.lets_below(&v) {
                    a
                } else {
                    b
                },
            },
        }
    }

    /// The bound between the same versions, seen from the other side.
    pub open spec fn opposite(self) -> Bound {
        match self {
            Bound::Unbounded => Bound::Unbounded,
            Bound::Inclusive(v) => Bound::Exclusive(v),
            Bound::Exclusive(v) => Bound::Inclusive(v),
        }
    }

    /// Turns the bound to the other side.
    pub fn flip(self) -> (r: Bound)
        ensures
            r == self.opposite(),
    {
        match self {
            Bound::Unbounded => Bound::Unbounded,
            Bound::Inclusive(v) => Bound::Exclusive(v),
            Bound::Exclusive(v) => Bound::Inclusive(v),
        }
    }

    /// The bound at `v` that a comparison sign stands for.
    pub open spec fn at(sign: Seq<char>, v: Version) -> Option<Bound> {
        if sign == "<="@ {
            Some(Bound::Inclusive(v))
        } else if sign == "<"@ {
            Some(Bound::Exclusive(v))
        } else {
            None
        }
    }

    fn parse_at(sign: &str, v: Version) -> (r: Option<Bound>)
        ensures
            r == Bound::at(sign@, v),
    {
        if text::same(sign, "<=") {
            Some(Bound::Inclusive(v))
        } else if text::same(sign, "<") {
            Some(Bound::Exclusive(v))
        } else {
            None
        }
    }
}

/// The versions between two bounds.
#[derive(Clone, Copy, PartialEq, Eq, Hash, Debug, Structural)]
pub struct Range {
    pub lower: Bound,
    pub upper: Bound,
}

impl View for Range {
    type V = Set<Version>;

    /// The versions that the range holds.
    open spec fn view(&self) -> Set<Version> {
        Set::new(|v: Version| self.lower.admits_above(v) && self.upper.admits_below(v))
    }
}

impl DeepView for Range {
    type V = Range;

    open spec fn deep_view(&self) -> Range {
        *self
    }
}

impl Range {
    pub fn new(lower: Bound, upper: Bound) -> (r: Range)
        ensures
            r == (Range { lower, upper }),
    {
        Range { lower, upper }
    }

    /// The text of the range: the conditions that its bounds put on `v`, such as
    /// `1.0.0 <= v < 2.0.0`.
    pub open spec fn text(self) -> Seq<char> {
        (match self.lower {
            Bound::Unbounded => Seq::empty(),
            Bound::Inclusive(v) => v.text() + " <= "@,
            Bound::Exclusive(v) => v.text() + " < "@,
        }) + "v"@ + (match self.upper {
            Bound::Unbounded => Seq::empty(),
            Bound::Inclusive(v) => " <= "@ + v.text(),
            Bound::Exclusive(v) => " < "@ + v.text(),
        })
    }

    /// The range that `s` stands for: a version, `<` or `<=`, the letter `v`,
    /// `<` or `<=`, and another version, each separated by one space.
    pub open spec fn read(s: Seq<char>) -> Option<Range> {
        let parts = text::pieces(s, ' ');
        if parts.len() != 5 || parts[2] != "v"@ {
            None
        } else {
            match (Version::read(parts[0]), Version::read(parts[4])) {
                (Some(lower), Some(upper)) => match (
                    Bound::at(parts[1], lower),
                    Bound::at(parts[3], upper),
                ) {
                    (Some(lower), Some(upper)) => Some(Range { lower, upper }),
                    _ => None,
                },
                _ => None,
            }
        }
    }

    /// Writes the range, such as `1.0.0 <= v < 2.0.0`.
    pub fn to_text(&self) -> (r: String)
        ensures
            r@ == self.text(),
    {
        let mut r: String = String::new();
        match self.lower {
            Bound::Unbounded => {},
            Bound::Inclusive(v) => {
                r.append(v.to_text().as_str());
                r.append(" <= ");
            },
            Bound::Exclusive(v) => {
                r.append(v.to_text().as_str());
                r.append(" < ");
            },
        }
        r.append("v");
        match self.upper {
            Bound::Unbounded => {},
            Bound::Inclusive(v) => {
                r.append(" <= ");
                r.append(v.to_text().as_str());
            },
            Bound::Exclusive(v) => {
                r.append(" < ");
                r.append(v.to_text().as_str());
            },
        }
        assert(r@ =~= self.text());
        r
    }

    /// Reads a range such as `1.0.0 <= v < 2.0.0`.
    pub fn parse(s: &str) -> (r: Option<Range>)
        ensures
            r == Range::read(s@),
    {
        let parts: Vec<String> = text::split(s, ' ');
        assert(parts.deep_view().len() == parts.len());
        if parts.len() != 5 {
            return None;
        }
        assert forall|i: int| 0 <= i < 5 implies parts.deep_view()[i] == #[trigger] parts[i]@ by {}
        if !text::same(parts[2].as_str(), "v") {
            return None;
        }
        match (Version::parse(parts[0].as_str()), Version::parse(parts[4].as_str())) {
            (Some(lower), Some(upper)) => match (
                Bound::parse_at(parts[1].as_str(), lower),
                Bound::parse_at(parts[3].as_str(), upper),
            ) {
                (Some(lower), Some(upper)) => Some(Range { lower, upper }),
                _ => None,
            },
            _ => None,
        }
    }

    /// The constraint that a version satisfies when the range holds it.
    pub fn to_constraint(&self) -> (r: Constraint)
        ensures
            r.ranges() == seq![*self],
            r@ == self@,
    {
        Constraint::of_range(*self)
    }

    /// Whether the range holds `v`.
    pub fn contains(&self, v: &Version) -> (b: bool)
        ensures
            b == self@.contains(*v),
    {
        self.lower.lets_above(v) && self.upper.lets_below(v)
    }
}

/// Reading a range that is bounded on both sides back from its text gives the
/// range.
pub proof fn lemma_range_text_reads_back(range: Range)
    requires
        !(range.lower is Unbounded),
        !(range.upper is Unbounded),
    ensures
        Range::read(range.text()) == Some(range),
{
    reveal_strlit("v");
    reveal_strlit("<");
    reveal_strlit("<=");
    reveal_strlit(" < ");
    reveal_strlit(" <= ");
    let (v, low_sign) = match range.lower {
        Bound::Inclusive(v) => (v, "<="@),
        Bound::Exclusive(v) => (v, "<"@),
        Bound::Unbounded => arbitrary(),
    };
    let (w, up_sign) = match range.upper {
        Bound::Inclusive(w) => (w, "<="@),
        Bound::Exclusive(w) => (w, "<"@),
        Bound::Unbounded => arbitrary(),
    };
    assert forall|i: int| 0 <= i < v.text().len() implies v.text()[i] != ' ' by {
        version::lemma_version_text_characters(v, i);
    }
    assert forall|i: int| 0 <= i < w.text().len() implies w.text()[i] != ' ' by {
        version::lemma_version_text_characters(w, i);
    }
    let one = v.text();
    let two = one.push(' ') + low_sign;
    let three = two.push(' ') + "v"@;
    let four = three.push(' ') + up_sign;
    text::lemma_single_piece(one, ' ');
    text::lemma_last_piece(one, low_sign, ' ');
    text::lemma_last_piece(two, "v"@, ' ');
    text::lemma_last_piece(three, up_sign, ' ');
    text::lemma_last_piece(four, w.text(), ' ');
    assert(range.text() =~= four.push(' ') + w.text());
    version::lemma_version_text_reads_back(v);
    version::lemma_version_text_reads_back(w);
    assert("<"@.len() != "<="@.len());
}

/// A range holds the versions between its bounds: none before the lower one,
/// none after the upper one, and a bound itself exactly where it is inclusive.
pub proof fn lemma_range_holds_what_is_between(range: Range, v: Version)
    ensures
        range@.contains(v) <==> {
            &&& match range.lower {
                Bound::Unbounded => true,
                Bound::Inclusive(b) => !v.before(b),
                Bound::Exclusive(b) => !v.before(b) && v != b,
            }
            &&& match range.upper {
                Bound::Unbounded => true,
                Bound::Inclusive(b) => !b.before(v),
                Bound::Exclusive(b) => !b.before(v) && v != b,
            }
        },
        range.deep_view() == range,
{
    if let Bound::Inclusive(b) | Bound::Exclusive(b) = range.lower {
        version::lemma_version_order(v, b, v);
    }
    if let Bound::Inclusive(b) | Bound::Exclusive(b) = range.upper {
        version::lemma_version_order(v, b, v);
    }
}

/// What is on one side of a bound is not on the other: seen from the other side,
/// a bound lets through what it kept out.
pub proof fn lemma_opposite_keeps_the_rest(bound: Bound, v: Version)
    requires
        !(bound is Unbounded),
    ensures
        bound.opposite().admits_below(v) <==> !bound.admits_above(v),
        bound.opposite().admits_above(v) <==> !bound.admits_below(v),
        bound.opposite().opposite() == bound,
{
    if let Bound::Inclusive(b) | Bound::Exclusive(b) = bound {
        version::lemma_version_order(v, b, v);
    }
}

/// How ranges are written, and what is read from that: `<=` is for a bound that
/// the range holds, and `<` for one that it does not hold.
pub proof fn lemma_range_between_two_versions(v: Version, w: Version)
    ensures
        ({
            let range = Range { lower: Bound::Inclusive(v), upper: Bound::Inclusive(w) };
            let s = v.text() + " <= v <= "@ + w.text();
            range.text() == s && Range::read(s) == Some(range)
        }),
        ({
            let range = Range { lower: Bound::Inclusive(v), upper: Bound::Exclusive(w) };
            let s = v.text() + " <= v < "@ + w.text();
            range.text() == s && Range::read(s) == Some(range)
        }),
        ({
            let range = Range { lower: Bound::Exclusive(v), upper: Bound::Inclusive(w) };
            let s = v.text() + " < v <= "@ + w.text();
            range.text() == s && Range::read(s) == Some(range)
        }),
        ({
            let range = Range { lower: Bound::Exclusive(v), upper: Bound::Exclusive(w) };
            let s = v.text() + " < v < "@ + w.text();
            range.text() == s && Range::read(s) == Some(range)
        }),
{
    reveal_strlit("v");
    reveal_strlit(" < ");
    reveal_strlit(" <= ");
    reveal_strlit(" <= v <= ");
    reveal_strlit(" <= v < ");
    reveal_strlit(" < v <= ");
    reveal_strlit(" < v < ");
    let both = Range { lower: Bound::Inclusive(v), upper: Bound::Inclusive(w) };
    let first = Range { lower: Bound::Inclusive(v), upper: Bound::Exclusive(w) };
    let second = Range { lower: Bound::Exclusive(v), upper: Bound::Inclusive(w) };
    let neither = Range { lower: Bound::Exclusive(v), upper: Bound::Exclusive(w) };
    lemma_range_text_reads_back(both);
    lemma_range_text_reads_back(first);
    lemma_range_text_reads_back(second);
    lemma_range_text_reads_back(neither);
    assert(both.text() =~= v.text() + " <= v <= "@ + w.text());
    assert(first.text() =~= v.text() + " <= v < "@ + w.text());
    assert(second.text() =~= v.text() + " < v <= "@ + w.text());
    assert(neither.text() =~= v.text() + " < v < "@ + w.text());
}

/// How a range that is open on a side is written: the condition of that side is
/// left out.
pub proof fn lemma_open_range_text(v: Version)
    ensures
        (Range { lower: Bound::Unbounded, upper: Bound::Unbounded }).text() == "v"@,
        (Range { lower: Bound::Inclusive(v), upper: Bound::Unbounded }).text() == v.text() + " <= v"@,
        (Range { lower: Bound::Exclusive(v), upper: Bound::Unbounded }).text() == v.text() + " < v"@,
        (Range { lower: Bound::Unbounded, upper: Bound::Inclusive(v) }).text() == "v <= "@ + v.text(),
        (Range { lower: Bound::Unbounded, upper: Bound::Exclusive(v) }).text() == "v < "@ + v.text(),
{
    reveal_strlit("v");
    reveal_strlit(" < ");
    reveal_strlit(" <= ");
    reveal_strlit(" <= v");
    reveal_strlit(" < v");
    reveal_strlit("v <= ");
    reveal_strlit("v < ");
    let open = Range { lower: Bound::Unbounded, upper: Bound::Unbounded };
    let from = Range { lower: Bound::Inclusive(v), upper: Bound::Unbounded };
    let after = Range { lower: Bound::Exclusive(v), upper: Bound::Unbounded };
    let until = Range { lower: Bound::Unbounded, upper: Bound::Inclusive(v) };
    let below = Range { lower: Bound::Unbounded, upper: Bound::Exclusive(v) };
    assert(open.text() =~= "v"@);
    assert(from.text() =~= v.text() + " <= v"@);
    assert(after.text() =~= v.text() + " < v"@);
    assert(until.text() =~= "v <= "@ + v.text());
    assert(below.text() =~= "v < "@ + v.text());
}

/// Text is a range exactly when it has five pieces with spaces between them: a
/// version, a sign, the letter `v`, a sign and a version. The range then has the
/// first version below, the second above, and the bounds that the signs say.
pub proof fn lemma_range_needs_five_pieces(s: Seq<char>)
    ensures
        ({
            let parts = text::pieces(s, ' ');
            Range::read(s) is Some <==> {
                &&& parts.len() == 5
                &&& Version::read(parts[0]) is Some
                &&& parts[1] == "<="@ || parts[1] == "<"@
                &&& parts[2] == "v"@
                &&& parts[3] == "<="@ || parts[3] == "<"@
                &&& Version::read(parts[4]) is Some
            }
        }),
        Range::read(s) matches Some(range) ==> {
            let parts = text::pieces(s, ' ');
            &&& match range.lower {
                Bound::Unbounded => false,
                Bound::Inclusive(v) => parts[1] == "<="@ && Version::read(parts[0]) == Some(v),
                Bound::Exclusive(v) => parts[1] == "<"@ && Version::read(parts[0]) == Some(v),
            }
            &&& match range.upper {
                Bound::Unbounded => false,
                Bound::Inclusive(v) => parts[3] == "<="@ && Version::read(parts[4]) == Some(v),
                Bound::Exclusive(v) => parts[3] == "<"@ && Version::read(parts[4]) == Some(v),
            }
        },
{
}

/// A range that is bounded on both sides, and is written and then read, is the
/// range.
pub proof fn lemma_parse_after_to_text(range: Range, written: String, s: &str, r: Option<Range>)
    requires
        !(range.lower is Unbounded),
        !(range.upper is Unbounded),
        call_ensures(Range::to_text, (&range,), written),
        s@ == written@,
        call_ensures(Range::parse, (s,), r),
    ensures
        r == Some(range),
{
    lemma_range_text_reads_back(range);
}

/// A range from one version up to another contains what is between them by the
/// numbers: the first version, and not the second one.
pub proof fn lemma_contains_by_numbers(low: Version, high: Version, v: Version, b: bool)
    requires
        call_ensures(
            Range::contains,
            (&Range { lower: Bound::Inclusive(low), upper: Bound::Exclusive(high) }, &v),
            b,
        ),
    ensures
        b <==> {
            &&& {
                ||| low.major < v.major
                ||| low.major == v.major && low.minor < v.minor
                ||| low.major == v.major && low.minor == v.minor && low.patch <= v.patch
            }
            &&& {
                ||| v.major < high.major
                ||| v.major == high.major && v.minor < high.minor
                ||| v.major == high.major && v.minor == high.minor && v.patch < high.patch
            }
        },
{
}

/// The constraint of a range is satisfied by what the range contains.
pub proof fn lemma_constraint_of_range(range: Range, c: Constraint, v: Version, a: bool, b: bool)
    requires
        call_ensures(Range::to_constraint, (&range,), c),
        call_ensures(Range::contains, (&range, &v), a),
        call_ensures(Constraint::satisfies, (&c, &v), b),
    ensures
        a == b,
{
}

} // verus!
