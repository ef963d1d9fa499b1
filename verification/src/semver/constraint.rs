//! Sets of acceptable versions.

use crate::semver::range::{Bound, Range};
use crate::semver::version::Version;
use vstd::prelude::*;

verus! {

/// A set of versions, held as a list of ranges. A version satisfies the
/// constraint when one of the ranges holds it.
#[derive(Debug)]
pub struct Constraint {
    ranges: Vec<Range>,
}

/// The versions that at least one of the ranges holds.
pub open spec fn in_some_range(ranges: Seq<Range>) -> Set<Version> {
    Set::new(|v: Version| exists|i: int| 0 <= i < ranges.len() && (#[trigger] ranges[i])@.contains(v))
}

/// The texts of the ranges, separated by ` || `.
pub open spec fn ranges_text(ranges: Seq<Range>) -> Seq<char>
    decreases ranges.len(),
{
    if ranges.len() == 0 {
        Seq::empty()
    } else if ranges.len() == 1 {
        ranges[0].text()
    } else {
        ranges_text(ranges.drop_last()) + " || "@ + ranges.last().text()
    }
}

impl View for Constraint {
    type V = Set<Version>;

    /// The versions that satisfy the constraint.
    open spec fn view(&self) -> Set<Version> {
        in_some_range(self.ranges())
    }
}

impl DeepView for Constraint {
    type V = Set<Version>;

    open spec fn deep_view(&self) -> Set<Version> {
        self@
    }
}

impl Clone for Constraint {
    fn clone(&self) -> (r: Self)
        ensures
            r.ranges() == self.ranges(),
            r@ == self@,
    {
        let ranges: Vec<Range> = self.ranges.clone();
        assert(ranges@ =~= self.ranges@);
        Constraint { ranges }
    }
}

impl Constraint {
    /// The ranges that make up the constraint.
    pub closed spec fn ranges(self) -> Seq<Range> {
        self.ranges@
    }

    /// The constraint that no version satisfies.
    pub fn empty() -> (r: Constraint)
        ensures
            r.ranges() == Seq::<Range>::empty(),
            r@ == Set::<Version>::empty(),
    {
        let r = Constraint { ranges: Vec::new() };
        assert(r@ =~= Set::<Version>::empty());
        r
    }

    /// The constraint that a version satisfies when `range` holds it.
    pub fn of_range(range: Range) -> (r: Constraint)
        ensures
            r.ranges() == seq![range],
            r@ == range@,
    {
        let mut ranges: Vec<Range> = Vec::new();
        ranges.push(range);
        let r = Constraint { ranges };
        assert(r.ranges() =~= seq![range]);
        assert forall|v: Version| range@.contains(v) implies #[trigger] r@.contains(v) by {
            assert(r.ranges()[0]@.contains(v));
        }
        assert(r@ =~= range@);
        r
    }

    /// Whether `v` satisfies the constraint.
    pub fn satisfies(&self, v: &Version) -> (b: bool)
        ensures
            b == self@.contains(*v),
    {
        let mut i: usize = 0;
        while i < self.ranges.len()
            invariant
                i <= self.ranges.len(),
                forall|j: int| 0 <= j < i ==> !(#[trigger] self.ranges()[j])@.contains(*v),
            decreases self.ranges.len() - i,
        {
            if self.ranges[i].contains(v) {
                assert(self.ranges()[i as int]@.contains(*v));
                return true;
            }
            i = i + 1;
        }
        false
    }

    /// The text of the constraint: its ranges, or `none` where there are none.
    pub open spec fn text(self) -> Seq<char> {
        if self.ranges().len() == 0 {
            "none"@
        } else {
            ranges_text(self.ranges())
        }
    }

    /// Writes the constraint.
    pub fn to_text(&self) -> (r: String)
        ensures
            r@ == self.text(),
    {
        if self.ranges.len() == 0 {
            return "none".to_owned();
        }
        let mut r: String = self.ranges[0].to_text();
        let mut i: usize = 1;
        assert(self.ranges().take(1) =~= seq![self.ranges()[0]]);
        while i < self.ranges.len()
            invariant
                1 <= i <= self.ranges.len(),
                r@ == ranges_text(self.ranges().take(i as int)),
            decreases self.ranges.len() - i,
        {
            r.append(" || ");
            r.append(self.ranges[i].to_text().as_str());
            assert(self.ranges().take(i + 1).drop_last() =~= self.ranges().take(i as int));
            i = i + 1;
        }
        assert(self.ranges().take(self.ranges.len() as int) =~= self.ranges());
        r
    }

    /// The constraint that exactly the versions satisfy that do not satisfy this one.
    pub fn complement(&self) -> (r: Constraint)
        ensures
            r@ == self@.complement(),
    {
        let mut left: Vec<Range> = Vec::new();
        left.push(Range::new(Bound::Unbounded, Bound::Unbounded));
        let mut i: usize = 0;
        proof {
            assert forall|v: Version| #[trigger] in_some_range(left@).contains(v) by {
                assert(left@[0]@.contains(v));
            }
        }
        while i < self.ranges.len()
            invariant
                i <= self.ranges.len(),
                in_some_range(left@) == in_some_range(self.ranges().take(i as int)).complement(),
            decreases self.ranges.len() - i,
        {
            left = without(&left, self.ranges[i]);
            proof {
                let seen = self.ranges().take(i as int);
                let now = self.ranges().take(i + 1);
                assert(now =~= seen.push(self.ranges()[i as int]));
                lemma_push_range(seen, self.ranges()[i as int]);
                assert(in_some_range(left@) =~= in_some_range(now).complement());
            }
            i = i + 1;
        }
        assert(self.ranges().take(self.ranges.len() as int) =~= self.ranges());
        Constraint { ranges: left }
    }
}

/// What is left of `ranges` once the versions of `gone` are taken out.
fn without(ranges: &Vec<Range>, gone: Range) -> (r: Vec<Range>)
    ensures
        in_some_range(r@) == in_some_range(ranges@).difference(gone@),
{
    let mut r: Vec<Range> = Vec::new();
    let mut i: usize = 0;
    assert(in_some_range(r@) =~= in_some_range(ranges@.take(0)).difference(gone@));
    while i < ranges.len()
        invariant
            i <= ranges.len(),
            in_some_range(r@) == in_some_range(ranges@.take(i as int)).difference(gone@),
        decreases ranges.len() - i,
    {
        let range: Range = ranges[i];
        let ghost start = r@;
        if !matches!(gone.lower, Bound::Unbounded) {
            r.push(Range::new(range.lower, Bound::lower_upper(range.upper, gone.lower.flip())));
        }
        let ghost middle = r@;
        if !matches!(gone.upper, Bound::Unbounded) {
            r.push(Range::new(Bound::higher_lower(range.lower, gone.upper.flip()), range.upper));
        }
        proof {
            assert(ranges@.take(i + 1) =~= ranges@.take(i as int).push(range));
            lemma_push_range(ranges@.take(i as int), range);
            if middle.len() > start.len() {
                lemma_push_range(start, middle.last());
            }
            if r@.len() > middle.len() {
                lemma_push_range(middle, r@.last());
            }
            assert(in_some_range(r@) =~= in_some_range(ranges@.take(i + 1)).difference(gone@));
        }
        i = i + 1;
    }
    assert(ranges@.take(ranges.len() as int) =~= ranges@);
    r
}

/// The complement of the complement of a constraint has the versions of the
/// constraint: `once` is what `complement` makes of `c`, and `twice` is what it
/// makes of `once`.
pub proof fn lemma_complement_twice(c: Constraint, once: Constraint, twice: Constraint)
    requires
        call_ensures(Constraint::complement, (&c,), once),
        call_ensures(Constraint::complement, (&once,), twice),
    ensures
        twice@ == c@,
{
    assert(twice@ =~= c@);
}

/// One more range adds the versions that it holds.
proof fn lemma_push_range(ranges: Seq<Range>, range: Range)
    ensures
        in_some_range(ranges.push(range)) == in_some_range(ranges).union(range@),
{
    let more = ranges.push(range);
    assert forall|v: Version| #[trigger]
        in_some_range(more).contains(v) <==> in_some_range(ranges).contains(v) || range@.contains(
            v,
        ) by {
        if in_some_range(ranges).contains(v) {
            let j = choose|j: int| 0 <= j < ranges.len() && (#[trigger] ranges[j])@.contains(v);
            assert(more[j] == ranges[j]);
        }
        if range@.contains(v) {
            assert(more[ranges.len() as int]@.contains(v));
        }
        if in_some_range(more).contains(v) {
            let j = choose|j: int| 0 <= j < more.len() && (#[trigger] more[j])@.contains(v);
            if j < ranges.len() {
                assert(ranges[j] == more[j]);
            }
        }
    }
    assert(in_some_range(more) =~= in_some_range(ranges).union(range@));
}

/// A version satisfies a constraint exactly when one of the ranges that make it
/// up holds the version.
pub proof fn lemma_constraint_holds_what_a_range_holds(c: Constraint, v: Version)
    ensures
        c@.contains(v) <==> exists|i: int|
            0 <= i < c.ranges().len() && (#[trigger] c.ranges()[i])@.contains(v),
        c.deep_view() == c@,
{
}

/// How constraints are written: `none` where there is no range, the range where
/// there is one, and each further one behind ` || `.
pub proof fn lemma_constraint_text(c: Constraint, more: Constraint, range: Range)
    requires
        more.ranges() == c.ranges().push(range),
    ensures
        c.ranges().len() == 0 ==> c.text() == "none"@ && more.text() == range.text(),
        c.ranges().len() > 0 ==> more.text() == c.text() + " || "@ + range.text(),
{
    assert(more.ranges().drop_last() =~= c.ranges());
}

/// A version satisfies either a constraint or its complement, and not both.
pub proof fn lemma_satisfies_one_of_both(
    c: Constraint,
    other: Constraint,
    v: Version,
    a: bool,
    b: bool,
)
    requires
        call_ensures(Constraint::complement, (&c,), other),
        call_ensures(Constraint::satisfies, (&c, &v), a),
        call_ensures(Constraint::satisfies, (&other, &v), b),
    ensures
        a != b,
{
}

/// A version satisfies a constraint exactly when one of its ranges holds it, and
/// no version satisfies the constraint without ranges.
pub proof fn lemma_satisfies(c: Constraint, v: Version, b: bool, none: Constraint, never: bool)
    requires
        call_ensures(Constraint::satisfies, (&c, &v), b),
        call_ensures(Constraint::empty, (), none),
        call_ensures(Constraint::satisfies, (&none, &v), never),
    ensures
        b <==> exists|i: int| 0 <= i < c.ranges().len() && (#[trigger] c.ranges()[i])@.contains(v),
        !never,
{
}

} // verus!
