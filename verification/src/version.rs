//! Interpreter versions and the ranges of them that a lock may require.

use vstd::prelude::*;

verus! {

/// How two versions stand to each other.
#[derive(Clone, Copy, Debug, PartialEq, Eq, Structural)]
pub enum Order {
    Before,
    Same,
    After,
}

/// Segment `i` of a release; a release is followed by zeros without end.
pub open spec fn segment(release: Seq<u64>, i: int) -> u64 {
    if 0 <= i < release.len() {
        release[i]
    } else {
        0
    }
}

/// The order of two releases, told by their segments from `i` on.
pub open spec fn order_from(a: Seq<u64>, b: Seq<u64>, i: int) -> Order
    decreases
        if i < a.len() || i < b.len() {
            (if a.len() > b.len() { a.len() } else { b.len() }) - i
        } else {
            0
        },
{
    if i < 0 || (i >= a.len() && i >= b.len()) {
        Order::Same
    } else if segment(a, i) < segment(b, i) {
        Order::Before
    } else if segment(a, i) > segment(b, i) {
        Order::After
    } else {
        order_from(a, b, i + 1)
    }
}

/// The order of two releases: that of the first segment in which they
/// differ, `3.9` and `3.9.0` being the same.
pub open spec fn release_order(a: Seq<u64>, b: Seq<u64>) -> Order {
    order_from(a, b, 0)
}

/// A release is the same as itself.
pub proof fn law_order_reflexive(a: Seq<u64>, i: int)
    ensures
        order_from(a, a, i) == Order::Same,
    decreases a.len() - i,
{
    if 0 <= i < a.len() {
        law_order_reflexive(a, i + 1);
    }
}

/// One release is before another exactly where the other is after it, and
/// the same exactly where the other is the same.
pub proof fn law_order_mirrored(a: Seq<u64>, b: Seq<u64>, i: int)
    ensures
        order_from(a, b, i) == Order::Before <==> order_from(b, a, i) == Order::After,
        order_from(a, b, i) == Order::Same <==> order_from(b, a, i) == Order::Same,
    decreases
        if i < a.len() || i < b.len() {
            (if a.len() > b.len() { a.len() } else { b.len() }) - i
        } else {
            0
        },
{
    if i >= 0 && (i < a.len() || i < b.len()) && segment(a, i) == segment(b, i) {
        law_order_mirrored(a, b, i + 1);
    }
}

/// An interpreter version: its release segments, most significant first.
#[derive(Clone, Debug, PartialEq, Eq)]
pub struct Version {
    pub release: Vec<u64>,
}

impl View for Version {
    type V = Seq<u64>;

    open spec fn view(&self) -> Seq<u64> {
        self.release@
    }
}

impl Version {
    /// The version with the given release segments.
    pub fn new(release: Vec<u64>) -> (version: Version)
        ensures
            version@ == release@,
    {
        Version { release }
    }

    /// A copy of this version.
    pub fn duplicate(&self) -> (copy: Version)
        ensures
            copy@ == self@,
    {
        let mut release: Vec<u64> = Vec::new();
        let mut i: usize = 0;
        while i < self.release.len()
            invariant
                i <= self.release.len(),
                release@ == self.release@.subrange(0, i as int),
            decreases self.release.len() - i,
        {
            release.push(self.release[i]);
            assert(release@ == self.release@.subrange(0, i + 1));
            i = i + 1;
        }
        assert(release@ == self.release@);
        Version { release }
    }

    /// How this version stands to `other`.
    pub fn compare(&self, other: &Version) -> (order: Order)
        ensures
            order == release_order(self@, other@),
    {
        let n: usize = if self.release.len() > other.release.len() {
            self.release.len()
        } else {
            other.release.len()
        };
        let mut i: usize = 0;
        while i < n
            invariant
                i <= n,
                n == if self@.len() > other@.len() {
                    self@.len()
                } else {
                    other@.len()
                },
                release_order(self@, other@) == order_from(self@, other@, i as int),
            decreases n - i,
        {
            let x: u64 = if i < self.release.len() {
                self.release[i]
            } else {
                0
            };
            let y: u64 = if i < other.release.len() {
                other.release[i]
            } else {
                0
            };
            if x < y {
                return Order::Before;
            }
            if x > y {
                return Order::After;
            }
            i = i + 1;
        }
        Order::Same
    }
}

/// The side of a version on which a bound lies.
#[derive(Clone, Copy, Debug, PartialEq, Eq, Structural)]
pub enum Comparator {
    /// `>=`
    AtLeast,
    /// `>`
    Above,
    /// `<=`
    AtMost,
    /// `<`
    Below,
    /// `==`
    Exactly,
    /// `!=`
    Except,
}

/// Whether a version that stands as `order` to a bound's version meets the
/// bound.
pub open spec fn meets(how: Comparator, order: Order) -> bool {
    match how {
        Comparator::AtLeast => order != Order::Before,
        Comparator::Above => order == Order::After,
        Comparator::AtMost => order != Order::After,
        Comparator::Below => order == Order::Before,
        Comparator::Exactly => order == Order::Same,
        Comparator::Except => order != Order::Same,
    }
}

/// One clause of a range, such as `>=3.9`.
#[derive(Clone, Debug, PartialEq, Eq)]
pub struct Bound {
    pub how: Comparator,
    pub version: Version,
}

/// What a bound is in contracts.
pub struct BoundView {
    pub how: Comparator,
    pub version: Seq<u64>,
}

impl View for Bound {
    type V = BoundView;

    open spec fn view(&self) -> BoundView {
        BoundView { how: self.how, version: self.version@ }
    }
}

impl BoundView {
    /// Whether the bound admits `version`.
    pub open spec fn admits(self, version: Seq<u64>) -> bool {
        meets(self.how, release_order(version, self.version))
    }
}

impl Bound {
    /// The bound `how` `version`.
    pub fn new(how: Comparator, version: Version) -> (bound: Bound)
        ensures
            bound@ == (BoundView { how, version: version@ }),
    {
        Bound { how, version }
    }

    /// Whether the bound admits `version`.
    pub fn admits(&self, version: &Version) -> (yes: bool)
        ensures
            yes == self@.admits(version@),
    {
        let order = version.compare(&self.version);
        match self.how {
            Comparator::AtLeast => order != Order::Before,
            Comparator::Above => order == Order::After,
            Comparator::AtMost => order != Order::After,
            Comparator::Below => order == Order::Before,
            Comparator::Exactly => order == Order::Same,
            Comparator::Except => order != Order::Same,
        }
    }

    /// A copy of this bound.
    pub fn duplicate(&self) -> (copy: Bound)
        ensures
            copy@ == self@,
    {
        Bound { how: self.how, version: self.version.duplicate() }
    }
}

/// A range of versions: those that every one of its bounds admits.
#[derive(Clone, Debug, PartialEq, Eq)]
pub struct VersionRange {
    pub bounds: Vec<Bound>,
}

impl View for VersionRange {
    type V = Seq<BoundView>;

    open spec fn view(&self) -> Seq<BoundView> {
        Seq::new(self.bounds@.len(), |i: int| self.bounds@[i]@)
    }
}

/// Whether every bound of `range` admits `version`.
pub open spec fn range_contains(range: Seq<BoundView>, version: Seq<u64>) -> bool {
    forall|i: int| 0 <= i < range.len() ==> (#[trigger] range[i]).admits(version)
}

impl VersionRange {
    /// The range with the given bounds.
    pub fn new(bounds: Vec<Bound>) -> (range: VersionRange)
        ensures
            range.bounds@ == bounds@,
    {
        VersionRange { bounds }
    }

    /// Whether `version` lies in the range.
    pub fn contains(&self, version: &Version) -> (yes: bool)
        ensures
            yes == range_contains(self@, version@),
    {
        let mut i: usize = 0;
        while i < self.bounds.len()
            invariant
                i <= self.bounds.len(),
                forall|j: int| 0 <= j < i ==> (#[trigger] self@[j]).admits(version@),
            decreases self.bounds.len() - i,
        {
            if !self.bounds[i].admits(version) {
                assert(!self@[i as int].admits(version@));
                return false;
            }
            i = i + 1;
        }
        true
    }

    /// A copy of this range.
    pub fn duplicate(&self) -> (copy: VersionRange)
        ensures
            copy@ == self@,
    {
        let mut bounds: Vec<Bound> = Vec::new();
        let mut i: usize = 0;
        while i < self.bounds.len()
            invariant
                i <= self.bounds.len(),
                bounds@.len() == i,
                forall|j: int| 0 <= j < i ==> (#[trigger] bounds@[j])@ == self.bounds@[j]@,
            decreases self.bounds.len() - i,
        {
            bounds.push(self.bounds[i].duplicate());
            i = i + 1;
        }
        let copy = VersionRange { bounds };
        assert(copy@ =~= self@);
        copy
    }
}

} // verus!
