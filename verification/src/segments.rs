//! The segment intersection test and the test of two outlines.
//!
//! Two segments `(a, b)` and `(c, d)` are tested by four orientations, each
//! the side of one end point relative to the line through the other
//! segment: `o1 = orient(a, b, c)`, `o2 = orient(a, b, d)`,
//! `o3 = orient(c, d, a)` and `o4 = orient(c, d, b)`. The segments meet if
//! both pairs of end points lie strictly on opposite sides, or if an end
//! point counts as lying on the other segment's line and lies inside that
//! segment's bounding box.
//!
//! The library decides; the caller measures. It says for three points on
//! which [`Side`] of the line through the first two the third lies (the sign
//! of a cross product, with a small tolerance), and whether the third lies
//! in the bounding box of the first two, grown by the same tolerance.

use vstd::prelude::*;

verus! {

/// Where a point lies relative to the line through a segment, as measured by
/// an orientation value `o` and a tolerance `eps`.
#[derive(Copy, Clone, Debug, PartialEq, Eq, Structural)]
pub enum Side {
    /// `o > eps`.
    Positive,
    /// `o < -eps`.
    Negative,
    /// `|o| <= eps`: the point counts as lying on the line.
    Collinear,
    /// None of the three comparisons holds (the value is not a number).
    Unordered,
}

/// The findings for one pair of segments `(a, b)` and `(c, d)`.
#[derive(Copy, Clone, Debug, PartialEq, Eq, Structural)]
pub struct SegmentTests {
    /// Side of `c` relative to `(a, b)`.
    pub o1: Side,
    /// Side of `d` relative to `(a, b)`.
    pub o2: Side,
    /// Side of `a` relative to `(c, d)`.
    pub o3: Side,
    /// Side of `b` relative to `(c, d)`.
    pub o4: Side,
    /// `c` lies in the grown bounding box of `(a, b)`.
    pub c_in_ab: bool,
    /// `d` lies in the grown bounding box of `(a, b)`.
    pub d_in_ab: bool,
    /// `a` lies in the grown bounding box of `(c, d)`.
    pub a_in_cd: bool,
    /// `b` lies in the grown bounding box of `(c, d)`.
    pub b_in_cd: bool,
}

/// The two points lie strictly on opposite sides of a line.
pub open spec fn opposite(x: Side, y: Side) -> bool {
    (x == Side::Positive && y == Side::Negative) || (x == Side::Negative && y == Side::Positive)
}

/// A point touches a segment: it counts as lying on the segment's line and
/// is inside the segment's grown bounding box.
pub open spec fn touches(o: Side, in_box: bool) -> bool {
    o == Side::Collinear && in_box
}

impl SegmentTests {
    /// The segments cross strictly: the endpoints of each lie strictly on
    /// opposite sides of the other.
    pub open spec fn crosses(self) -> bool {
        opposite(self.o1, self.o2) && opposite(self.o3, self.o4)
    }

    /// One of the four endpoints touches the other segment.
    pub open spec fn grazes(self) -> bool {
        touches(self.o1, self.c_in_ab) || touches(self.o2, self.d_in_ab) || touches(
            self.o3,
            self.a_in_cd,
        ) || touches(self.o4, self.b_in_cd)
    }

    /// The segments meet: they cross strictly, or an endpoint of one touches
    /// the other.
    pub open spec fn intersects(self) -> bool {
        self.crosses() || self.grazes()
    }

    /// The findings for the same two segments given in the other order,
    /// `(c, d)` first and `(a, b)` second.
    pub open spec fn swapped(self) -> SegmentTests {
        SegmentTests {
            o1: self.o3,
            o2: self.o4,
            o3: self.o1,
            o4: self.o2,
            c_in_ab: self.a_in_cd,
            d_in_ab: self.b_in_cd,
            a_in_cd: self.c_in_ab,
            b_in_cd: self.d_in_ab,
        }
    }

    /// Exchanges the roles of the two segments.
    pub fn swap(self) -> (t: SegmentTests)
        ensures
            t == self.swapped(),
    {
        SegmentTests {
            o1: self.o3,
            o2: self.o4,
            o3: self.o1,
            o4: self.o2,
            c_in_ab: self.a_in_cd,
            d_in_ab: self.b_in_cd,
            a_in_cd: self.c_in_ab,
            b_in_cd: self.d_in_ab,
        }
    }
}

fn is_opposite(x: Side, y: Side) -> (r: bool)
    ensures
        r == opposite(x, y),
{
    match (x, y) {
        (Side::Positive, Side::Negative) => true,
        (Side::Negative, Side::Positive) => true,
        _ => false,
    }
}

fn is_touching(o: Side, in_box: bool) -> (r: bool)
    ensures
        r == touches(o, in_box),
{
    match o {
        Side::Collinear => in_box,
        _ => false,
    }
}

/// Decides whether two segments meet, from the findings about them.
pub fn decide(tests: SegmentTests) -> (hit: bool)
    ensures
        hit == tests.intersects(),
{
    if is_opposite(tests.o1, tests.o2) && is_opposite(tests.o3, tests.o4) {
        return true;
    }
    if is_touching(tests.o1, tests.c_in_ab) {
        return true;
    }
    if is_touching(tests.o2, tests.d_in_ab) {
        return true;
    }
    if is_touching(tests.o3, tests.a_in_cd) {
        return true;
    }
    if is_touching(tests.o4, tests.b_in_cd) {
        return true;
    }
    false
}

/// `tests` holds what the caller's measurements find for the segments
/// `(a, b)` and `(c, d)`: the four orientations as `orient` finds them, and
/// for each end point that counts as lying on the other segment's line
/// whether `on_segment` finds it in that segment's bounding box. Of an end
/// point off the line the box is not looked at.
pub open spec fn measured<P, O: Fn(&P, &P, &P) -> Side, W: Fn(&P, &P, &P) -> bool>(
    a: P,
    b: P,
    c: P,
    d: P,
    orient: O,
    on_segment: W,
    tests: SegmentTests,
) -> bool {
    &&& orient.ensures((&a, &b, &c), tests.o1)
    &&& orient.ensures((&a, &b, &d), tests.o2)
    &&& orient.ensures((&c, &d, &a), tests.o3)
    &&& orient.ensures((&c, &d, &b), tests.o4)
    &&& tests.o1 == Side::Collinear ==> on_segment.ensures((&a, &b, &c), tests.c_in_ab)
    &&& tests.o2 == Side::Collinear ==> on_segment.ensures((&a, &b, &d), tests.d_in_ab)
    &&& tests.o3 == Side::Collinear ==> on_segment.ensures((&c, &d, &a), tests.a_in_cd)
    &&& tests.o4 == Side::Collinear ==> on_segment.ensures((&c, &d, &b), tests.b_in_cd)
}

/// The test of `(a, b)` against `(c, d)` may end with `hit`: that is what
/// the findings of some round of measurements decide.
pub open spec fn may_find<P, O: Fn(&P, &P, &P) -> Side, W: Fn(&P, &P, &P) -> bool>(
    a: P,
    b: P,
    c: P,
    d: P,
    orient: O,
    on_segment: W,
    hit: bool,
) -> bool {
    exists|tests: SegmentTests| #[trigger]
        measured(a, b, c, d, orient, on_segment, tests) && hit == tests.intersects()
}

/// Asks `on_segment` about `p` if `p` counts as lying on the line through
/// `a` and `b`.
fn box_test<P, W: Fn(&P, &P, &P) -> bool>(side: Side, a: &P, b: &P, p: &P, on_segment: &W) -> (in_box:
    bool)
    requires
        forall|x: &P, y: &P, z: &P| on_segment.requires((x, y, z)),
    ensures
        side == Side::Collinear ==> on_segment.ensures((a, b, p), in_box),
{
    match side {
        Side::Collinear => on_segment(a, b, p),
        _ => false,
    }
}

/// Tells whether the segments `(a, b)` and `(c, d)` meet.
///
/// `orient` says on which side of the line through its first two points the
/// third lies. `on_segment` says whether the third point lies in the
/// bounding box of the first two; it is asked only about end points that
/// count as lying on the line.
///
/// The test is symmetric in the two segments: where each measurement gives
/// one answer for each triple of points, the test of `(c, d)` against
/// `(a, b)` can end in no other way.
pub fn seg_intersect<P, O: Fn(&P, &P, &P) -> Side, W: Fn(&P, &P, &P) -> bool>(
    a: &P,
    b: &P,
    c: &P,
    d: &P,
    orient: &O,
    on_segment: &W,
) -> (hit: bool)
    requires
        forall|x: &P, y: &P, z: &P| orient.requires((x, y, z)),
        forall|x: &P, y: &P, z: &P| on_segment.requires((x, y, z)),
    ensures
        may_find(*a, *b, *c, *d, *orient, *on_segment, hit),
        single_valued(*orient) && single_valued(*on_segment) ==> forall|other: bool| #[trigger]
            may_find(*c, *d, *a, *b, *orient, *on_segment, other) ==> other == hit,
{
    let o1 = orient(a, b, c);
    let o2 = orient(a, b, d);
    let o3 = orient(c, d, a);
    let o4 = orient(c, d, b);

    let tests = SegmentTests {
        o1,
        o2,
        o3,
        o4,
        c_in_ab: box_test(o1, a, b, c, on_segment),
        d_in_ab: box_test(o2, a, b, d, on_segment),
        a_in_cd: box_test(o3, c, d, a, on_segment),
        b_in_cd: box_test(o4, c, d, b, on_segment),
    };
    assert(measured(*a, *b, *c, *d, *orient, *on_segment, tests));
    proof {
        if single_valued(*orient) && single_valued(*on_segment) {
            assert forall|other: bool| #[trigger]
                may_find(*c, *d, *a, *b, *orient, *on_segment, other) implies other
                == tests.intersects() by {
                let swapped = choose|swapped: SegmentTests| #[trigger]
                    measured(*c, *d, *a, *b, *orient, *on_segment, swapped) && other
                        == swapped.intersects();
                lemma_seg_intersect_symmetric(
                    *a,
                    *b,
                    *c,
                    *d,
                    *orient,
                    *on_segment,
                    tests,
                    swapped,
                );
            }
        }
    }
    decide(tests)
}

/// The measurements may find that the `i`-th segment of the first outline
/// meets the `j`-th of the second (`meet`), or that it does not.
pub open spec fn pair_found<
    P,
    SA: Fn(usize) -> (P, P),
    SB: Fn(usize) -> (P, P),
    O: Fn(&P, &P, &P) -> Side,
    W: Fn(&P, &P, &P) -> bool,
>(segment_a: SA, segment_b: SB, orient: O, on_segment: W, i: usize, j: usize, meet: bool) -> bool {
    exists|s: (P, P), t: (P, P), tests: SegmentTests|
        {
            &&& segment_a.ensures((i,), s)
            &&& segment_b.ensures((j,), t)
            &&& #[trigger] measured(s.0, s.1, t.0, t.1, orient, on_segment, tests)
            &&& tests.intersects() == meet
        }
}

/// Decides whether two outlines touch: some segment of the first meets some
/// segment of the second.
///
/// The first outline has `count_a` segments, of which `segment_a` gives the
/// `i`-th with its end points, and the second has `count_b`, given by
/// `segment_b`. Each segment of the first is tested against each of the
/// second with [`seg_intersect`], in the order of `i` and then of `j`, and
/// no pair is tested after the first that meets.
pub fn outlines_touch<
    P,
    SA: Fn(usize) -> (P, P),
    SB: Fn(usize) -> (P, P),
    O: Fn(&P, &P, &P) -> Side,
    W: Fn(&P, &P, &P) -> bool,
>(
    count_a: usize,
    count_b: usize,
    segment_a: &SA,
    segment_b: &SB,
    orient: &O,
    on_segment: &W,
) -> (touch: bool)
    requires
        forall|i: usize| segment_a.requires((i,)),
        forall|j: usize| segment_b.requires((j,)),
        forall|x: &P, y: &P, z: &P| orient.requires((x, y, z)),
        forall|x: &P, y: &P, z: &P| on_segment.requires((x, y, z)),
    ensures
        touch ==> exists|i: usize, j: usize|
            i < count_a && j < count_b && #[trigger] pair_found(
                *segment_a,
                *segment_b,
                *orient,
                *on_segment,
                i,
                j,
                true,
            ),
        !touch ==> forall|i: usize, j: usize|
            i < count_a && j < count_b ==> #[trigger] pair_found(
                *segment_a,
                *segment_b,
                *orient,
                *on_segment,
                i,
                j,
                false,
            ),
{
    let mut i: usize = 0;
    while i < count_a
        invariant
            i <= count_a,
            forall|i: usize| segment_a.requires((i,)),
            forall|j: usize| segment_b.requires((j,)),
            forall|x: &P, y: &P, z: &P| orient.requires((x, y, z)),
            forall|x: &P, y: &P, z: &P| on_segment.requires((x, y, z)),
            forall|k: usize, l: usize|
                k < i && l < count_b ==> #[trigger] pair_found(
                    *segment_a,
                    *segment_b,
                    *orient,
                    *on_segment,
                    k,
                    l,
                    false,
                ),
        decreases count_a - i,
    {
        let (a, b) = segment_a(i);
        let mut j: usize = 0;
        while j < count_b
            invariant
                i < count_a,
                j <= count_b,
                segment_a.ensures((i,), (a, b)),
                forall|j: usize| segment_b.requires((j,)),
                forall|x: &P, y: &P, z: &P| orient.requires((x, y, z)),
                forall|x: &P, y: &P, z: &P| on_segment.requires((x, y, z)),
                forall|k: usize, l: usize|
                    (k < i && l < count_b) || (k == i && l < j) ==> #[trigger] pair_found(
                        *segment_a,
                        *segment_b,
                        *orient,
                        *on_segment,
                        k,
                        l,
                        false,
                    ),
            decreases count_b - j,
        {
            let (c, d) = segment_b(j);
            let meet = seg_intersect(&a, &b, &c, &d, orient, on_segment);
            proof {
                let tests = choose|tests: SegmentTests| #[trigger]
                    measured(a, b, c, d, *orient, *on_segment, tests) && meet
                        == tests.intersects();
                assert(measured((a, b).0, (a, b).1, (c, d).0, (c, d).1, *orient, *on_segment, tests));
                assert(pair_found(*segment_a, *segment_b, *orient, *on_segment, i, j, meet));
            }
            if meet {
                return true;
            }
            j += 1;
        }
        i += 1;
    }
    false
}

/// Whether two segments meet does not depend on the order in which the two
/// segments are given: the findings for the segments in the other order
/// decide alike.
pub proof fn lemma_intersect_symmetric(tests: SegmentTests)
    ensures
        tests.swapped().intersects() == tests.intersects(),
        tests.swapped().swapped() == tests,
{
}

/// The measurement gives one answer for each triple of points.
pub open spec fn single_valued<P, R, F: Fn(&P, &P, &P) -> R>(measure: F) -> bool {
    forall|x: P, y: P, z: P, one: R, other: R|
        #[trigger] measure.ensures((&x, &y, &z), one) && #[trigger] measure.ensures(
            (&x, &y, &z),
            other,
        ) ==> one == other
}

/// The intersection test is symmetric in the two segments: where each
/// measurement gives one answer for each triple of points, the test of
/// `(a, b)` against `(c, d)` and the test of `(c, d)` against `(a, b)` end
/// alike.
pub proof fn lemma_seg_intersect_symmetric<P, O: Fn(&P, &P, &P) -> Side, W: Fn(&P, &P, &P) -> bool>(
    a: P,
    b: P,
    c: P,
    d: P,
    orient: O,
    on_segment: W,
    one: SegmentTests,
    other: SegmentTests,
)
    requires
        single_valued(orient),
        single_valued(on_segment),
        measured(a, b, c, d, orient, on_segment, one),
        measured(c, d, a, b, orient, on_segment, other),
    ensures
        other.intersects() == one.intersects(),
{
    assert(other.o1 == one.o3);
    assert(other.o2 == one.o4);
    assert(other.o3 == one.o1);
    assert(other.o4 == one.o2);
}

} // verus!
