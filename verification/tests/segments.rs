use std::cell::Cell;

use asteroids::segments::{decide, outlines_touch, seg_intersect, SegmentTests, Side};

const EPS: f32 = 1e-6;

type P = (f32, f32);

fn side(a: &P, b: &P, c: &P) -> Side {
    let o = (b.0 - a.0) * (c.1 - a.1) - (b.1 - a.1) * (c.0 - a.0);
    if o > EPS {
        Side::Positive
    } else if o < -EPS {
        Side::Negative
    } else if o.abs() <= EPS {
        Side::Collinear
    } else {
        Side::Unordered
    }
}

fn in_box(a: &P, b: &P, p: &P) -> bool {
    let minx = a.0.min(b.0) - EPS;
    let maxx = a.0.max(b.0) + EPS;
    let miny = a.1.min(b.1) - EPS;
    let maxy = a.1.max(b.1) + EPS;
    p.0 >= minx && p.0 <= maxx && p.1 >= miny && p.1 <= maxy
}

fn measure(a: P, b: P, c: P, d: P) -> SegmentTests {
    SegmentTests {
        o1: side(&a, &b, &c),
        o2: side(&a, &b, &d),
        o3: side(&c, &d, &a),
        o4: side(&c, &d, &b),
        c_in_ab: in_box(&a, &b, &c),
        d_in_ab: in_box(&a, &b, &d),
        a_in_cd: in_box(&c, &d, &a),
        b_in_cd: in_box(&c, &d, &b),
    }
}

fn intersect(a: P, b: P, c: P, d: P) -> bool {
    let hit = seg_intersect(&a, &b, &c, &d, &side, &in_box);
    assert_eq!(hit, decide(measure(a, b, c, d)));
    hit
}

#[test]
fn crossing_segments_intersect() {
    assert!(intersect((0.0, 0.0), (2.0, 2.0), (0.0, 2.0), (2.0, 0.0)));
}

#[test]
fn parallel_segments_do_not_intersect() {
    assert!(!intersect((0.0, 0.0), (2.0, 0.0), (0.0, 1.0), (2.0, 1.0)));
}

#[test]
fn segments_that_would_cross_if_longer_do_not_intersect() {
    assert!(!intersect((0.0, 0.0), (1.0, 1.0), (3.0, 0.0), (2.0, 1.5)));
}

#[test]
fn a_shared_endpoint_counts_as_touching() {
    assert!(intersect((0.0, 0.0), (1.0, 1.0), (1.0, 1.0), (2.0, 0.0)));
}

#[test]
fn an_endpoint_on_the_other_segment_counts_as_touching() {
    assert!(intersect((0.0, 0.0), (4.0, 0.0), (2.0, 0.0), (2.0, 3.0)));
}

#[test]
fn collinear_overlapping_segments_intersect() {
    assert!(intersect((0.0, 0.0), (3.0, 0.0), (2.0, 0.0), (5.0, 0.0)));
}

#[test]
fn collinear_separate_segments_do_not_intersect() {
    assert!(!intersect((0.0, 0.0), (1.0, 0.0), (2.0, 0.0), (3.0, 0.0)));
}

#[test]
fn a_point_on_the_line_but_outside_the_box_does_not_touch() {
    let tests = SegmentTests {
        o1: Side::Collinear,
        o2: Side::Positive,
        o3: Side::Positive,
        o4: Side::Positive,
        c_in_ab: false,
        d_in_ab: true,
        a_in_cd: true,
        b_in_cd: true,
    };
    assert!(!decide(tests));
    assert!(decide(SegmentTests { c_in_ab: true, ..tests }));
}

#[test]
fn a_strict_crossing_needs_both_pairs_on_opposite_sides() {
    let base = SegmentTests {
        o1: Side::Positive,
        o2: Side::Negative,
        o3: Side::Negative,
        o4: Side::Positive,
        c_in_ab: false,
        d_in_ab: false,
        a_in_cd: false,
        b_in_cd: false,
    };
    assert!(decide(base));
    assert!(!decide(SegmentTests { o4: Side::Negative, ..base }));
    assert!(!decide(SegmentTests { o2: Side::Positive, ..base }));
    assert!(!decide(SegmentTests { o1: Side::Unordered, ..base }));
}

#[test]
fn values_that_are_not_numbers_never_intersect() {
    let nan = f32::NAN;
    assert!(!intersect((nan, 0.0), (1.0, 1.0), (0.0, 1.0), (1.0, 0.0)));
    let tests = SegmentTests {
        o1: Side::Unordered,
        o2: Side::Unordered,
        o3: Side::Unordered,
        o4: Side::Unordered,
        c_in_ab: true,
        d_in_ab: true,
        a_in_cd: true,
        b_in_cd: true,
    };
    assert!(!decide(tests));
}

#[test]
fn intersection_is_symmetric_in_the_two_segments() {
    let coords = [-1.0f32, 0.0, 0.5, 1.0, 2.0];
    let mut points: Vec<P> = Vec::new();
    for x in coords {
        for y in coords {
            points.push((x, y));
        }
    }
    let mut hits = 0;
    let mut checked = 0;
    for (i, a) in points.iter().enumerate() {
        for b in points.iter().skip(i % 3).step_by(3) {
            for c in points.iter().skip(i % 2).step_by(2) {
                for d in points.iter().skip(1).step_by(4) {
                    let one = intersect(*a, *b, *c, *d);
                    let other = intersect(*c, *d, *a, *b);
                    assert_eq!(one, other);
                    assert_eq!(measure(*a, *b, *c, *d).swap(), measure(*c, *d, *a, *b));
                    checked += 1;
                    if one {
                        hits += 1;
                    }
                }
            }
        }
    }
    assert!(checked > 1000);
    assert!(hits > 0 && hits < checked);
}

#[test]
fn swapping_twice_gives_the_findings_back() {
    let tests = measure((0.0, 0.0), (2.0, 2.0), (0.0, 2.0), (3.0, 0.0));
    assert_eq!(tests.swap().swap(), tests);
    assert_ne!(tests.swap(), tests);
}

#[test]
fn the_box_is_looked_at_only_for_points_on_the_line() {
    let asked = Cell::new(0usize);
    let counting = |a: &P, b: &P, p: &P| {
        asked.set(asked.get() + 1);
        in_box(a, b, p)
    };
    // A strict crossing: no end point lies on the other line.
    assert!(seg_intersect(&(0.0, 0.0), &(2.0, 2.0), &(0.0, 2.0), &(2.0, 0.0), &side, &counting));
    assert_eq!(asked.get(), 0);
    // The end point (2, 0) lies on the first segment's line and in its box.
    assert!(seg_intersect(&(0.0, 0.0), &(4.0, 0.0), &(2.0, 0.0), &(2.0, 3.0), &side, &counting));
    assert_eq!(asked.get(), 1);
    // Collinear and apart: all four end points lie on the other line.
    asked.set(0);
    assert!(!seg_intersect(&(0.0, 0.0), &(1.0, 0.0), &(2.0, 0.0), &(3.0, 0.0), &side, &counting));
    assert_eq!(asked.get(), 4);
}

#[test]
fn each_end_point_is_measured_against_the_other_segment() {
    let a = (0.0f32, 0.0f32);
    let b = (4.0, 0.0);
    let c = (1.0, -1.0);
    let d = (1.0, 2.0);
    let seen = std::cell::RefCell::new(Vec::new());
    let recording = |x: &P, y: &P, z: &P| {
        seen.borrow_mut().push((*x, *y, *z));
        side(x, y, z)
    };
    assert!(seg_intersect(&a, &b, &c, &d, &recording, &in_box));
    assert_eq!(*seen.borrow(), vec![(a, b, c), (a, b, d), (c, d, a), (c, d, b)]);
}

fn square(at: P, size: f32) -> Vec<(P, P)> {
    let (x, y) = at;
    vec![
        ((x, y), (x + size, y)),
        ((x + size, y), (x + size, y + size)),
        ((x + size, y + size), (x, y + size)),
        ((x, y + size), (x, y)),
    ]
}

#[test]
fn overlapping_outlines_touch_and_testing_stops_at_the_first_hit() {
    let first = square((0.0, 0.0), 2.0);
    let second = square((1.0, 1.0), 2.0);
    let taken = Cell::new(0usize);
    let segment_a = |i: usize| first[i];
    let segment_b = |j: usize| {
        taken.set(taken.get() + 1);
        second[j]
    };
    assert!(outlines_touch(first.len(), second.len(), &segment_a, &segment_b, &side, &in_box));
    // The first pair that meets is the right side of the first square with
    // the lower side of the second: pair (1, 0), the fifth to be tested.
    assert_eq!(taken.get(), 5);
}

#[test]
fn separate_outlines_do_not_touch_and_every_pair_is_tested() {
    let first = square((0.0, 0.0), 1.0);
    let second = square((5.0, 5.0), 1.0);
    let taken = Cell::new(0usize);
    let segment_a = |i: usize| first[i];
    let segment_b = |j: usize| {
        taken.set(taken.get() + 1);
        second[j]
    };
    assert!(!outlines_touch(first.len(), second.len(), &segment_a, &segment_b, &side, &in_box));
    assert_eq!(taken.get(), 16);
}

#[test]
fn touching_outlines_touch_whichever_comes_first() {
    let first = square((0.0, 0.0), 2.0);
    let second = square((2.0, 0.5), 1.0);
    let apart = square((2.5, 0.5), 1.0);
    let of = |lines: &Vec<(P, P)>| {
        let lines = lines.clone();
        move |i: usize| lines[i]
    };
    assert!(outlines_touch(4, 4, &of(&first), &of(&second), &side, &in_box));
    assert!(outlines_touch(4, 4, &of(&second), &of(&first), &side, &in_box));
    assert!(!outlines_touch(4, 4, &of(&first), &of(&apart), &side, &in_box));
    assert!(!outlines_touch(4, 4, &of(&apart), &of(&first), &side, &in_box));
}

#[test]
fn an_outline_without_segments_touches_nothing() {
    let none = |_: usize| -> (P, P) { unreachable!() };
    let some = |_: usize| ((0.0f32, 0.0f32), (1.0f32, 1.0f32));
    assert!(!outlines_touch(0, 4, &none, &some, &side, &in_box));
    assert!(!outlines_touch(4, 0, &some, &none, &side, &in_box));
}
