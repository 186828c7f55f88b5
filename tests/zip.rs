use bresenham_zip::zip::BresenhamZip;
use bresenham_zip::{Axis, Error, Point2};

fn pairs(start: Point2, end1: Point2, end2: Point2, axis: Axis) -> Vec<(Point2, Point2)> {
    let mut zip = BresenhamZip::new(start, end1, end2, axis).unwrap();
    let mut out = Vec::new();
    while let Some(pair) = zip.next() {
        out.push(pair);
    }
    assert!(zip.next().is_none());
    out
}

fn along(p: &Point2, axis: usize) -> i64 {
    if axis == 0 {
        p.0
    } else {
        p.1
    }
}

fn symmetric(start: Point2, end1: Point2, end2: Point2, axis: Axis, main: usize, other: usize) {
    let mut for_a = 50;
    let mut for_b = 50;
    let mut matching = 50;
    for (a, b) in pairs(start, end1, end2, axis) {
        assert_eq!(for_a, along(&a, other));
        assert_eq!(for_b, along(&b, other));
        assert_eq!(matching, along(&a, main));
        assert_eq!(matching, along(&b, main));
        for_a -= 1;
        for_b += 1;
        matching += 1;
    }
}

fn asymmetric(start: Point2, end1: Point2, end2: Point2, axis: Axis, main: usize, other: usize) {
    let mut for_a = 50;
    let mut for_b = 50;
    let mut matching = 50;
    for (a, b) in pairs(start, end1, end2, axis) {
        assert!(along(&a, other) <= for_a);
        assert!(along(&b, other) >= for_b);
        assert_eq!(matching, along(&a, main));
        assert_eq!(along(&a, main), along(&b, main));
        for_a = along(&a, other);
        for_b = along(&b, other);
        matching += 1;
    }
}

fn inverted(start: Point2, end1: Point2, end2: Point2, axis: Axis, main: usize, other: usize) {
    let mut for_a = 50;
    let mut for_b = 50;
    let mut matching = 50;
    for (a, b) in pairs(start, end1, end2, axis) {
        assert_eq!(for_a, along(&a, other));
        assert_eq!(for_b, along(&b, other));
        assert_eq!(matching, along(&a, main));
        assert_eq!(along(&a, main), along(&b, main));
        for_a -= 1;
        for_b += 1;
        matching -= 1;
    }
}

#[test]
fn zip_symmetric() {
    symmetric((50, 50), (100, 0), (100, 100), Axis::X, 0, 1);
    symmetric((50, 50), (0, 100), (100, 100), Axis::Y, 1, 0);
}

#[test]
fn zip_asymmetric() {
    asymmetric((50, 50), (400, 0), (400, 800), Axis::X, 0, 1);
    asymmetric((50, 50), (0, 400), (800, 400), Axis::Y, 1, 0);
}

#[test]
fn zip_inverted() {
    inverted((50, 50), (0, 0), (0, 100), Axis::X, 0, 1);
    inverted((50, 50), (0, 0), (100, 0), Axis::Y, 1, 0);
}

#[test]
fn symmetric_pairs_and_count() {
    let out = pairs((50, 50), (0, 100), (100, 100), Axis::Y);
    assert_eq!(out.len(), 51);
    assert_eq!(out[0], ((50, 50), (50, 50)));
    assert_eq!(out[50], ((0, 100), (100, 100)));
}

#[test]
fn inverted_pairs_and_count() {
    let out = pairs((50, 50), (0, 0), (100, 0), Axis::Y);
    assert_eq!(out.len(), 51);
    for (i, (a, b)) in out.iter().enumerate() {
        assert_eq!(a.1, 50 - i as i64);
        assert_eq!(b.1, 50 - i as i64);
    }
    assert_eq!(out[50], ((0, 0), (100, 0)));
}

#[test]
fn asymmetric_count_and_bounds() {
    let out = pairs((50, 50), (0, 400), (800, 400), Axis::Y);
    assert_eq!(out.len(), 351);
    let mut left = 50;
    let mut right = 50;
    for (a, b) in &out {
        assert!(a.0 <= left && a.0 >= 0);
        assert!(b.0 >= right && b.0 <= 800);
        left = a.0;
        right = b.0;
    }
    assert_eq!(out[350], ((0, 400), (800, 400)));
}

#[test]
fn every_pair_shares_its_level_and_the_end_level_comes_once() {
    let out = pairs((3, -7), (-20, 9), (11, 9), Axis::Y);
    assert_eq!(out.len(), 17);
    for (a, b) in &out {
        assert_eq!(a.1, b.1);
    }
    assert_eq!(out.iter().filter(|(a, _)| a.1 == 9).count(), 1);
    assert_eq!(out[16], ((-20, 9), (11, 9)));
}

#[test]
fn ends_on_the_start_level_give_one_pair() {
    let out = pairs((5, 5), (0, 5), (9, 5), Axis::Y);
    assert_eq!(out, vec![((0, 5), (9, 5))]);
}

#[test]
fn shallow_lines_hand_out_the_last_point_of_each_level() {
    let out = pairs((0, 0), (-6, 2), (6, 2), Axis::Y);
    assert_eq!(out.len(), 3);
    for (i, (a, b)) in out.iter().enumerate() {
        assert_eq!(a.1, i as i64);
        assert_eq!(b.1, i as i64);
    }
    assert_eq!(out[2], ((-6, 2), (6, 2)));
    assert!(out[0].0 .0 < 0 && out[0].1 .0 > 0);
}

#[test]
fn direct_construction_rejects_divergent_ends() {
    let result = BresenhamZip::new((50, 50), (100, 0), (0, 0), Axis::X);
    assert_eq!(result.err(), Some(Error::InvalidCoordinate("X", 100, 0)));
}

#[test]
fn direct_construction_rejects_the_z_axis() {
    let result = BresenhamZip::new((0, 0), (1, 1), (2, 1), Axis::Z);
    assert_eq!(result.err(), Some(Error::InvalidAxis(Axis::Z)));
}

#[test]
fn collect_pairs_gives_what_next_gives() {
    let collected = BresenhamZip::new((50, 50), (400, 0), (400, 800), Axis::X)
        .unwrap()
        .collect_pairs();
    assert_eq!(collected, pairs((50, 50), (400, 0), (400, 800), Axis::X));
    assert_eq!(collected.len(), 351);
}
