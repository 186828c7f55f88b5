use bresenham_zip::zip_3d::Bresenham3dZip;
use bresenham_zip::{Axis, Error, Point3};

fn pairs(start: Point3, end1: Point3, end2: Point3, axis: Axis) -> Vec<(Point3, Point3)> {
    let mut zip = Bresenham3dZip::new(start, end1, end2, axis).unwrap();
    let mut out = Vec::new();
    while let Some(pair) = zip.next() {
        out.push(pair);
    }
    assert!(zip.next().is_none());
    out
}

fn along(p: &Point3, axis: usize) -> i64 {
    match axis {
        0 => p.0,
        1 => p.1,
        _ => p.2,
    }
}

fn symmetric(s: Point3, e1: Point3, e2: Point3, axis: Axis, main: usize, o1: usize, o2: usize) {
    let mut for_a = 50;
    let mut for_b = 50;
    let mut matching = 50;
    for (a, b) in pairs(s, e1, e2, axis) {
        assert_eq!(for_a, along(&a, o1));
        assert_eq!(for_a, along(&a, o2));
        assert_eq!(for_b, along(&b, o1));
        assert_eq!(for_b, along(&b, o2));
        assert_eq!(matching, along(&a, main));
        assert_eq!(matching, along(&b, main));
        for_a -= 1;
        for_b += 1;
        matching += 1;
    }
}

fn asymmetric(s: Point3, e1: Point3, e2: Point3, axis: Axis, main: usize, o1: usize, o2: usize) {
    let mut for_a_1 = 50;
    let mut for_a_2 = 50;
    let mut for_b_1 = 50;
    let mut for_b_2 = 50;
    let mut matching = 50;
    for (a, b) in pairs(s, e1, e2, axis) {
        assert!(along(&a, o1) <= for_a_1);
        assert!(along(&a, o2) <= for_a_2);
        assert!(along(&b, o1) >= for_b_1);
        assert!(along(&b, o2) >= for_b_2);
        assert_eq!(matching, along(&a, main));
        assert_eq!(along(&a, main), along(&b, main));
        for_a_1 = along(&a, o1);
        for_a_2 = along(&a, o2);
        for_b_1 = along(&b, o1);
        for_b_2 = along(&b, o2);
        matching += 1;
    }
}

fn inverted(s: Point3, e1: Point3, e2: Point3, axis: Axis, main: usize, o1: usize, o2: usize) {
    let mut for_a = 50;
    let mut for_b = 50;
    let mut matching = 50;
    for (a, b) in pairs(s, e1, e2, axis) {
        assert_eq!(for_a, along(&a, o1));
        assert_eq!(for_a, along(&a, o2));
        assert_eq!(for_b, along(&b, o1));
        assert_eq!(for_b, along(&b, o2));
        assert_eq!(matching, along(&a, main));
        assert_eq!(along(&a, main), along(&b, main));
        for_a -= 1;
        for_b += 1;
        matching -= 1;
    }
}

#[test]
fn zip_3d_symmetric() {
    symmetric((50, 50, 50), (100, 0, 0), (100, 100, 100), Axis::X, 0, 1, 2);
    symmetric((50, 50, 50), (0, 100, 0), (100, 100, 100), Axis::Y, 1, 0, 2);
    symmetric((50, 50, 50), (0, 0, 100), (100, 100, 100), Axis::Z, 2, 0, 1);
}

#[test]
fn zip_3d_asymmetric() {
    asymmetric((50, 50, 50), (400, 0, 10), (400, 800, 200), Axis::X, 0, 1, 2);
    asymmetric((50, 50, 50), (0, 400, 10), (800, 400, 200), Axis::Y, 1, 0, 2);
    asymmetric((50, 50, 50), (0, 10, 400), (800, 200, 400), Axis::Z, 2, 0, 1);
}

#[test]
fn zip_3d_inverted() {
    inverted((50, 50, 50), (0, 0, 0), (0, 100, 100), Axis::X, 0, 1, 2);
    inverted((50, 50, 50), (0, 0, 0), (100, 0, 100), Axis::Y, 1, 0, 2);
    inverted((50, 50, 50), (0, 0, 0), (100, 100, 0), Axis::Z, 2, 0, 1);
}

#[test]
fn zip_3d_counts_and_last_pair() {
    let out = pairs((50, 50, 50), (0, 10, 400), (800, 200, 400), Axis::Z);
    assert_eq!(out.len(), 351);
    assert_eq!(out[0].0 .2, 50);
    assert_eq!(out[0].1 .2, 50);
    assert_eq!(out[350], ((0, 10, 400), (800, 200, 400)));
    for (a, b) in &out {
        assert_eq!(a.2, b.2);
    }
    assert_eq!(out.iter().filter(|(a, _)| a.2 == 400).count(), 1);
}

#[test]
fn zip_3d_rejects_divergent_ends() {
    let result = Bresenham3dZip::new((0, 0, 0), (1, 1, 1), (2, 2, 2), Axis::X);
    assert_eq!(result.err(), Some(Error::InvalidCoordinate("X", 1, 2)));
}

#[test]
fn zip_3d_collect_pairs_gives_what_next_gives() {
    let collected = Bresenham3dZip::new((50, 50, 50), (0, 0, 0), (100, 100, 0), Axis::Z)
        .unwrap()
        .collect_pairs();
    assert_eq!(collected, pairs((50, 50, 50), (0, 0, 0), (100, 100, 0), Axis::Z));
    assert_eq!(collected.len(), 51);
    assert_eq!(collected[50], ((0, 0, 0), (100, 100, 0)));
}
