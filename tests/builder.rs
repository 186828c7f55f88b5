use bresenham_zip::zip::{BresenhamZip, Builder};
use bresenham_zip::zip_3d::{Bresenham3dZip, Builder3d};
use bresenham_zip::{Axis, Error, Point2, Point3};

fn drain(mut zip: BresenhamZip) -> Vec<(Point2, Point2)> {
    let mut out = Vec::new();
    while let Some(pair) = zip.next() {
        out.push(pair);
    }
    out
}

fn drain_3d(mut zip: Bresenham3dZip) -> Vec<(Point3, Point3)> {
    let mut out = Vec::new();
    while let Some(pair) = zip.next() {
        out.push(pair);
    }
    out
}

#[test]
fn invalid_axis() {
    let result = Builder::new().axis(Axis::Z);
    assert_eq!(result.err(), Some(Error::InvalidAxis(Axis::Z)));
}

#[test]
fn builder_missing_point() {
    let no_axis = Builder::new()
        .start_point((0, 0))
        .first_ending_point((0, 100))
        .second_ending_point((100, 100));
    assert_eq!(no_axis.build().err(), Some(Error::MissingAxis));
    let no_start = Builder::new()
        .axis(Axis::Y)
        .unwrap()
        .first_ending_point((0, 100))
        .second_ending_point((100, 100));
    assert_eq!(no_start.build().err(), Some(Error::MissingPoint("starting point")));
    let no_first = Builder::new().axis(Axis::Y).unwrap().start_point((0, 0));
    assert_eq!(no_first.build().err(), Some(Error::MissingPoint("first ending point")));
    let no_second = no_first.first_ending_point((0, 100));
    assert_eq!(no_second.build().err(), Some(Error::MissingPoint("second ending point")));
}

#[test]
fn builder_invalid_points() {
    let result = Builder::new()
        .axis(Axis::X)
        .unwrap()
        .start_point((50, 50))
        .first_ending_point((100, 0))
        .second_ending_point((0, 0))
        .build();
    assert_eq!(result.err(), Some(Error::InvalidCoordinate("X", 100, 0)));
}

#[test]
fn builder_valid() {
    let zip = Builder::new()
        .axis(Axis::Y)
        .unwrap()
        .start_point((50, 50))
        .first_ending_point((0, 100))
        .second_ending_point((100, 100))
        .build()
        .unwrap();
    let out = drain(zip);
    assert_eq!(out.len(), 51);
    assert_eq!(out[0], ((50, 50), (50, 50)));
    assert_eq!(out[50], ((0, 100), (100, 100)));
    let overwritten = Builder::new()
        .axis(Axis::X)
        .unwrap()
        .axis(Axis::Y)
        .unwrap()
        .start_point((25, 25))
        .second_ending_point((50, 50))
        .start_point((10, 10))
        .first_ending_point((0, 100))
        .second_ending_point((100, 100))
        .build()
        .unwrap();
    let out = drain(overwritten);
    assert_eq!(out.len(), 91);
    assert_eq!(out[0], ((10, 10), (10, 10)));
    assert_eq!(out[90], ((0, 100), (100, 100)));
}

#[test]
fn build_twice_gives_the_same_pairs() {
    let builder = Builder::new()
        .axis(Axis::X)
        .unwrap()
        .start_point((50, 50))
        .first_ending_point((400, 0))
        .second_ending_point((400, 800));
    let first = drain(builder.build().unwrap());
    let second = drain(builder.build().unwrap());
    assert_eq!(first, second);
    assert_eq!(first.len(), 351);
}

#[test]
fn missing_axis() {
    let result = Builder3d::new()
        .start_point((50, 50, 50))
        .first_ending_point((0, 0, 200))
        .second_ending_point((0, 100, 200))
        .build();
    assert_eq!(result.err(), Some(Error::MissingAxis));
}

#[test]
fn builder_3d_missing_point() {
    let no_start = Builder3d::new()
        .axis(Axis::Z)
        .first_ending_point((0, 0, 200))
        .second_ending_point((0, 100, 200));
    assert_eq!(no_start.build().err(), Some(Error::MissingPoint("starting point")));
    let no_second = Builder3d::new()
        .axis(Axis::Z)
        .start_point((50, 50, 50))
        .first_ending_point((0, 0, 200));
    assert_eq!(no_second.build().err(), Some(Error::MissingPoint("second ending point")));
}

#[test]
fn builder_3d_invalid_points() {
    let result = Builder3d::new()
        .axis(Axis::Z)
        .start_point((50, 50, 50))
        .first_ending_point((0, 0, 200))
        .second_ending_point((0, 100, 199))
        .build();
    assert_eq!(result.err(), Some(Error::InvalidCoordinate("Z", 200, 199)));
}

#[test]
fn builder_3d_valid() {
    let zip = Builder3d::new()
        .axis(Axis::X)
        .start_point((50, 50, 50))
        .first_ending_point((0, 0, 0))
        .second_ending_point((0, 100, 200))
        .build()
        .unwrap();
    let out = drain_3d(zip);
    assert_eq!(out.len(), 51);
    assert_eq!(out[0].0, (50, 50, 50));
    assert_eq!(out[0].1 .0, 50);
    assert_eq!(out[50], ((0, 0, 0), (0, 100, 200)));
    let overwritten = Builder3d::new()
        .axis(Axis::X)
        .axis(Axis::Y)
        .start_point((25, 25, 25))
        .second_ending_point((50, 50, 50))
        .start_point((10, 10, 10))
        .first_ending_point((0, 100, 0))
        .second_ending_point((100, 100, 100))
        .build()
        .unwrap();
    let out = drain_3d(overwritten);
    assert_eq!(out.len(), 91);
    assert_eq!(out[0], ((10, 10, 10), (10, 10, 10)));
    assert_eq!(out[90], ((0, 100, 0), (100, 100, 100)));
}

#[test]
fn build_3d_twice_gives_the_same_pairs() {
    let builder = Builder3d::new()
        .axis(Axis::Z)
        .start_point((50, 50, 50))
        .first_ending_point((0, 10, 400))
        .second_ending_point((800, 200, 400));
    let first = drain_3d(builder.build().unwrap());
    let second = drain_3d(builder.build().unwrap());
    assert_eq!(first, second);
}
