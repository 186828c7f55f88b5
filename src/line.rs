//! The single-line generators of `line_drawing`, as the zips use them.
use vstd::prelude::*;

use line_drawing::{Bresenham, Bresenham3d};

use crate::walk::straight_walk;
use crate::{Point2, Point3};

verus! {

/// Coordinates of this size or more are kept away from the generators, whose arithmetic
/// (differences of coordinates, negated coordinates, one step past the end) must not overflow.
pub const COORD_LIMIT: i64 = 0x4000_0000_0000_0000;

/// A coordinate that the generators handle without overflow.
pub open spec fn coord_ok(c: i64) -> bool {
    -COORD_LIMIT < c < COORD_LIMIT
}

/// Whether `c` is a coordinate that the generators handle without overflow.
pub fn coord_in_range(c: i64) -> (r: bool)
    ensures
        r == coord_ok(c),
{
    -COORD_LIMIT < c && c < COORD_LIMIT
}

/// A 2D point whose coordinates the generators handle without overflow.
pub open spec fn point2_ok(p: Point2) -> bool {
    coord_ok(p.0) && coord_ok(p.1)
}

/// A 3D point whose coordinates the generators handle without overflow.
pub open spec fn point3_ok(p: Point3) -> bool {
    coord_ok(p.0) && coord_ok(p.1) && coord_ok(p.2)
}

#[verifier::external_type_specification]
#[verifier::external_body]
#[verifier::reject_recursive_types(T)]
pub struct ExBresenham<T>(Bresenham<T>);

#[verifier::external_type_specification]
#[verifier::external_body]
#[verifier::reject_recursive_types(T)]
pub struct ExBresenham3d<T>(Bresenham3d<T>);

/// The points that `Bresenham::new(start, end)` yields, in order.
pub uninterp spec fn line_2d(start: Point2, end: Point2) -> Seq<Point2>;

/// The points that a 2D generator has still to yield, in order.
pub uninterp spec fn rest_2d(g: Bresenham<i64>) -> Seq<Point2>;

/// The points that `Bresenham3d::new(start, end)` yields, in order.
pub uninterp spec fn line_3d(start: Point3, end: Point3) -> Seq<Point3>;

/// The points that a 3D generator has still to yield, in order.
pub uninterp spec fn rest_3d(g: Bresenham3d<i64>) -> Seq<Point3>;

/// Relies on `line_drawing::Bresenham::new`: a generator of the line from `start` to `end`,
/// both included (as its documentation says). Its steps come from `Octant::from` applied to
/// points whose first coordinate grows by one and whose second grows by zero or one, so along
/// each axis the walk moves by zero or one unit towards `end`.
#[verifier::external_body]
pub(crate) fn line_new_2d(start: Point2, end: Point2) -> (r: Bresenham<i64>)
    requires
        point2_ok(start),
        point2_ok(end),
    ensures
        rest_2d(r) == line_2d(start, end),
        straight_walk(rest_2d(r), start, end),
{
    Bresenham::new(start, end)
}

/// Relies on `<line_drawing::Bresenham as Iterator>::next`: hands out the next point of the
/// line, and `None` once the line is done.
#[verifier::external_body]
pub(crate) fn line_next_2d(g: &mut Bresenham<i64>) -> (r: Option<Point2>)
    ensures
        rest_2d(*old(g)).len() == 0 ==> r is None && rest_2d(*final(g)) == rest_2d(*old(g)),
        rest_2d(*old(g)).len() > 0 ==> r == Some(rest_2d(*old(g))[0]) && rest_2d(*final(g))
            == rest_2d(*old(g)).drop_first(),
{
    g.next()
}

/// Relies on `line_drawing::Bresenham3d::new`: a generator of the line from `start` to `end`,
/// both included (as its documentation says). Each step adds to each coordinate either
/// nothing or the sign of that coordinate's difference between `end` and `start`.
#[verifier::external_body]
pub(crate) fn line_new_3d(start: Point3, end: Point3) -> (r: Bresenham3d<i64>)
    requires
        point3_ok(start),
        point3_ok(end),
    ensures
        rest_3d(r) == line_3d(start, end),
        straight_walk(rest_3d(r), start, end),
{
    Bresenham3d::new(start, end)
}

/// Relies on `<line_drawing::Bresenham3d as Iterator>::next`: hands out the next point of the
/// line, and `None` once the line is done.
#[verifier::external_body]
pub(crate) fn line_next_3d(g: &mut Bresenham3d<i64>) -> (r: Option<Point3>)
    ensures
        rest_3d(*old(g)).len() == 0 ==> r is None && rest_3d(*final(g)) == rest_3d(*old(g)),
        rest_3d(*old(g)).len() > 0 ==> r == Some(rest_3d(*old(g))[0]) && rest_3d(*final(g))
            == rest_3d(*old(g)).drop_first(),
{
    g.next()
}

} // verus!
