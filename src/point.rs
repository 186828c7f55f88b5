//! Projection of a point onto an axis.
use vstd::prelude::*;

use crate::{Axis, Point2, Point3};

verus! {

/// A lattice point whose coordinates can be read by axis.
pub trait Point: Sized {
    /// Whether this kind of point has a coordinate along `axis`.
    spec fn has_axis(axis: Axis) -> bool;

    /// The coordinate of the point along `axis`.
    spec fn level(&self, axis: Axis) -> int;

    /// Reads the coordinate of the point along `axis`.
    fn nth(&self, axis: Axis) -> (r: i64)
        requires
            Self::has_axis(axis),
        ensures
            r as int == self.level(axis),
    ;
}

impl Point for Point2 {
    open spec fn has_axis(axis: Axis) -> bool {
        axis != Axis::Z
    }

    open spec fn level(&self, axis: Axis) -> int {
        match axis {
            Axis::X => self.0 as int,
            Axis::Y => self.1 as int,
            Axis::Z => 0,
        }
    }

    fn nth(&self, axis: Axis) -> (r: i64) {
        match axis {
            Axis::X => self.0,
            _ => self.1,
        }
    }
}

impl Point for Point3 {
    open spec fn has_axis(axis: Axis) -> bool {
        true
    }

    open spec fn level(&self, axis: Axis) -> int {
        match axis {
            Axis::X => self.0 as int,
            Axis::Y => self.1 as int,
            Axis::Z => self.2 as int,
        }
    }

    fn nth(&self, axis: Axis) -> (r: i64) {
        match axis {
            Axis::X => self.0,
            Axis::Y => self.1,
            Axis::Z => self.2,
        }
    }
}

} // verus!
