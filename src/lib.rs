//! Rasterisation of two lattice lines that leave a common start point and end on the same
//! value of a chosen axis. The zips hand out, level by level along that axis, the pair of
//! points (one on each line) that close each level: the slices needed to fill a triangle in
//! 2D or a triangular prism in 3D.
use vstd::prelude::*;

pub mod error;
pub mod line;
pub mod point;
pub mod walk;
pub mod zip;
pub mod zip_3d;

pub use error::Error;
pub use point::Point;

verus! {

/// A point in 2D space.
pub type Point2 = (i64, i64);

/// A point in 3D space.
pub type Point3 = (i64, i64, i64);

/// The axes along which a zip can advance.
#[derive(Debug, Clone, Copy, PartialEq, Eq, Structural)]
pub enum Axis {
    X,
    Y,
    Z,
}

impl Axis {
    /// The name of the axis, as error messages print it.
    pub fn name(&self) -> (r: &'static str)
        ensures
            r == self.label(),
            r@ == self.spec_name(),
    {
        match self {
            Axis::X => {
                proof {
                    reveal_strlit("X");
                }
                "X"
            },
            Axis::Y => {
                proof {
                    reveal_strlit("Y");
                }
                "Y"
            },
            Axis::Z => {
                proof {
                    reveal_strlit("Z");
                }
                "Z"
            },
        }
    }

    /// The name of the axis, as the errors hold it.
    pub open spec fn label(&self) -> &'static str {
        match self {
            Axis::X => "X",
            Axis::Y => "Y",
            Axis::Z => "Z",
        }
    }

    /// The characters of the name of the axis.
    pub open spec fn spec_name(&self) -> Seq<char> {
        match self {
            Axis::X => seq!['X'],
            Axis::Y => seq!['Y'],
            Axis::Z => seq!['Z'],
        }
    }
}

} // verus!
