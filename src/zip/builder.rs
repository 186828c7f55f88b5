//! Step-by-step construction of a two-dimensional zip.
use vstd::prelude::*;

use crate::error::Error;
use crate::line::point2_ok;
use crate::zip::{zip_2d, zip_2d_error, BresenhamZip};
use crate::{Axis, Point2};

verus! {

/// Gathers the axis, the starting point and the two ending points of a [`BresenhamZip`], in
/// any order; each setter overwrites what was set before. The ending points must share their
/// value along the axis.
pub struct Builder {
    start: Option<Point2>,
    end_a: Option<Point2>,
    end_b: Option<Point2>,
    axis: Option<Axis>,
}

impl Builder {
    pub closed spec fn spec_start(&self) -> Option<Point2> {
        self.start
    }

    pub closed spec fn spec_end_a(&self) -> Option<Point2> {
        self.end_a
    }

    pub closed spec fn spec_end_b(&self) -> Option<Point2> {
        self.end_b
    }

    pub closed spec fn spec_axis(&self) -> Option<Axis> {
        self.axis
    }

    /// The axis, if set, is a 2D axis, and the points that are set are in the generators' range.
    pub open spec fn wf(&self) -> bool {
        &&& self.spec_axis() != Some(Axis::Z)
        &&& (self.spec_start() matches Some(p) ==> point2_ok(p))
        &&& (self.spec_end_a() matches Some(p) ==> point2_ok(p))
        &&& (self.spec_end_b() matches Some(p) ==> point2_ok(p))
    }

    /// Why building fails, if it does: a missing axis first, then the first missing point in
    /// the order start, first end, second end, then ends that differ along the axis.
    pub open spec fn build_error(&self) -> Option<Error> {
        if self.spec_axis() is None {
            Some(Error::MissingAxis)
        } else if self.spec_start() is None {
            Some(Error::MissingPoint("starting point"))
        } else if self.spec_end_a() is None {
            Some(Error::MissingPoint("first ending point"))
        } else if self.spec_end_b() is None {
            Some(Error::MissingPoint("second ending point"))
        } else {
            zip_2d_error(self.spec_end_a()->0, self.spec_end_b()->0, self.spec_axis()->0)
        }
    }

    /// `r` is what building from this builder gives.
    pub open spec fn built(&self, r: Result<BresenhamZip, Error>) -> bool {
        match r {
            Ok(z) => {
                &&& self.build_error() is None
                &&& z.wf()
                &&& z@ == zip_2d(
                    self.spec_start()->0,
                    self.spec_end_a()->0,
                    self.spec_end_b()->0,
                    self.spec_axis()->0,
                )
            },
            Err(e) => self.build_error() == Some(e),
        }
    }

    /// A builder with nothing set.
    pub fn new() -> (r: Builder)
        ensures
            r.wf(),
            r.spec_start() is None,
            r.spec_end_a() is None,
            r.spec_end_b() is None,
            r.spec_axis() is None,
    {
        Builder { start: None, end_a: None, end_b: None, axis: None }
    }

    /// Sets the axis along which the zip advances. Fails at once for `Axis::Z`.
    pub fn axis(self, axis: Axis) -> (r: Result<Builder, Error>)
        requires
            self.wf(),
        ensures
            match r {
                Ok(b) => {
                    &&& axis != Axis::Z
                    &&& b.wf()
                    &&& b.spec_axis() == Some(axis)
                    &&& b.spec_start() == self.spec_start()
                    &&& b.spec_end_a() == self.spec_end_a()
                    &&& b.spec_end_b() == self.spec_end_b()
                },
                Err(e) => axis == Axis::Z && e == Error::InvalidAxis(axis),
            },
    {
        match axis {
            Axis::Z => Err(Error::InvalidAxis(axis)),
            _ => Ok(Builder { axis: Some(axis), ..self }),
        }
    }

    /// Sets the point where both lines start.
    pub fn start_point(self, start: Point2) -> (r: Builder)
        requires
            self.wf(),
            point2_ok(start),
        ensures
            r.wf(),
            r.spec_start() == Some(start),
            r.spec_end_a() == self.spec_end_a(),
            r.spec_end_b() == self.spec_end_b(),
            r.spec_axis() == self.spec_axis(),
    {
        Builder { start: Some(start), ..self }
    }

    /// Sets the end of the first line.
    pub fn first_ending_point(self, end: Point2) -> (r: Builder)
        requires
            self.wf(),
            point2_ok(end),
        ensures
            r.wf(),
            r.spec_start() == self.spec_start(),
            r.spec_end_a() == Some(end),
            r.spec_end_b() == self.spec_end_b(),
            r.spec_axis() == self.spec_axis(),
    {
        Builder { end_a: Some(end), ..self }
    }

    /// Sets the end of the second line.
    pub fn second_ending_point(self, end: Point2) -> (r: Builder)
        requires
            self.wf(),
            point2_ok(end),
        ensures
            r.wf(),
            r.spec_start() == self.spec_start(),
            r.spec_end_a() == self.spec_end_a(),
            r.spec_end_b() == Some(end),
            r.spec_axis() == self.spec_axis(),
    {
        Builder { end_b: Some(end), ..self }
    }

    /// Builds a zip from what was set; the builder stays as it is and can build again.
    pub fn build(&self) -> (r: Result<BresenhamZip, Error>)
        requires
            self.wf(),
        ensures
            self.built(r),
    {
        let axis = match self.axis {
            Some(axis) => axis,
            None => return Err(Error::MissingAxis),
        };
        let start = match self.start {
            Some(p) => p,
            None => return Err(Error::MissingPoint("starting point")),
        };
        let end_a = match self.end_a {
            Some(p) => p,
            None => return Err(Error::MissingPoint("first ending point")),
        };
        let end_b = match self.end_b {
            Some(p) => p,
            None => return Err(Error::MissingPoint("second ending point")),
        };
        BresenhamZip::new(start, end_a, end_b, axis)
    }
}

/// Building is repeatable: two builds from one builder end alike, with the same error or with
/// zips that have the same pairs to hand out.
pub proof fn lemma_build_repeatable(
    b: Builder,
    r1: Result<BresenhamZip, Error>,
    r2: Result<BresenhamZip, Error>,
)
    requires
        b.built(r1),
        b.built(r2),
    ensures
        r1 is Ok <==> r2 is Ok,
        r1 is Ok ==> r1->Ok_0@ == r2->Ok_0@,
        r1 is Err ==> r1->Err_0 == r2->Err_0,
{
}

} // verus!
