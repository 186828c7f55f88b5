//! The two-dimensional zip.
use vstd::prelude::*;

use line_drawing::Bresenham;

use crate::error::Error;
use crate::line::{line_2d, line_new_2d, line_next_2d, point2_ok, rest_2d};
use crate::point::Point;
use crate::walk::{
    lemma_level_pairs_shape, lemma_pending_shape, lemma_run_len, lemma_zip_prepend,
    lemma_zip_start, lemma_zip_step, level_count, level_index, level_pairs, pending_pairs,
    pull_point, pulled, run_len, zip_ok,
};
use crate::{Axis, Point2};

mod builder;

pub use builder::Builder;

verus! {

/// The pairs that a zip from `start` to `end1` and `end2` along `axis` hands out: for each
/// level from the start's to the ends', the last point of each line on that level.
pub open spec fn zip_2d(start: Point2, end1: Point2, end2: Point2, axis: Axis) -> Seq<
    (Point2, Point2),
> {
    level_pairs(line_2d(start, end1), line_2d(start, end2), axis)
}

/// Why a zip from ends `end1` and `end2` along `axis` cannot be built, if it cannot.
pub open spec fn zip_2d_error(end1: Point2, end2: Point2, axis: Axis) -> Option<Error> {
    if axis == Axis::Z {
        Some(Error::InvalidAxis(axis))
    } else if end1.level(axis) != end2.level(axis) {
        Some(
            Error::InvalidCoordinate(axis.label(), end1.level(axis) as i64, end2.level(axis) as i64),
        )
    } else {
        None
    }
}

/// Walks two lines that leave one start point and end on one level of an axis, and hands out,
/// level by level, one point of each line.
pub struct BresenhamZip {
    a: Bresenham<i64>,
    b: Bresenham<i64>,
    prev_a: Point2,
    prev_b: Point2,
    goal: i64,
    axis: Axis,
}

/// Pulls `line` up to its next change of level along `axis`. `prev` is the retained point; it
/// ends as the first point of the new level (or the last point of the line), and the last
/// point of the old level is handed out.
fn advance_2d(line: &mut Bresenham<i64>, prev: &mut Point2, axis: Axis) -> (r: Option<Point2>)
    requires
        axis != Axis::Z,
    ensures
        r == pull_point(seq![*old(prev)] + rest_2d(*old(line)), axis),
        seq![*final(prev)] + rest_2d(*final(line)) == pulled(
            seq![*old(prev)] + rest_2d(*old(line)),
            axis,
        ),
{
    let ghost s = seq![*prev] + rest_2d(*line);
    let ghost mut j: int = 0;
    proof {
        lemma_run_len(s, axis);
        assert(s.skip(0) =~= s);
    }
    loop
        invariant
            axis != Axis::Z,
            s == seq![*old(prev)] + rest_2d(*old(line)),
            s.len() >= 1,
            1 <= run_len(s, axis) <= s.len(),
            forall|i: int| 0 <= i < run_len(s, axis) ==> #[trigger] s[i].level(axis) == s[0].level(axis),
            run_len(s, axis) < s.len() ==> s[run_len(s, axis)].level(axis) != s[0].level(axis),
            0 <= j < run_len(s, axis),
            seq![*prev] + rest_2d(*line) == s.skip(j),
        decreases rest_2d(*line).len(),
    {
        let ghost before = rest_2d(*line);
        assert(s.skip(j)[0] == *prev);
        assert(s.skip(j).drop_first() =~= before);
        assert(s.skip(j + 1) =~= s.skip(j).drop_first());
        match line_next_2d(line) {
            None => {
                assert(s.skip(j).len() == 1);
                assert(s.skip(s.len() - 1) =~= seq![*prev]);
                return None;
            },
            Some(p) => {
                assert(s.skip(j).len() == before.len() + 1);
                assert(s.skip(j)[1] == p);
                assert(s[j + 1] == p);
                if p.nth(axis) != prev.nth(axis) {
                    let cand = *prev;
                    *prev = p;
                    assert(seq![*prev] + rest_2d(*line) =~= s.skip(j + 1));
                    return Some(cand);
                }
                *prev = p;
                proof {
                    assert(seq![*prev] + rest_2d(*line) =~= s.skip(j + 1));
                    j = j + 1;
                }
            },
        }
    }
}

impl BresenhamZip {
    /// The retained point of the first line, followed by what that line has left.
    closed spec fn line_a(&self) -> Seq<Point2> {
        seq![self.prev_a] + rest_2d(self.a)
    }

    /// The retained point of the second line, followed by what that line has left.
    closed spec fn line_b(&self) -> Seq<Point2> {
        seq![self.prev_b] + rest_2d(self.b)
    }

    /// The axis along which the zip advances.
    pub closed spec fn spec_axis(&self) -> Axis {
        self.axis
    }

    /// The level along the axis on which both lines end.
    pub closed spec fn end_level(&self) -> int {
        self.line_a().last().level(self.axis)
    }

    /// The state can be pulled from.
    pub closed spec fn wf(&self) -> bool {
        &&& self.axis != Axis::Z
        &&& zip_ok(self.line_a(), self.line_b(), self.goal as int, self.axis)
        &&& self.line_a().last().level(self.axis) > i64::MIN
    }

    /// Builds the zip of the lines from `start` to `end1` and from `start` to `end2`, along
    /// `axis`. Fails when `axis` is not a 2D axis, or when the two ends differ along it.
    pub fn new(start: Point2, end1: Point2, end2: Point2, axis: Axis) -> (r: Result<Self, Error>)
        requires
            point2_ok(start),
            point2_ok(end1),
            point2_ok(end2),
        ensures
            match r {
                Ok(z) => {
                    &&& zip_2d_error(end1, end2, axis) is None
                    &&& z.wf()
                    &&& z.spec_axis() == axis
                    &&& z.end_level() == end1.level(axis)
                    &&& z@ == zip_2d(start, end1, end2, axis)
                    &&& z@.len() == level_count(start.level(axis), end1.level(axis))
                    &&& forall|i: int|
                        0 <= i < z@.len() ==> {
                            &&& (#[trigger] z@[i]).0.level(axis) == level_index(
                                start.level(axis),
                                end1.level(axis),
                                i,
                            )
                            &&& z@[i].1.level(axis) == z@[i].0.level(axis)
                            &&& line_2d(start, end1).contains(z@[i].0)
                            &&& line_2d(start, end2).contains(z@[i].1)
                        }
                },
                Err(e) => zip_2d_error(end1, end2, axis) == Some(e),
            },
    {
        if axis == Axis::Z {
            return Err(Error::InvalidAxis(axis));
        }
        let g1 = end1.nth(axis);
        let g2 = end2.nth(axis);
        if g1 != g2 {
            return Err(Error::InvalidCoordinate(axis.name(), g1, g2));
        }
        let a = line_new_2d(start, end1);
        let b = line_new_2d(start, end2);
        let z = BresenhamZip { a, b, prev_a: start, prev_b: start, goal: g1, axis };
        proof {
            lemma_zip_start(rest_2d(a), rest_2d(b), start, end1, end2, axis);
            lemma_zip_prepend(rest_2d(a), rest_2d(b), axis);
            lemma_level_pairs_shape(rest_2d(a), rest_2d(b), axis);
            assert(z.line_a().last() == end1);
        }
        Ok(z)
    }

    /// Hands out the next pair, or `None` once the zip is done.
    pub fn next(&mut self) -> (r: Option<(Point2, Point2)>)
        requires
            old(self).wf(),
        ensures
            final(self).wf(),
            final(self).spec_axis() == old(self).spec_axis(),
            final(self).end_level() == old(self).end_level(),
            old(self)@.len() == 0 ==> r is None && final(self)@ == old(self)@,
            old(self)@.len() > 0 ==> r == Some(old(self)@[0]) && final(self)@ == old(
                self,
            )@.drop_first(),
    {
        let ghost la = self.line_a();
        let ghost lb = self.line_b();
        proof {
            lemma_zip_step(la, lb, self.goal as int, self.axis);
            lemma_run_len(la, self.axis);
        }
        let axis = self.axis;
        let a = advance_2d(&mut self.a, &mut self.prev_a, axis);
        let b = advance_2d(&mut self.b, &mut self.prev_b, axis);
        if let Some(pa) = a {
            Some((pa, b.unwrap()))
        } else if self.prev_a.nth(axis) == self.goal {
            self.goal = self.goal - 1;
            Some((self.prev_a, self.prev_b))
        } else {
            None
        }
    }

    /// Hands out every pair that is left, in order.
    pub fn collect_pairs(self) -> (r: Vec<(Point2, Point2)>)
        requires
            self.wf(),
        ensures
            r@ == self@,
    {
        let mut zip = self;
        let mut out: Vec<(Point2, Point2)> = Vec::new();
        loop
            invariant
                zip.wf(),
                out@ + zip@ == self@,
            decreases zip@.len(),
        {
            match zip.next() {
                Some(pair) => {
                    out.push(pair);
                    assert(out@ + zip@ =~= self@);
                },
                None => {
                    assert(out@ =~= self@);
                    return out;
                },
            }
        }
    }
}

/// Both points of every pair that a zip has still to hand out, and so of every pair that
/// `next` hands out, lie on one level of the zip's axis.
pub proof fn lemma_pairs_share_level(z: &BresenhamZip)
    requires
        z.wf(),
    ensures
        forall|i: int|
            0 <= i < z@.len() ==> (#[trigger] z@[i]).0.level(z.spec_axis()) == z@[i].1.level(
                z.spec_axis(),
            ),
{
    lemma_pending_shape(z.line_a(), z.line_b(), z.goal as int, z.axis);
}

/// The level on which both lines end comes in exactly one pair: the last one.
pub proof fn lemma_end_level_once(z: &BresenhamZip)
    requires
        z.wf(),
        z@.len() > 0,
    ensures
        z@.last().0.level(z.spec_axis()) == z.end_level(),
        forall|i: int| 0 <= i < z@.len() - 1 ==> (#[trigger] z@[i]).0.level(z.spec_axis()) != z.end_level(),
{
    lemma_pending_shape(z.line_a(), z.line_b(), z.goal as int, z.axis);
}

impl View for BresenhamZip {
    type V = Seq<(Point2, Point2)>;

    /// The pairs that the zip has still to hand out.
    closed spec fn view(&self) -> Seq<(Point2, Point2)> {
        pending_pairs(self.line_a(), self.line_b(), self.goal as int, self.axis)
    }
}

} // verus!
