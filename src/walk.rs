//! Walks of lattice points and the levels they pass through along an axis.
use vstd::prelude::*;

use crate::point::Point;
use crate::Axis;

verus! {

/// -1, 0 or 1, as `v` is negative, zero or positive.
pub open spec fn sign(v: int) -> int {
    if v > 0 {
        1
    } else if v < 0 {
        -1
    } else {
        0
    }
}

/// `pts` runs from `from` to `to`, and along every axis that the points have, each step moves
/// by zero or by one unit towards `to`.
pub open spec fn straight_walk<P: Point>(pts: Seq<P>, from: P, to: P) -> bool {
    &&& pts.len() >= 1
    &&& pts[0] == from
    &&& pts.last() == to
    &&& forall|axis: Axis, i: int|
        #![trigger P::has_axis(axis), pts[i]]
        P::has_axis(axis) && 0 <= i < pts.len() - 1 ==> {
            let step = pts[i + 1].level(axis) - pts[i].level(axis);
            step == 0 || step == sign(to.level(axis) - from.level(axis))
        }
}


/// The change of level along `axis` between point `i` and point `i + 1`.
pub open spec fn step<P: Point>(s: Seq<P>, axis: Axis, i: int) -> int {
    s[i + 1].level(axis) - s[i].level(axis)
}

/// Every step of `s` along `axis` is zero or `d`.
pub open spec fn steps_by<P: Point>(s: Seq<P>, axis: Axis, d: int) -> bool {
    forall|i: int| 0 <= i < s.len() - 1 ==> #[trigger] step(s, axis, i) == 0 || step(s, axis, i) == d
}

/// Along `axis`, `s` moves in unit steps, always in the same direction.
pub open spec fn monotone<P: Point>(s: Seq<P>, axis: Axis) -> bool {
    steps_by(s, axis, 1) || steps_by(s, axis, -1)
}

/// The length of the leading run of points of `s` that share the level of the first.
pub open spec fn run_len<P: Point>(s: Seq<P>, axis: Axis) -> int
    decreases s.len(),
{
    if s.len() <= 1 {
        s.len() as int
    } else if s[1].level(axis) != s[0].level(axis) {
        1
    } else {
        1 + run_len(s.drop_first(), axis)
    }
}

/// What pulling `s` up to its next change of level hands out: the last point of the leading
/// run, or nothing when the level never changes.
pub open spec fn pull_point<P: Point>(s: Seq<P>, axis: Axis) -> Option<P> {
    let k = run_len(s, axis);
    if k < s.len() {
        Some(s[k - 1])
    } else {
        None
    }
}

/// What is left of `s` after that pull: the retained point followed by the points not yet
/// pulled.
pub open spec fn pulled<P: Point>(s: Seq<P>, axis: Axis) -> Seq<P> {
    let k = run_len(s, axis);
    if k < s.len() {
        s.skip(k)
    } else {
        s.skip(s.len() - 1)
    }
}

/// The last point of `s` on level `c` of `axis`.
pub open spec fn last_at<P: Point>(s: Seq<P>, axis: Axis, c: int) -> P
    decreases s.len(),
{
    if s.len() == 0 {
        arbitrary()
    } else if s.last().level(axis) == c {
        s.last()
    } else {
        last_at(s.drop_last(), axis, c)
    }
}

/// The `i`-th level on the way from level `c` to level `g`.
pub open spec fn level_index(c: int, g: int, i: int) -> int {
    if g >= c {
        c + i
    } else {
        c - i
    }
}

/// The number of levels from `c` to `g`, both included.
pub open spec fn level_count(c: int, g: int) -> int {
    if g >= c {
        g - c + 1
    } else {
        c - g + 1
    }
}

/// For each level from the first of `a` to the last of `a`, in order: the last point of `a`
/// and the last point of `b` on that level.
pub open spec fn level_pairs<P: Point>(a: Seq<P>, b: Seq<P>, axis: Axis) -> Seq<(P, P)> {
    let c = a[0].level(axis);
    let g = a.last().level(axis);
    Seq::new(
        level_count(c, g) as nat,
        |i: int| (last_at(a, axis, level_index(c, g, i)), last_at(b, axis, level_index(c, g, i))),
    )
}

/// The state of a zip: `a` and `b` are the retained points followed by what their lines have
/// left, and `goal` is the remaining target.
pub open spec fn zip_ok<P: Point>(a: Seq<P>, b: Seq<P>, goal: int, axis: Axis) -> bool {
    &&& a.len() >= 1
    &&& b.len() >= 1
    &&& monotone(a, axis)
    &&& monotone(b, axis)
    &&& a[0].level(axis) == b[0].level(axis)
    &&& a.last().level(axis) == b.last().level(axis)
    &&& goal == a.last().level(axis) || (a.len() == 1 && b.len() == 1 && goal == a.last().level(
        axis,
    ) - 1)
}

/// The pairs that a zip in that state has still to hand out.
pub open spec fn pending_pairs<P: Point>(a: Seq<P>, b: Seq<P>, goal: int, axis: Axis) -> Seq<
    (P, P),
> {
    if a.len() == 1 && goal != a[0].level(axis) {
        Seq::empty()
    } else {
        level_pairs(a, b, axis)
    }
}


/// The leading run: it is not empty, its points share the first level, and the point after
/// it (if any) does not.
pub proof fn lemma_run_len<P: Point>(s: Seq<P>, axis: Axis)
    requires
        s.len() >= 1,
    ensures
        1 <= run_len(s, axis) <= s.len(),
        forall|i: int| 0 <= i < run_len(s, axis) ==> #[trigger] s[i].level(axis) == s[0].level(axis),
        run_len(s, axis) < s.len() ==> s[run_len(s, axis)].level(axis) != s[0].level(axis),
    decreases s.len(),
{
    if s.len() > 1 && s[1].level(axis) == s[0].level(axis) {
        let t = s.drop_first();
        lemma_run_len(t, axis);
        assert forall|i: int| 0 <= i < run_len(s, axis) implies #[trigger] s[i].level(axis) == s[0].level(
            axis,
        ) by {
            if i > 0 {
                assert(s[i] == t[i - 1]);
            }
        }
    }
}

/// A monotone walk never turns back.
pub proof fn lemma_monotone_order<P: Point>(s: Seq<P>, axis: Axis, d: int, i: int, j: int)
    requires
        steps_by(s, axis, d),
        d == 1 || d == -1,
        0 <= i <= j < s.len(),
    ensures
        d == 1 ==> s[i].level(axis) <= s[j].level(axis),
        d == -1 ==> s[i].level(axis) >= s[j].level(axis),
    decreases j - i,
{
    if i < j {
        lemma_monotone_order(s, axis, d, i, j - 1);
        assert(step(s, axis, j - 1) == 0 || step(s, axis, j - 1) == d);
    }
}

/// A monotone walk whose ends share a level stays on that level.
pub proof fn lemma_flat<P: Point>(s: Seq<P>, axis: Axis)
    requires
        s.len() >= 1,
        monotone(s, axis),
        s[0].level(axis) == s.last().level(axis),
    ensures
        forall|i: int| 0 <= i < s.len() ==> #[trigger] s[i].level(axis) == s[0].level(axis),
{
    let d = if steps_by(s, axis, 1) {
        1int
    } else {
        -1int
    };
    assert forall|i: int| 0 <= i < s.len() implies #[trigger] s[i].level(axis) == s[0].level(axis) by {
        lemma_monotone_order(s, axis, d, 0, i);
        lemma_monotone_order(s, axis, d, i, s.len() - 1);
    }
}

/// A monotone walk passes through every level between its ends.
pub proof fn lemma_covers<P: Point>(s: Seq<P>, axis: Axis, d: int, lv: int) -> (i: int)
    requires
        s.len() >= 1,
        steps_by(s, axis, d),
        d == 1 || d == -1,
        d == 1 ==> s[0].level(axis) <= lv <= s.last().level(axis),
        d == -1 ==> s.last().level(axis) <= lv <= s[0].level(axis),
    ensures
        0 <= i < s.len(),
        s[i].level(axis) == lv,
    decreases s.len(),
{
    if s.last().level(axis) == lv {
        s.len() - 1
    } else {
        let t = s.drop_last();
        assert(step(s, axis, s.len() - 2) == 0 || step(s, axis, s.len() - 2) == d);
        assert forall|k: int| 0 <= k < t.len() - 1 implies #[trigger] step(t, axis, k) == 0 || step(
            t,
            axis,
            k,
        ) == d by {
            assert(step(t, axis, k) == step(s, axis, k));
        }
        lemma_covers(t, axis, d, lv)
    }
}

/// With no point of `s` on level `c`, the last point on `c` is the one of the empty sequence.
pub proof fn lemma_last_at_absent<P: Point>(s: Seq<P>, axis: Axis, c: int)
    requires
        forall|i: int| 0 <= i < s.len() ==> #[trigger] s[i].level(axis) != c,
    ensures
        last_at(s, axis, c) == last_at(Seq::<P>::empty(), axis, c),
    decreases s.len(),
{
    if s.len() > 0 {
        let t = s.drop_last();
        assert forall|i: int| 0 <= i < t.len() implies #[trigger] t[i].level(axis) != c by {
            assert(t[i] == s[i]);
        }
        lemma_last_at_absent(t, axis, c);
    }
}

/// Points after `p` that miss level `c` do not change the last point of `p` on it.
pub proof fn lemma_last_at_prefix<P: Point>(p: Seq<P>, q: Seq<P>, axis: Axis, c: int)
    requires
        forall|i: int| 0 <= i < q.len() ==> #[trigger] q[i].level(axis) != c,
    ensures
        last_at(p + q, axis, c) == last_at(p, axis, c),
    decreases q.len(),
{
    if q.len() == 0 {
        assert(p + q =~= p);
    } else {
        let t = q.drop_last();
        assert((p + q).drop_last() =~= p + t);
        assert((p + q).last() == q[q.len() - 1]);
        assert forall|i: int| 0 <= i < t.len() implies #[trigger] t[i].level(axis) != c by {
            assert(t[i] == q[i]);
        }
        lemma_last_at_prefix(p, t, axis, c);
    }
}

/// Points before `q` that miss level `c` do not change the last point of `q` on it.
pub proof fn lemma_last_at_suffix<P: Point>(p: Seq<P>, q: Seq<P>, axis: Axis, c: int)
    requires
        forall|i: int| 0 <= i < p.len() ==> #[trigger] p[i].level(axis) != c,
    ensures
        last_at(p + q, axis, c) == last_at(q, axis, c),
    decreases q.len(),
{
    if q.len() == 0 {
        assert(p + q =~= p);
        lemma_last_at_absent(p, axis, c);
    } else {
        let t = q.drop_last();
        assert((p + q).drop_last() =~= p + t);
        assert((p + q).last() == q.last());
        lemma_last_at_suffix(p, t, axis, c);
    }
}

/// Where `s` has a point on level `c`, the last such point is a point of `s` on `c`.
pub proof fn lemma_last_at_found<P: Point>(s: Seq<P>, axis: Axis, c: int, i: int)
    requires
        0 <= i < s.len(),
        s[i].level(axis) == c,
    ensures
        s.contains(last_at(s, axis, c)),
        last_at(s, axis, c).level(axis) == c,
    decreases s.len(),
{
    if s.last().level(axis) == c {
        assert(s[s.len() - 1] == s.last());
    } else {
        let t = s.drop_last();
        assert(t[i] == s[i]);
        lemma_last_at_found(t, axis, c, i);
        let j = choose|j: int| 0 <= j < t.len() && t[j] == last_at(t, axis, c);
        assert(s[j] == t[j]);
    }
}


/// A straight walk is monotone along each of its axes.
pub proof fn lemma_straight_monotone<P: Point>(pts: Seq<P>, from: P, to: P, axis: Axis)
    requires
        P::has_axis(axis),
        straight_walk(pts, from, to),
    ensures
        monotone(pts, axis),
{
    let d = if to.level(axis) < from.level(axis) {
        -1int
    } else {
        1int
    };
    assert forall|i: int| 0 <= i < pts.len() - 1 implies #[trigger] step(pts, axis, i) == 0 || step(
        pts,
        axis,
        i,
    ) == d by {
        assert(P::has_axis(axis) && pts[i] == pts[i]);
    }
    assert(steps_by(pts, axis, d));
}

/// Two straight walks from one start to ends on one level make the initial state of a zip.
pub proof fn lemma_zip_start<P: Point>(a: Seq<P>, b: Seq<P>, start: P, end1: P, end2: P, axis: Axis)
    requires
        P::has_axis(axis),
        straight_walk(a, start, end1),
        straight_walk(b, start, end2),
        end1.level(axis) == end2.level(axis),
    ensures
        zip_ok(a, b, end1.level(axis), axis),
{
    lemma_straight_monotone(a, start, end1, axis);
    lemma_straight_monotone(b, start, end2, axis);
}

/// After the leading run of a monotone walk, the walk never comes back to its first level, and
/// the point right after the run is one unit further.
pub proof fn lemma_past_run<P: Point>(s: Seq<P>, axis: Axis)
    requires
        s.len() >= 1,
        monotone(s, axis),
        run_len(s, axis) < s.len(),
    ensures
        forall|j: int|
            run_len(s, axis) <= j < s.len() ==> #[trigger] s[j].level(axis) != s[0].level(axis),
        s.last().level(axis) != s[0].level(axis),
        s[run_len(s, axis)].level(axis) == s[0].level(axis) + sign(
            s.last().level(axis) - s[0].level(axis),
        ),
        monotone(s.skip(run_len(s, axis)), axis),
{
    lemma_run_len(s, axis);
    let k = run_len(s, axis);
    let d = if steps_by(s, axis, 1) {
        1int
    } else {
        -1int
    };
    assert(step(s, axis, k - 1) == 0 || step(s, axis, k - 1) == d);
    assert forall|j: int| k <= j < s.len() implies #[trigger] s[j].level(axis) != s[0].level(axis) by {
        lemma_monotone_order(s, axis, d, k, j);
    }
    lemma_monotone_order(s, axis, d, k, s.len() - 1);
    let t = s.skip(k);
    assert forall|i: int| 0 <= i < t.len() - 1 implies #[trigger] step(t, axis, i) == 0 || step(
        t,
        axis,
        i,
    ) == d by {
        assert(step(t, axis, i) == step(s, axis, i + k));
    }
}

/// One pull of each line: a zip state hands out its first pending pair and moves to a state
/// whose pending pairs are the rest.
pub proof fn lemma_zip_step<P: Point>(a: Seq<P>, b: Seq<P>, goal: int, axis: Axis)
    requires
        zip_ok(a, b, goal, axis),
    ensures
        pulled(a, axis).last() == a.last(),
        pull_point(a, axis) is Some ==> {
            &&& pull_point(b, axis) is Some
            &&& pending_pairs(a, b, goal, axis).len() > 0
            &&& pending_pairs(a, b, goal, axis)[0] == (
                pull_point(a, axis)->0,
                pull_point(b, axis)->0,
            )
            &&& zip_ok(pulled(a, axis), pulled(b, axis), goal, axis)
            &&& pending_pairs(pulled(a, axis), pulled(b, axis), goal, axis) == pending_pairs(
                a,
                b,
                goal,
                axis,
            ).drop_first()
        },
        pull_point(a, axis) is None && pulled(a, axis).last().level(axis) == goal ==> {
            &&& pending_pairs(a, b, goal, axis).len() > 0
            &&& pending_pairs(a, b, goal, axis)[0] == (pulled(a, axis)[0], pulled(b, axis)[0])
            &&& zip_ok(pulled(a, axis), pulled(b, axis), goal - 1, axis)
            &&& pending_pairs(pulled(a, axis), pulled(b, axis), goal - 1, axis) == pending_pairs(
                a,
                b,
                goal,
                axis,
            ).drop_first()
        },
        pull_point(a, axis) is None && pulled(a, axis).last().level(axis) != goal ==> {
            &&& pending_pairs(a, b, goal, axis).len() == 0
            &&& pulled(a, axis) == a
            &&& pulled(b, axis) == b
        },
{
    lemma_run_len(a, axis);
    lemma_run_len(b, axis);
    let ka = run_len(a, axis);
    let kb = run_len(b, axis);
    let c = a[0].level(axis);
    let g = a.last().level(axis);
    let pend = pending_pairs(a, b, goal, axis);
    if ka < a.len() {
        lemma_past_run(a, axis);
        if kb == b.len() {
            assert(b[b.len() - 1].level(axis) == b[0].level(axis));
        }
        lemma_past_run(b, axis);
        let a2 = a.skip(ka);
        let b2 = b.skip(kb);
        let (pa, qa) = (a.take(ka), a.skip(ka));
        let (pb, qb) = (b.take(kb), b.skip(kb));
        assert(a =~= pa + qa);
        assert(b =~= pb + qb);
        lemma_last_at_prefix(pa, qa, axis, c);
        lemma_last_at_prefix(pb, qb, axis, c);
        assert(pa.last().level(axis) == c);
        assert(pb.last().level(axis) == c);
        assert(pend[0] == (last_at(a, axis, c), last_at(b, axis, c)));
        let rest = pending_pairs(a2, b2, goal, axis);
        assert forall|i: int| 0 <= i < rest.len() implies #[trigger] rest[i] == pend.drop_first()[i] by {
            let lv = level_index(c, g, i + 1);
            assert(lv != c);
            lemma_last_at_suffix(pa, qa, axis, lv);
            lemma_last_at_suffix(pb, qb, axis, lv);
        }
        assert(rest =~= pend.drop_first());
    } else {
        lemma_flat(a, axis);
        lemma_flat(b, axis);
        if kb < b.len() {
            assert(b[kb].level(axis) == b[0].level(axis));
        }
        assert(pulled(a, axis) =~= seq![a.last()]);
        assert(pulled(b, axis) =~= seq![b.last()]);
        if a.last().level(axis) == goal {
            assert(pend[0] == (last_at(a, axis, c), last_at(b, axis, c)));
            assert(pending_pairs(pulled(a, axis), pulled(b, axis), goal - 1, axis) =~= pend.drop_first());
        } else {
            assert(a.skip(0) =~= a);
            assert(b.skip(0) =~= b);
        }
    }
}


/// When `q` has a point on level `c`, points before `q` do not change the last point on `c`.
pub proof fn lemma_last_at_front<P: Point>(p: Seq<P>, q: Seq<P>, axis: Axis, c: int, i: int)
    requires
        0 <= i < q.len(),
        q[i].level(axis) == c,
    ensures
        last_at(p + q, axis, c) == last_at(q, axis, c),
    decreases q.len(),
{
    assert((p + q).last() == q.last());
    if q.last().level(axis) != c {
        let t = q.drop_last();
        assert((p + q).drop_last() =~= p + t);
        assert(t[i] == q[i]);
        lemma_last_at_front(p, t, axis, c, i);
    }
}

/// A line whose first point is also the retained point: repeating the first point of each
/// line changes neither the state's soundness nor its pending pairs.
pub proof fn lemma_zip_prepend<P: Point>(a: Seq<P>, b: Seq<P>, axis: Axis)
    requires
        zip_ok(a, b, a.last().level(axis), axis),
    ensures
        zip_ok(seq![a[0]] + a, seq![b[0]] + b, a.last().level(axis), axis),
        pending_pairs(seq![a[0]] + a, seq![b[0]] + b, a.last().level(axis), axis) == level_pairs(
            a,
            b,
            axis,
        ),
{
    let a2 = seq![a[0]] + a;
    let b2 = seq![b[0]] + b;
    let c = a[0].level(axis);
    let g = a.last().level(axis);
    let da = if steps_by(a, axis, 1) {
        1int
    } else {
        -1int
    };
    let db = if steps_by(b, axis, 1) {
        1int
    } else {
        -1int
    };
    assert forall|i: int| 0 <= i < a2.len() - 1 implies #[trigger] step(a2, axis, i) == 0 || step(
        a2,
        axis,
        i,
    ) == da by {
        if i > 0 {
            assert(step(a2, axis, i) == step(a, axis, i - 1));
        }
    }
    assert forall|i: int| 0 <= i < b2.len() - 1 implies #[trigger] step(b2, axis, i) == 0 || step(
        b2,
        axis,
        i,
    ) == db by {
        if i > 0 {
            assert(step(b2, axis, i) == step(b, axis, i - 1));
        }
    }
    assert(steps_by(a2, axis, da));
    assert(steps_by(b2, axis, db));
    assert(a2.last() == a.last());
    assert(b2.last() == b.last());
    lemma_monotone_order(a, axis, da, 0, a.len() - 1);
    lemma_monotone_order(b, axis, db, 0, b.len() - 1);
    let l = level_pairs(a, b, axis);
    let l2 = pending_pairs(a2, b2, g, axis);
    assert forall|i: int| 0 <= i < l.len() implies #[trigger] l2[i] == l[i] by {
        let lv = level_index(c, g, i);
        if c == g {
            lemma_last_at_front(seq![a[0]], a, axis, lv, 0);
            lemma_last_at_front(seq![b[0]], b, axis, lv, 0);
        } else {
            let ia = lemma_covers(a, axis, da, lv);
            let ib = lemma_covers(b, axis, db, lv);
            lemma_last_at_front(seq![a[0]], a, axis, lv, ia);
            lemma_last_at_front(seq![b[0]], b, axis, lv, ib);
        }
    }
    assert(l2 =~= l);
}


/// The pairs of a zip state in full: the `i`-th pair lies on the `i`-th level on the way from
/// the first level to the last, its first point on `a` and its second on `b`.
pub proof fn lemma_level_pairs_shape<P: Point>(a: Seq<P>, b: Seq<P>, axis: Axis)
    requires
        zip_ok(a, b, a.last().level(axis), axis),
    ensures
        forall|i: int|
            0 <= i < level_pairs(a, b, axis).len() ==> {
                let lv = level_index(a[0].level(axis), a.last().level(axis), i);
                &&& (#[trigger] level_pairs(a, b, axis)[i]).0.level(axis) == lv
                &&& level_pairs(a, b, axis)[i].1.level(axis) == lv
                &&& a.contains(level_pairs(a, b, axis)[i].0)
                &&& b.contains(level_pairs(a, b, axis)[i].1)
            },
{
    let c = a[0].level(axis);
    let g = a.last().level(axis);
    let da = if steps_by(a, axis, 1) {
        1int
    } else {
        -1int
    };
    let db = if steps_by(b, axis, 1) {
        1int
    } else {
        -1int
    };
    lemma_monotone_order(a, axis, da, 0, a.len() - 1);
    lemma_monotone_order(b, axis, db, 0, b.len() - 1);
    let l = level_pairs(a, b, axis);
    assert forall|i: int| 0 <= i < l.len() implies {
        let lv = level_index(c, g, i);
        &&& (#[trigger] l[i]).0.level(axis) == lv
        &&& l[i].1.level(axis) == lv
        &&& a.contains(l[i].0)
        &&& b.contains(l[i].1)
    } by {
        let lv = level_index(c, g, i);
        if c == g {
            lemma_last_at_found(a, axis, lv, 0);
            lemma_last_at_found(b, axis, lv, 0);
        } else {
            let ia = lemma_covers(a, axis, da, lv);
            let ib = lemma_covers(b, axis, db, lv);
            lemma_last_at_found(a, axis, lv, ia);
            lemma_last_at_found(b, axis, lv, ib);
        }
    }
}

/// The pending pairs of a zip state: both points of each pair on one level, the levels being
/// those from the first level of `a` to its last, in order.
pub proof fn lemma_pending_shape<P: Point>(a: Seq<P>, b: Seq<P>, goal: int, axis: Axis)
    requires
        zip_ok(a, b, goal, axis),
    ensures
        pending_pairs(a, b, goal, axis).len() > 0 ==> goal == a.last().level(axis)
            && pending_pairs(a, b, goal, axis) == level_pairs(a, b, axis),
        forall|i: int|
            0 <= i < pending_pairs(a, b, goal, axis).len() ==> {
                let lv = level_index(a[0].level(axis), a.last().level(axis), i);
                &&& (#[trigger] pending_pairs(a, b, goal, axis)[i]).0.level(axis) == lv
                &&& pending_pairs(a, b, goal, axis)[i].1.level(axis) == lv
            },
{
    if pending_pairs(a, b, goal, axis).len() > 0 {
        lemma_level_pairs_shape(a, b, axis);
    }
}

} // verus!
