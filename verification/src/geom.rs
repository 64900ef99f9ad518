//! Points, polylines, bounding boxes and alignment offsets.
//!
//! Coordinates live in the source (Y-down) space and are fixed-point
//! integers: counts of thousandths of a millimetre. A polyline is a
//! non-empty ordered sequence of points; it is closed exactly when its
//! first and last points are equal, field for field.

use vstd::math::{max, min};
use vstd::prelude::*;
use vstd::seq_lib::group_seq_properties;

verus! {

/// Largest magnitude a coordinate may have, in thousandths. Keeping
/// coordinates within this range keeps every translated coordinate well
/// inside `i64`.
pub const COORD_LIMIT: i64 = 1_000_000_000_000;

/// A point of the source drawing, in thousandths.
#[derive(Clone, Copy, PartialEq, Eq, Structural, Debug)]
pub struct Point {
    pub x: i64,
    pub y: i64,
}

/// Which reference point of the bounding box is mapped to the output origin.
#[derive(Clone, Copy, PartialEq, Eq, Structural, Debug)]
pub enum Align {
    Unchanged,
    Center,
    TopLeft,
    BottomLeft,
}

/// The axis-aligned bounding box of a point collection, in source space.
#[derive(Clone, Copy, PartialEq, Eq, Structural, Debug)]
pub struct Bounds {
    pub x_min: i64,
    pub x_max: i64,
    pub y_min: i64,
    pub y_max: i64,
}

pub open spec fn point_wf(p: Point) -> bool {
    &&& -COORD_LIMIT <= p.x <= COORD_LIMIT
    &&& -COORD_LIMIT <= p.y <= COORD_LIMIT
}

/// Every polyline is non-empty and holds only coordinates in range.
pub open spec fn polylines_wf(pls: Seq<Seq<Point>>) -> bool {
    forall|i: int|
        0 <= i < pls.len() ==> (#[trigger] pls[i]).len() > 0 && (forall|j: int|
            0 <= j < pls[i].len() ==> point_wf(#[trigger] pls[i][j]))
}

/// The sequence views of a vector of polylines.
pub open spec fn deep(pls: Seq<Vec<Point>>) -> Seq<Seq<Point>> {
    pls.map_values(|v: Vec<Point>| v@)
}

/// All points of all polylines, in order.
pub open spec fn all_points(pls: Seq<Seq<Point>>) -> Seq<Point> {
    pls.flatten()
}

pub open spec fn xs(pts: Seq<Point>) -> Seq<int> {
    pts.map_values(|p: Point| p.x as int)
}

pub open spec fn ys(pts: Seq<Point>) -> Seq<int> {
    pts.map_values(|p: Point| p.y as int)
}

/// Least element of a non-empty integer sequence.
pub open spec fn seq_min(s: Seq<int>) -> int
    recommends
        s.len() > 0,
    decreases s.len(),
{
    if s.len() <= 1 {
        s[0]
    } else {
        min(seq_min(s.drop_last()), s.last())
    }
}

/// Greatest element of a non-empty integer sequence.
pub open spec fn seq_max(s: Seq<int>) -> int
    recommends
        s.len() > 0,
    decreases s.len(),
{
    if s.len() <= 1 {
        s[0]
    } else {
        max(seq_max(s.drop_last()), s.last())
    }
}

/// `b` is the bounding box of the point collection `pts`.
pub open spec fn is_bounds_of(b: Bounds, pts: Seq<Point>) -> bool {
    &&& b.x_min as int == seq_min(xs(pts))
    &&& b.x_max as int == seq_max(xs(pts))
    &&& b.y_min as int == seq_min(ys(pts))
    &&& b.y_max as int == seq_max(ys(pts))
}

pub open spec fn bounds_wf(b: Bounds) -> bool {
    &&& b.x_min <= b.x_max
    &&& b.y_min <= b.y_max
    &&& -COORD_LIMIT <= b.x_min && b.x_max <= COORD_LIMIT
    &&& -COORD_LIMIT <= b.y_min && b.y_max <= COORD_LIMIT
}

/// The translation that the alignment mode derives from a bounding box,
/// still in source (Y-down) space. Centering halves the box extent with
/// integer division, rounding the half-width down.
pub open spec fn offset_from(x_min: int, x_max: int, y_min: int, y_max: int, a: Align) -> (
    int,
    int,
) {
    match a {
        Align::Unchanged => (0, 0),
        Align::Center => (-x_min - (x_max - x_min) / 2, -y_min - (y_max - y_min) / 2),
        Align::TopLeft => (-x_min, -y_min),
        Align::BottomLeft => (-x_min, -y_max),
    }
}

pub open spec fn offset_spec(b: Bounds, a: Align) -> (int, int) {
    offset_from(b.x_min as int, b.x_max as int, b.y_min as int, b.y_max as int, a)
}

/// Whether first and last point of a polyline coincide exactly.
pub open spec fn is_closed(pts: Seq<Point>) -> bool
    recommends
        pts.len() > 0,
{
    pts[0] == pts[pts.len() - 1]
}

/// Classify a polyline as closed or open: closed exactly when its first and
/// last points are coordinate-equal.
pub fn polyline_is_closed(pl: &Vec<Point>) -> (r: bool)
    requires
        pl@.len() > 0,
    ensures
        r == is_closed(pl@),
{
    let first = pl[0];
    let last = pl[pl.len() - 1];
    first == last
}

/// Removing the duplicate trailing point of a closed polyline opens it,
/// provided the shortened polyline does not itself end where it starts.
pub proof fn lemma_drop_trailing_duplicate_opens(pts: Seq<Point>)
    requires
        pts.len() >= 2,
        is_closed(pts),
        pts[0] != pts[pts.len() - 2],
    ensures
        !is_closed(pts.drop_last()),
{
}

proof fn lemma_seq_min_le(s: Seq<int>, i: int)
    requires
        0 <= i < s.len(),
    ensures
        seq_min(s) <= s[i],
    decreases s.len(),
{
    if s.len() > 1 && i < s.len() - 1 {
        lemma_seq_min_le(s.drop_last(), i);
    }
}

proof fn lemma_seq_max_ge(s: Seq<int>, i: int)
    requires
        0 <= i < s.len(),
    ensures
        seq_max(s) >= s[i],
    decreases s.len(),
{
    if s.len() > 1 && i < s.len() - 1 {
        lemma_seq_max_ge(s.drop_last(), i);
    }
}

proof fn lemma_seq_min_attained(s: Seq<int>)
    requires
        s.len() > 0,
    ensures
        exists|i: int| 0 <= i < s.len() && s[i] == seq_min(s),
    decreases s.len(),
{
    if s.len() == 1 {
        assert(s[0] == seq_min(s));
    } else {
        lemma_seq_min_attained(s.drop_last());
        if seq_min(s) == s.last() {
            assert(s[s.len() - 1] == seq_min(s));
        } else {
            let i = choose|i: int| 0 <= i < s.drop_last().len() && s.drop_last()[i] == seq_min(
                s.drop_last(),
            );
            assert(s[i] == seq_min(s));
        }
    }
}

proof fn lemma_seq_max_attained(s: Seq<int>)
    requires
        s.len() > 0,
    ensures
        exists|i: int| 0 <= i < s.len() && s[i] == seq_max(s),
    decreases s.len(),
{
    if s.len() == 1 {
        assert(s[0] == seq_max(s));
    } else {
        lemma_seq_max_attained(s.drop_last());
        if seq_max(s) == s.last() {
            assert(s[s.len() - 1] == seq_max(s));
        } else {
            let i = choose|i: int| 0 <= i < s.drop_last().len() && s.drop_last()[i] == seq_max(
                s.drop_last(),
            );
            assert(s[i] == seq_max(s));
        }
    }
}

/// Every point of a collection lies inside the collection's bounding box,
/// and each of the four box edges is attained by some point.
pub proof fn lemma_bounds_enclose(pts: Seq<Point>, b: Bounds)
    requires
        pts.len() > 0,
        is_bounds_of(b, pts),
    ensures
        forall|i: int|
            0 <= i < pts.len() ==> b.x_min <= (#[trigger] pts[i]).x <= b.x_max && b.y_min
                <= pts[i].y <= b.y_max,
        exists|i: int| 0 <= i < pts.len() && (#[trigger] pts[i]).x == b.x_min,
        exists|i: int| 0 <= i < pts.len() && (#[trigger] pts[i]).x == b.x_max,
        exists|i: int| 0 <= i < pts.len() && (#[trigger] pts[i]).y == b.y_min,
        exists|i: int| 0 <= i < pts.len() && (#[trigger] pts[i]).y == b.y_max,
{
    assert forall|i: int| 0 <= i < pts.len() implies b.x_min <= (#[trigger] pts[i]).x <= b.x_max
        && b.y_min <= pts[i].y <= b.y_max by {
        lemma_seq_min_le(xs(pts), i);
        lemma_seq_max_ge(xs(pts), i);
        lemma_seq_min_le(ys(pts), i);
        lemma_seq_max_ge(ys(pts), i);
    }
    lemma_seq_min_attained(xs(pts));
    lemma_seq_max_attained(xs(pts));
    lemma_seq_min_attained(ys(pts));
    lemma_seq_max_attained(ys(pts));
    let i1 = choose|i: int| 0 <= i < xs(pts).len() && xs(pts)[i] == seq_min(xs(pts));
    assert(pts[i1].x == b.x_min);
    let i2 = choose|i: int| 0 <= i < xs(pts).len() && xs(pts)[i] == seq_max(xs(pts));
    assert(pts[i2].x == b.x_max);
    let i3 = choose|i: int| 0 <= i < ys(pts).len() && ys(pts)[i] == seq_min(ys(pts));
    assert(pts[i3].y == b.y_min);
    let i4 = choose|i: int| 0 <= i < ys(pts).len() && ys(pts)[i] == seq_max(ys(pts));
    assert(pts[i4].y == b.y_max);
}

/// The flattened point list contains every point of every polyline.
pub proof fn lemma_all_points_contain(pls: Seq<Seq<Point>>, i: int, j: int)
    requires
        0 <= i < pls.len(),
        0 <= j < pls[i].len(),
    ensures
        all_points(pls).contains(pls[i][j]),
    decreases pls.len(),
{
    broadcast use group_seq_properties;

    if i == 0 {
        assert(pls.flatten() == pls.first() + pls.drop_first().flatten());
        assert(pls.flatten()[j] == pls[0][j]);
    } else {
        lemma_all_points_contain(pls.drop_first(), i - 1, j);
        let rest = pls.drop_first().flatten();
        let k = choose|k: int| 0 <= k < rest.len() && rest[k] == pls[i][j];
        assert(pls.flatten() == pls.first() + rest);
        assert(pls.flatten()[pls[0].len() + k] == pls[i][j]);
    }
}

/// A non-empty well-formed collection flattens to a non-empty list of
/// well-formed points.
pub proof fn lemma_all_points_wf(pls: Seq<Seq<Point>>)
    requires
        polylines_wf(pls),
        pls.len() > 0,
    ensures
        all_points(pls).len() > 0,
        forall|k: int| 0 <= k < all_points(pls).len() ==> point_wf(#[trigger] all_points(pls)[k]),
{
    pls.lemma_flatten_length_ge_single_element_length(0);
    assert(pls[0].len() > 0);
    assert forall|k: int| 0 <= k < all_points(pls).len() implies point_wf(
        #[trigger] all_points(pls)[k],
    ) by {
        lemma_flatten_index_origin(pls, k);
    }
}

/// Collect every point of every polyline into one flat list, in order.
pub(crate) fn flatten_points(polylines: &Vec<Vec<Point>>) -> (r: Vec<Point>)
    ensures
        r@ == all_points(deep(polylines@)),
{
    broadcast use group_seq_properties;

    let mut r: Vec<Point> = Vec::new();
    let mut i: usize = 0;
    proof {
        assert(deep(polylines@.take(0)) =~= Seq::<Seq<Point>>::empty());
        assert(r@ =~= all_points(deep(polylines@.take(0))));
    }
    while i < polylines.len()
        invariant
            0 <= i <= polylines@.len(),
            r@ == all_points(deep(polylines@.take(i as int))),
        decreases polylines@.len() - i,
    {
        let pl = &polylines[i];
        let mut j: usize = 0;
        while j < pl.len()
            invariant
                0 <= j <= pl@.len(),
                pl@ == polylines@[i as int]@,
                0 <= i < polylines@.len(),
                r@ == all_points(deep(polylines@.take(i as int))) + pl@.take(j as int),
            decreases pl@.len() - j,
        {
            r.push(pl[j]);
            proof {
                assert(pl@.take(j as int).push(pl@[j as int]) =~= pl@.take(j + 1));
            }
            j += 1;
        }
        proof {
            let prefix = deep(polylines@.take(i as int));
            assert(deep(polylines@.take(i + 1)) =~= prefix.push(polylines@[i as int]@));
            prefix.lemma_flatten_push(polylines@[i as int]@);
            assert(pl@.take(j as int) =~= pl@);
        }
        i += 1;
    }
    proof {
        assert(polylines@.take(polylines@.len() as int) =~= polylines@);
    }
    r
}

pub(crate) fn bounds_of_flat(flat: &Vec<Point>) -> (b: Bounds)
    requires
        flat@.len() > 0,
        forall|i: int| 0 <= i < flat@.len() ==> point_wf(#[trigger] flat@[i]),
    ensures
        is_bounds_of(b, flat@),
        bounds_wf(b),
{
    let first = flat[0];
    let mut b = Bounds { x_min: first.x, x_max: first.x, y_min: first.y, y_max: first.y };
    let mut i: usize = 1;
    proof {
        assert(xs(flat@.take(1)) =~= seq![flat@[0].x as int]);
        assert(ys(flat@.take(1)) =~= seq![flat@[0].y as int]);
    }
    while i < flat.len()
        invariant
            1 <= i <= flat@.len(),
            forall|k: int| 0 <= k < flat@.len() ==> point_wf(#[trigger] flat@[k]),
            is_bounds_of(b, flat@.take(i as int)),
        decreases flat@.len() - i,
    {
        let p = flat[i];
        proof {
            let pre = flat@.take(i as int);
            let ext = flat@.take(i + 1);
            assert(ext =~= pre.push(flat@[i as int]));
            assert(xs(ext) =~= xs(pre).push(p.x as int));
            assert(ys(ext) =~= ys(pre).push(p.y as int));
            assert(xs(ext).drop_last() =~= xs(pre));
            assert(ys(ext).drop_last() =~= ys(pre));
        }
        if p.x < b.x_min {
            b.x_min = p.x;
        }
        if p.x > b.x_max {
            b.x_max = p.x;
        }
        if p.y < b.y_min {
            b.y_min = p.y;
        }
        if p.y > b.y_max {
            b.y_max = p.y;
        }
        i += 1;
    }
    proof {
        assert(flat@.take(flat@.len() as int) =~= flat@);
        lemma_seq_min_attained(xs(flat@));
        lemma_seq_max_attained(xs(flat@));
        lemma_seq_min_attained(ys(flat@));
        lemma_seq_max_attained(ys(flat@));
        lemma_seq_min_le(xs(flat@), 0);
        lemma_seq_max_ge(xs(flat@), 0);
        lemma_seq_min_le(ys(flat@), 0);
        lemma_seq_max_ge(ys(flat@), 0);
    }
    b
}

/// The bounding box of a polyline collection: absent for an empty
/// collection, otherwise the running minima and maxima of both axes over
/// every point of every polyline.
pub fn compute_bounds(polylines: &Vec<Vec<Point>>) -> (r: Option<Bounds>)
    requires
        polylines_wf(deep(polylines@)),
    ensures
        r is None <==> polylines@.len() == 0,
        r matches Some(b) ==> is_bounds_of(b, all_points(deep(polylines@))) && bounds_wf(b),
{
    if polylines.len() == 0 {
        return None;
    }
    let flat = flatten_points(polylines);
    proof {
        lemma_all_points_wf(deep(polylines@));
    }
    Some(bounds_of_flat(&flat))
}

/// Every element of a flattened sequence comes from one of the nested ones.
proof fn lemma_flatten_index_origin(pls: Seq<Seq<Point>>, k: int)
    requires
        polylines_wf(pls),
        0 <= k < pls.flatten().len(),
    ensures
        exists|i: int, j: int|
            0 <= i < pls.len() && 0 <= j < pls[i].len() && #[trigger] pls[i][j] == pls.flatten()[k],
    decreases pls.len(),
{
    broadcast use group_seq_properties;

    assert(pls.len() > 0);
    assert(pls.flatten() == pls.first() + pls.drop_first().flatten());
    if k < pls[0].len() {
        assert(pls[0][k] == pls.flatten()[k]);
    } else {
        assert(polylines_wf(pls.drop_first()));
        lemma_flatten_index_origin(pls.drop_first(), k - pls[0].len());
        let (i, j) = choose|i: int, j: int|
            0 <= i < pls.drop_first().len() && 0 <= j < pls.drop_first()[i].len()
                && #[trigger] pls.drop_first()[i][j] == pls.drop_first().flatten()[k - pls[0].len()];
        assert(pls[i + 1][j] == pls.flatten()[k]);
    }
}

/// The alignment translation that a bounding box and a mode give.
pub fn compute_offset(b: &Bounds, align: Align) -> (r: (i64, i64))
    requires
        bounds_wf(*b),
    ensures
        (r.0 as int, r.1 as int) == offset_spec(*b, align),
        -2 * COORD_LIMIT <= r.0 <= 2 * COORD_LIMIT,
        -2 * COORD_LIMIT <= r.1 <= 2 * COORD_LIMIT,
{
    match align {
        Align::Unchanged => (0, 0),
        Align::Center => {
            let halfwidth = (b.x_max - b.x_min) / 2;
            let halfheight = (b.y_max - b.y_min) / 2;
            (-b.x_min - halfwidth, -b.y_min - halfheight)
        },
        Align::TopLeft => (-b.x_min, -b.y_min),
        Align::BottomLeft => (-b.x_min, -b.y_max),
    }
}

/// Centering is symmetric: translate a collection by the Center offset and
/// the recomputed bounding box sits about the origin, off by at most one
/// thousandth on each axis (the rounding of the integer halving). The
/// emitted X coordinate of a point is `x + dx` and the emitted Y coordinate
/// is `-(y + dy)`, inverting the source axis.
pub proof fn lemma_center_symmetric(pts: Seq<Point>, b: Bounds)
    requires
        pts.len() > 0,
        is_bounds_of(b, pts),
        bounds_wf(b),
    ensures
        ({
            let (dx, dy) = offset_spec(b, Align::Center);
            let txs = pts.map_values(|p: Point| (p.x as int) + dx);
            let tys = pts.map_values(|p: Point| -((p.y as int) + dy));
            &&& 0 <= seq_min(txs) + seq_max(txs) <= 1
            &&& -1 <= seq_min(tys) + seq_max(tys) <= 0
        }),
{
    let (dx, dy) = offset_spec(b, Align::Center);
    let txs = pts.map_values(|p: Point| (p.x as int) + dx);
    let tys = pts.map_values(|p: Point| -((p.y as int) + dy));
    lemma_map_shift(pts, dx);
    lemma_map_neg_shift(pts, dy);
    let w = (b.x_max as int) - (b.x_min as int);
    let h = (b.y_max as int) - (b.y_min as int);
    vstd::arithmetic::div_mod::lemma_fundamental_div_mod(w, 2);
    vstd::arithmetic::div_mod::lemma_fundamental_div_mod(h, 2);
    vstd::arithmetic::div_mod::lemma_mod_bound(w, 2);
    vstd::arithmetic::div_mod::lemma_mod_bound(h, 2);
    assert(seq_min(txs) + seq_max(txs) == w - 2 * (w / 2));
    assert(seq_min(tys) + seq_max(tys) == -(h - 2 * (h / 2)));
}

proof fn lemma_map_shift(pts: Seq<Point>, d: int)
    requires
        pts.len() > 0,
    ensures
        seq_min(pts.map_values(|p: Point| (p.x as int) + d)) == seq_min(xs(pts)) + d,
        seq_max(pts.map_values(|p: Point| (p.x as int) + d)) == seq_max(xs(pts)) + d,
    decreases pts.len(),
{
    let m = pts.map_values(|p: Point| (p.x as int) + d);
    if pts.len() == 1 {
    } else {
        lemma_map_shift(pts.drop_last(), d);
        assert(pts.drop_last().map_values(|p: Point| (p.x as int) + d) =~= m.drop_last());
        assert(xs(pts.drop_last()) =~= xs(pts).drop_last());
    }
}

proof fn lemma_map_neg_shift(pts: Seq<Point>, d: int)
    requires
        pts.len() > 0,
    ensures
        seq_min(pts.map_values(|p: Point| -((p.y as int) + d))) == -(seq_max(ys(pts)) + d),
        seq_max(pts.map_values(|p: Point| -((p.y as int) + d))) == -(seq_min(ys(pts)) + d),
    decreases pts.len(),
{
    let m = pts.map_values(|p: Point| -((p.y as int) + d));
    if pts.len() == 1 {
    } else {
        lemma_map_neg_shift(pts.drop_last(), d);
        assert(pts.drop_last().map_values(|p: Point| -((p.y as int) + d)) =~= m.drop_last());
        assert(ys(pts.drop_last()) =~= ys(pts).drop_last());
    }
}

} // verus!
