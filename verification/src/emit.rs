//! Polygon and footprint blocks of the structured output.
//!
//! One polyline becomes one polygon block: an identifier, a layer
//! reference, stroke width, fill and grab-area flags, and one vertex record
//! per point. A closed polyline is drawn with width `0.0` and filled; an
//! open one with width `0.2` and unfilled. The grab-area flag follows the
//! fill flag. Vertices are emitted translated by the alignment offset and
//! with the Y axis inverted for the LibrePCB (Y-up) convention.

use crate::fmt::{fmt_coord, format_coord};
use crate::geom::{
    all_points, bounds_of_flat, compute_offset, deep, flatten_points, is_closed,
    lemma_all_points_wf, offset_from, polyline_is_closed, polylines_wf, seq_max, seq_min, xs, ys,
    Align, Point, COORD_LIMIT,
};
use crate::ids::{
    draws, lemma_draws_refl, lemma_draws_then_fresh, lemma_draws_trans, new_ids, IdAllocator,
};
use crate::text::{quoted_field, quoted_line, strings_view};
use vstd::prelude::*;

verus! {

/// The vertical extent of the translated collection, still in source
/// (Y-down) space; symbols place their text labels just outside it.
#[derive(Clone, Copy, PartialEq, Eq, Structural, Debug)]
pub struct YSpan {
    pub y_min: i64,
    pub y_max: i64,
}

/// One emitted polygon group: its text lines and the translated vertical
/// extent of the polylines it was generated from.
pub struct Polygon {
    pub lines: Vec<String>,
    pub transformed_bounds: YSpan,
}

/// The alignment translation of a whole collection, derived from its
/// bounding box.
pub open spec fn collection_offset(pls: Seq<Seq<Point>>, a: Align) -> (int, int)
    recommends
        pls.len() > 0,
{
    offset_from(
        seq_min(xs(all_points(pls))),
        seq_max(xs(all_points(pls))),
        seq_min(ys(all_points(pls))),
        seq_max(ys(all_points(pls))),
        a,
    )
}

/// The translated vertical extent carried forward for label placement:
/// zero for an empty collection.
pub open spec fn transformed_span(pls: Seq<Seq<Point>>, a: Align) -> (int, int) {
    if pls.len() == 0 {
        (0, 0)
    } else {
        let dy = collection_offset(pls, a).1;
        (seq_min(ys(all_points(pls))) + dy, seq_max(ys(all_points(pls))) + dy)
    }
}

pub open spec fn polygon_header_line(id: Seq<char>, layer: Seq<char>) -> Seq<char> {
    " (polygon \""@ + id + "\" (layer "@ + layer + ")"@
}

pub open spec fn polygon_style_line(closed: bool) -> Seq<char> {
    if closed {
        "  (width 0.0) (fill true) (grab_area true)"@
    } else {
        "  (width 0.2) (fill false) (grab_area false)"@
    }
}

pub open spec fn vertex_line(p: Point, dx: int, dy: int) -> Seq<char> {
    "  (vertex (position "@ + fmt_coord(p.x + dx) + " "@ + fmt_coord(-(p.y + dy)) + ") (angle 0.0))"@
}

/// The vertex records of one polyline, one line per point, in order.
pub open spec fn vertex_lines(pts: Seq<Point>, dx: int, dy: int) -> Seq<Seq<char>> {
    pts.map_values(|p: Point| vertex_line(p, dx, dy))
}

/// The lines of one polygon block for one polyline.
pub open spec fn polyline_block(
    id: Seq<char>,
    layer: Seq<char>,
    pts: Seq<Point>,
    dx: int,
    dy: int,
) -> Seq<Seq<char>> {
    seq![polygon_header_line(id, layer), polygon_style_line(is_closed(pts))] + vertex_lines(
        pts,
        dx,
        dy,
    ) + seq![" )"@]
}

/// The lines of all polygon blocks of a collection, one block per
/// polyline, each with its own identifier.
pub open spec fn polygon_lines(
    layer: Seq<char>,
    pls: Seq<Seq<Point>>,
    ids: Seq<Seq<char>>,
    dx: int,
    dy: int,
) -> Seq<Seq<char>>
    recommends
        ids.len() == pls.len(),
    decreases pls.len(),
{
    if pls.len() == 0 {
        Seq::empty()
    } else {
        polygon_lines(layer, pls.drop_last(), ids.drop_last(), dx, dy) + polyline_block(
            ids.last(),
            layer,
            pls.last(),
            dx,
            dy,
        )
    }
}

/// Emit the polygon blocks of a polyline collection: fresh identifier,
/// layer, style and transformed vertices for every polyline. An empty
/// collection yields no blocks at all and a zero vertical extent.
pub fn make_polygon(
    layer: &str,
    align: Align,
    polylines: &Vec<Vec<Point>>,
    ids: &mut IdAllocator,
) -> (r: Polygon)
    requires
        polylines_wf(deep(polylines@)),
    ensures
        draws(*old(ids), *final(ids), polylines@.len() as nat),
        strings_view(r.lines@) == polygon_lines(
            layer@,
            deep(polylines@),
            new_ids(*old(ids), *final(ids)),
            collection_offset(deep(polylines@), align).0,
            collection_offset(deep(polylines@), align).1,
        ),
        (r.transformed_bounds.y_min as int, r.transformed_bounds.y_max as int) == transformed_span(
            deep(polylines@),
            align,
        ),
        -3 * COORD_LIMIT <= r.transformed_bounds.y_min <= 3 * COORD_LIMIT,
        -3 * COORD_LIMIT <= r.transformed_bounds.y_max <= 3 * COORD_LIMIT,
{
    if polylines.len() == 0 {
        let r = Polygon { lines: Vec::new(), transformed_bounds: YSpan { y_min: 0, y_max: 0 } };
        proof {
            lemma_draws_refl(*ids);
            assert(strings_view(r.lines@) =~= Seq::<Seq<char>>::empty());
            assert(deep(polylines@).len() == 0);
        }
        return r;
    }
    let ghost dpls = deep(polylines@);
    let flat = flatten_points(polylines);
    proof {
        lemma_all_points_wf(dpls);
    }
    let b = bounds_of_flat(&flat);
    let (dx, dy) = compute_offset(&b, align);
    proof {
        assert((dx as int, dy as int) == collection_offset(dpls, align));
    }
    let mut lines: Vec<String> = Vec::new();
    let mut i: usize = 0;
    proof {
        lemma_draws_refl(*ids);
        assert(dpls.take(0) =~= Seq::<Seq<Point>>::empty());
        assert(strings_view(lines@) =~= polygon_lines(
            layer@,
            dpls.take(0),
            new_ids(*old(ids), *ids),
            dx as int,
            dy as int,
        ));
    }
    while i < polylines.len()
        invariant
            polylines_wf(dpls),
            dpls == deep(polylines@),
            dpls.len() == polylines@.len(),
            0 <= i <= polylines@.len(),
            -2 * COORD_LIMIT <= dx <= 2 * COORD_LIMIT,
            -2 * COORD_LIMIT <= dy <= 2 * COORD_LIMIT,
            draws(*old(ids), *ids, i as nat),
            new_ids(*old(ids), *ids).len() == i as int,
            strings_view(lines@) == polygon_lines(
                layer@,
                dpls.take(i as int),
                new_ids(*old(ids), *ids),
                dx as int,
                dy as int,
            ),
        decreases polylines@.len() - i,
    {
        let ghost pre_iter = *ids;
        let ghost pre_lines = strings_view(lines@);
        let id = ids.fresh();
        let pl = &polylines[i];
        proof {
            assert(dpls[i as int] == pl@);
            assert(pl@.len() > 0);
        }
        let closed = polyline_is_closed(pl);
        let mut h = " (polygon \"".to_owned();
        h.append(id.as_str());
        h.append("\" (layer ");
        h.append(layer);
        h.append(")");
        proof {
            assert(h@ =~= polygon_header_line(id@, layer@));
        }
        let ghost lv0 = lines@;
        lines.push(h);
        proof {
            assert(strings_view(lines@) =~= strings_view(lv0).push(
                polygon_header_line(id@, layer@),
            ));
        }
        let style: String = if closed {
            "  (width 0.0) (fill true) (grab_area true)".to_owned()
        } else {
            "  (width 0.2) (fill false) (grab_area false)".to_owned()
        };
        proof {
            assert(style@ == polygon_style_line(is_closed(pl@)));
        }
        let ghost lv1 = lines@;
        lines.push(style);
        proof {
            assert(strings_view(lines@) =~= strings_view(lv1).push(
                polygon_style_line(is_closed(pl@)),
            ));
        }
        let ghost base = strings_view(lines@);
        let mut j: usize = 0;
        proof {
            assert(vertex_lines(pl@.take(0), dx as int, dy as int) =~= Seq::<Seq<char>>::empty());
            assert(strings_view(lines@) =~= base + vertex_lines(pl@.take(0), dx as int, dy as int));
        }
        while j < pl.len()
            invariant
                0 <= j <= pl@.len(),
                0 <= i < dpls.len(),
                polylines_wf(dpls),
                dpls[i as int] == pl@,
                -2 * COORD_LIMIT <= dx <= 2 * COORD_LIMIT,
                -2 * COORD_LIMIT <= dy <= 2 * COORD_LIMIT,
                strings_view(lines@) == base + vertex_lines(pl@.take(j as int), dx as int, dy as int),
            decreases pl@.len() - j,
        {
            let p = pl[j];
            proof {
                assert(dpls[i as int][j as int] == p);
                assert(crate::geom::point_wf(p));
            }
            let tx = p.x + dx;
            let ty = -(p.y + dy);
            let fx = format_coord(tx);
            let fy = format_coord(ty);
            let mut v = "  (vertex (position ".to_owned();
            v.append(fx.as_str());
            v.append(" ");
            v.append(fy.as_str());
            v.append(") (angle 0.0))");
            proof {
                assert(v@ =~= vertex_line(p, dx as int, dy as int));
            }
            let ghost prev = lines@;
            lines.push(v);
            proof {
                assert(pl@.take(j + 1) =~= pl@.take(j as int).push(p));
                assert(vertex_lines(pl@.take(j + 1), dx as int, dy as int) =~= vertex_lines(
                    pl@.take(j as int),
                    dx as int,
                    dy as int,
                ).push(vertex_line(p, dx as int, dy as int)));
                assert(strings_view(prev.push(v)) =~= strings_view(prev).push(v@));
                assert(strings_view(lines@) =~= base + vertex_lines(
                    pl@.take(j + 1),
                    dx as int,
                    dy as int,
                ));
            }
            j += 1;
        }
        let ghost prev2 = lines@;
        lines.push(" )".to_owned());
        proof {
            assert(pl@.take(pl@.len() as int) =~= pl@);
            assert(strings_view(lines@) =~= strings_view(prev2).push(" )"@));
            assert(strings_view(lines@) =~= pre_lines + polyline_block(
                id@,
                layer@,
                pl@,
                dx as int,
                dy as int,
            ));
            lemma_draws_then_fresh(*old(ids), pre_iter, *ids, id@, i as nat);
            let nids = new_ids(*old(ids), *ids);
            assert(nids == new_ids(*old(ids), pre_iter).push(id@));
            assert(dpls.take(i + 1).drop_last() =~= dpls.take(i as int));
            assert(nids.drop_last() =~= new_ids(*old(ids), pre_iter));
            assert(dpls.take(i + 1).last() == pl@);
            assert(nids.last() == id@);
            assert(strings_view(lines@) =~= polygon_lines(
                layer@,
                dpls.take(i + 1),
                nids,
                dx as int,
                dy as int,
            ));
        }
        i += 1;
    }
    let span = YSpan { y_min: b.y_min + dy, y_max: b.y_max + dy };
    proof {
        assert(dpls.take(dpls.len() as int) =~= dpls);
    }
    Polygon { lines, transformed_bounds: span }
}

/// The whole footprint document: identifier header, name and description,
/// the polygon blocks of every polyline on the footprint's layer, and the
/// closing parenthesis. `ids` holds the footprint identifier first, then
/// one identifier per polyline.
pub open spec fn footprint_doc(
    ids: Seq<Seq<char>>,
    layer: Seq<char>,
    name: Seq<char>,
    description: Seq<char>,
    align: Align,
    pls: Seq<Seq<Point>>,
) -> Seq<Seq<char>>
    recommends
        ids.len() == 1 + pls.len(),
{
    seq!["(footprint "@ + ids[0], quoted_line("name"@, name), quoted_line(
        "description"@,
        description,
    )] + polygon_lines(
        layer,
        pls,
        ids.skip(1),
        collection_offset(pls, align).0,
        collection_offset(pls, align).1,
    ) + seq![")"@]
}

/// Emit one footprint: a fresh identifier, the metadata lines, and one
/// polygon block per polyline. A collection with no polylines still yields
/// a well-formed, empty footprint shell.
pub fn make_footprint(
    layer: &str,
    name: &str,
    description: &str,
    align: Align,
    polylines: &Vec<Vec<Point>>,
    ids: &mut IdAllocator,
) -> (r: Vec<String>)
    requires
        polylines_wf(deep(polylines@)),
    ensures
        draws(*old(ids), *final(ids), (polylines@.len() + 1) as nat),
        strings_view(r@) == footprint_doc(
            new_ids(*old(ids), *final(ids)),
            layer@,
            name@,
            description@,
            align,
            deep(polylines@),
        ),
{
    let ghost a0 = *ids;
    let fid = ids.fresh();
    let ghost a1 = *ids;
    proof {
        lemma_draws_refl(a0);
        lemma_draws_then_fresh(a0, a0, a1, fid@, 0);
    }
    let mut r: Vec<String> = Vec::new();
    let mut header = "(footprint ".to_owned();
    header.append(fid.as_str());
    r.push(header);
    r.push(quoted_field("name", name));
    r.push(quoted_field("description", description));
    let mut polygon = make_polygon(layer, align, polylines, ids);
    r.append(&mut polygon.lines);
    r.push(")".to_owned());
    proof {
        lemma_draws_trans(a0, a1, *ids, 1, polylines@.len() as nat);
        let nids = new_ids(a0, *ids);
        assert(new_ids(a0, a1) =~= seq![fid@]);
        assert(nids == seq![fid@] + new_ids(a1, *ids));
        assert(nids[0] == fid@);
        assert(nids.skip(1) =~= new_ids(a1, *ids));
        assert(strings_view(r@) =~= footprint_doc(
            nids,
            layer@,
            name@,
            description@,
            align,
            deep(polylines@),
        ));
    }
    r
}

} // verus!
