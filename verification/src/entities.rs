//! Top-level library entity documents: symbol, component, package, device.
//!
//! Every entity document opens with a header naming its kind and
//! identifier, carries the standard metadata lines in a fixed order (name,
//! description, keywords, author, version, creation timestamp, deprecation
//! flag, optional category reference), and closes with a parenthesis.
//! Entity-specific children sit in between.

use crate::emit::{collection_offset, make_polygon, polygon_lines, transformed_span};
use crate::fmt::{fmt_coord, format_coord};
use crate::geom::{deep, polylines_wf, Align, Point};
use crate::ids::{draws, lemma_draws_refl, lemma_draws_then_fresh, new_ids, IdAllocator};
use crate::text::{
    opt_view, plain_field, plain_line, push_line, quoted_field, quoted_line, strings_view,
};
use vstd::prelude::*;

verus! {

/// The standard metadata lines every entity carries, in order.
pub open spec fn meta_lines(
    name: Seq<char>,
    description: Seq<char>,
    keywords: Seq<char>,
    author: Seq<char>,
    version: Seq<char>,
    created: Seq<char>,
) -> Seq<Seq<char>> {
    seq![
        quoted_line("name"@, name),
        quoted_line("description"@, description),
        quoted_line("keywords"@, keywords),
        quoted_line("author"@, author),
        quoted_line("version"@, version),
        plain_line("created"@, created),
        " (deprecated false)"@,
    ]
}

/// The optional category reference line.
pub open spec fn category_lines(category: Option<Seq<char>>) -> Seq<Seq<char>> {
    match category {
        Some(c) => seq![plain_line("category"@, c)],
        None => Seq::empty(),
    }
}

/// One text-label block of a symbol: identifier, layer, templated value,
/// anchoring and vertical position.
pub open spec fn text_block(
    id: Seq<char>,
    layer: Seq<char>,
    value: Seq<char>,
    anchor: Seq<char>,
    y: int,
) -> Seq<Seq<char>> {
    seq![
        " (text "@ + id + " (layer "@ + layer + ") (value \""@ + value + "\")"@,
        "  (align center "@ + anchor + ") (height 2.5) (position 0.0 "@ + fmt_coord(y)
            + ") (rotation 0.0)"@,
        " )"@,
    ]
}

fn push_meta(
    lines: &mut Vec<String>,
    name: &str,
    description: &str,
    keywords: &str,
    author: &str,
    version: &str,
    created: &str,
)
    ensures
        strings_view(final(lines)@) == strings_view(old(lines)@) + meta_lines(
            name@,
            description@,
            keywords@,
            author@,
            version@,
            created@,
        ),
{
    push_line(lines, quoted_field("name", name));
    push_line(lines, quoted_field("description", description));
    push_line(lines, quoted_field("keywords", keywords));
    push_line(lines, quoted_field("author", author));
    push_line(lines, quoted_field("version", version));
    push_line(lines, plain_field("created", created));
    push_line(lines, " (deprecated false)".to_owned());
    proof {
        assert(strings_view(lines@) =~= strings_view(old(lines)@) + meta_lines(
            name@,
            description@,
            keywords@,
            author@,
            version@,
            created@,
        ));
    }
}

fn push_category(lines: &mut Vec<String>, category: Option<&str>)
    ensures
        strings_view(final(lines)@) == strings_view(old(lines)@) + category_lines(
            opt_view(category),
        ),
{
    match category {
        Some(c) => {
            push_line(lines, plain_field("category", c));
            proof {
                assert(strings_view(lines@) =~= strings_view(old(lines)@) + category_lines(
                    opt_view(category),
                ));
            }
        },
        None => {
            proof {
                assert(strings_view(lines@) =~= strings_view(old(lines)@) + category_lines(
                    opt_view(category),
                ));
            }
        },
    }
}

/// The whole symbol document. `sids` holds one polygon identifier per
/// polyline, then the value-label identifier, then the name-label
/// identifier. The outline is always self-centered, and the two labels sit
/// 1.27 units outside the translated vertical extent.
pub open spec fn symbol_doc(
    uuid: Seq<char>,
    name: Seq<char>,
    description: Seq<char>,
    keywords: Seq<char>,
    author: Seq<char>,
    version: Seq<char>,
    created: Seq<char>,
    category: Option<Seq<char>>,
    pls: Seq<Seq<Point>>,
    sids: Seq<Seq<char>>,
) -> Seq<Seq<char>>
    recommends
        sids.len() == pls.len() + 2,
{
    seq!["(librepcb_symbol "@ + uuid] + meta_lines(
        name,
        description,
        keywords,
        author,
        version,
        created,
    ) + category_lines(category) + polygon_lines(
        "sym_outlines"@,
        pls,
        sids.take(pls.len() as int),
        collection_offset(pls, Align::Center).0,
        collection_offset(pls, Align::Center).1,
    ) + text_block(
        sids[pls.len() as int],
        "sym_values"@,
        "{{VALUE}}"@,
        "top"@,
        transformed_span(pls, Align::Center).0 - 1270,
    ) + text_block(
        sids[pls.len() as int + 1],
        "sym_names"@,
        "{{NAME}}"@,
        "bottom"@,
        transformed_span(pls, Align::Center).1 + 1270,
    ) + seq![")"@]
}

/// Emit a symbol document: metadata, the self-centered outline polygons,
/// and the two text labels placed just outside the translated extent.
pub fn make_symbol(
    uuid: &str,
    name: &str,
    description: &str,
    keywords: &str,
    author: &str,
    version: &str,
    uuid_cmpcat: Option<&str>,
    polylines: &Vec<Vec<Point>>,
    created: &str,
    ids: &mut IdAllocator,
) -> (r: Vec<String>)
    requires
        polylines_wf(deep(polylines@)),
    ensures
        draws(*old(ids), *final(ids), (polylines@.len() + 2) as nat),
        strings_view(r@) == symbol_doc(
            uuid@,
            name@,
            description@,
            keywords@,
            author@,
            version@,
            created@,
            opt_view(uuid_cmpcat),
            deep(polylines@),
            new_ids(*old(ids), *final(ids)),
        ),
{
    let mut r: Vec<String> = Vec::new();
    let mut header = "(librepcb_symbol ".to_owned();
    header.append(uuid);
    push_line(&mut r, header);
    push_meta(&mut r, name, description, keywords, author, version, created);
    push_category(&mut r, uuid_cmpcat);
    let ghost head = strings_view(r@);
    let ghost a0 = *ids;
    let mut polygon = make_polygon("sym_outlines", Align::Center, polylines, ids);
    let ghost a1 = *ids;
    r.append(&mut polygon.lines);
    proof {
        assert(strings_view(r@) =~= head + polygon_lines(
            "sym_outlines"@,
            deep(polylines@),
            new_ids(a0, a1),
            collection_offset(deep(polylines@), Align::Center).0,
            collection_offset(deep(polylines@), Align::Center).1,
        ));
    }
    let vid = ids.fresh();
    let ghost a2 = *ids;
    push_text_label(&mut r, &vid, "sym_values", "{{VALUE}}", "top", polygon.transformed_bounds.y_min, -1270);
    let nid = ids.fresh();
    let ghost a3 = *ids;
    push_text_label(&mut r, &nid, "sym_names", "{{NAME}}", "bottom", polygon.transformed_bounds.y_max, 1270);
    push_line(&mut r, ")".to_owned());
    proof {
        lemma_draws_then_fresh(a0, a1, a2, vid@, polylines@.len() as nat);
        lemma_draws_then_fresh(a0, a2, a3, nid@, (polylines@.len() + 1) as nat);
        let sids = new_ids(a0, a3);
        let n = polylines@.len() as int;
        assert(sids == new_ids(a0, a1).push(vid@).push(nid@));
        assert(new_ids(a0, a1).len() == n);
        assert(sids.take(n) =~= new_ids(a0, a1));
        assert(sids[n] == vid@);
        assert(sids[n + 1] == nid@);
        assert(strings_view(r@) =~= symbol_doc(
            uuid@,
            name@,
            description@,
            keywords@,
            author@,
            version@,
            created@,
            opt_view(uuid_cmpcat),
            deep(polylines@),
            sids,
        ));
    }
    r
}

/// The whole component document. `cids` holds two identifiers: one for
/// the variant block and one for its gate.
pub open spec fn component_doc(
    uuid: Seq<char>,
    name: Seq<char>,
    description: Seq<char>,
    keywords: Seq<char>,
    author: Seq<char>,
    version: Seq<char>,
    created: Seq<char>,
    category: Option<Seq<char>>,
    uuid_sym: Seq<char>,
    cids: Seq<Seq<char>>,
) -> Seq<Seq<char>>
    recommends
        cids.len() == 2,
{
    seq!["(librepcb_component "@ + uuid] + meta_lines(
        name,
        description,
        keywords,
        author,
        version,
        created,
    ) + category_lines(category) + seq![
        " (schematic_only false)"@,
        " (default_value \"\")"@,
        " (prefix \"\")"@,
        " (variant "@ + cids[0] + " (norm \"\")"@,
        "  (name \"default\")"@,
        "  (description \"\")"@,
        "  (gate "@ + cids[1],
        "   (symbol "@ + uuid_sym + ")"@,
        "   (position 0.0 0.0) (rotation 0.0) (required true) (suffix \"\")"@,
        "  )"@,
        " )"@,
        ")"@,
    ]
}

/// Build the component document; its sole gate references the given
/// symbol identifier.
pub fn make_component(
    uuid: &str,
    name: &str,
    description: &str,
    keywords: &str,
    author: &str,
    version: &str,
    uuid_sym: &str,
    uuid_cmpcat: Option<&str>,
    created: &str,
    ids: &mut IdAllocator,
) -> (r: Vec<String>)
    ensures
        draws(*old(ids), *final(ids), 2),
        strings_view(r@) == component_doc(
            uuid@,
            name@,
            description@,
            keywords@,
            author@,
            version@,
            created@,
            opt_view(uuid_cmpcat),
            uuid_sym@,
            new_ids(*old(ids), *final(ids)),
        ),
{
    let mut r: Vec<String> = Vec::new();
    let mut header = "(librepcb_component ".to_owned();
    header.append(uuid);
    push_line(&mut r, header);
    push_meta(&mut r, name, description, keywords, author, version, created);
    push_category(&mut r, uuid_cmpcat);
    push_line(&mut r, " (schematic_only false)".to_owned());
    push_line(&mut r, " (default_value \"\")".to_owned());
    push_line(&mut r, " (prefix \"\")".to_owned());
    let ghost a0 = *ids;
    let vid = ids.fresh();
    let ghost a1 = *ids;
    let mut variant = " (variant ".to_owned();
    variant.append(vid.as_str());
    variant.append(" (norm \"\")");
    push_line(&mut r, variant);
    push_line(&mut r, "  (name \"default\")".to_owned());
    push_line(&mut r, "  (description \"\")".to_owned());
    let gid = ids.fresh();
    let ghost a2 = *ids;
    let mut gate = "  (gate ".to_owned();
    gate.append(gid.as_str());
    push_line(&mut r, gate);
    let mut sym = "   (symbol ".to_owned();
    sym.append(uuid_sym);
    sym.append(")");
    push_line(&mut r, sym);
    push_line(
        &mut r,
        "   (position 0.0 0.0) (rotation 0.0) (required true) (suffix \"\")".to_owned(),
    );
    push_line(&mut r, "  )".to_owned());
    push_line(&mut r, " )".to_owned());
    push_line(&mut r, ")".to_owned());
    proof {
        lemma_draws_refl(a0);
        lemma_draws_then_fresh(a0, a0, a1, vid@, 0);
        lemma_draws_then_fresh(a0, a1, a2, gid@, 1);
        let cids = new_ids(a0, a2);
        assert(cids[0] == vid@);
        assert(cids[1] == gid@);
        assert(strings_view(r@) =~= component_doc(
            uuid@,
            name@,
            description@,
            keywords@,
            author@,
            version@,
            created@,
            opt_view(uuid_cmpcat),
            uuid_sym@,
            cids,
        ));
    }
    r
}

/// Each child line of a package is indented one further level.
pub open spec fn indent_lines(lines: Seq<Seq<char>>) -> Seq<Seq<char>> {
    lines.map_values(|l: Seq<char>| " "@ + l)
}

/// The text of every given footprint document.
pub open spec fn docs_view(fps: Seq<Vec<String>>) -> Seq<Seq<Seq<char>>> {
    fps.map_values(|f: Vec<String>| strings_view(f@))
}

/// The whole package document: metadata, then every footprint's lines
/// indented by one space, in caller order.
pub open spec fn package_doc(
    uuid: Seq<char>,
    name: Seq<char>,
    description: Seq<char>,
    keywords: Seq<char>,
    author: Seq<char>,
    version: Seq<char>,
    created: Seq<char>,
    category: Option<Seq<char>>,
    footprints: Seq<Seq<Seq<char>>>,
) -> Seq<Seq<char>> {
    seq!["(librepcb_package "@ + uuid] + meta_lines(
        name,
        description,
        keywords,
        author,
        version,
        created,
    ) + category_lines(category) + indent_lines(footprints.flatten()) + seq![")"@]
}

/// Emit a package document composing the given footprint documents.
pub fn make_package(
    uuid: &str,
    name: &str,
    description: &str,
    keywords: &str,
    author: &str,
    version: &str,
    uuid_pkgcat: Option<&str>,
    footprints: &Vec<Vec<String>>,
    created: &str,
) -> (r: Vec<String>)
    ensures
        strings_view(r@) == package_doc(
            uuid@,
            name@,
            description@,
            keywords@,
            author@,
            version@,
            created@,
            opt_view(uuid_pkgcat),
            docs_view(footprints@),
        ),
{
    broadcast use vstd::seq_lib::group_seq_properties;

    let mut r: Vec<String> = Vec::new();
    let mut header = "(librepcb_package ".to_owned();
    header.append(uuid);
    push_line(&mut r, header);
    push_meta(&mut r, name, description, keywords, author, version, created);
    push_category(&mut r, uuid_pkgcat);
    let ghost head = strings_view(r@);
    let mut i: usize = 0;
    proof {
        assert(docs_view(footprints@.take(0)) =~= Seq::<Seq<Seq<char>>>::empty());
        assert(indent_lines(docs_view(footprints@.take(0)).flatten())
            =~= Seq::<Seq<char>>::empty());
        assert(strings_view(r@) =~= head + indent_lines(docs_view(footprints@.take(0)).flatten()));
    }
    while i < footprints.len()
        invariant
            0 <= i <= footprints@.len(),
            strings_view(r@) == head + indent_lines(docs_view(footprints@.take(i as int)).flatten()),
        decreases footprints@.len() - i,
    {
        let fp = &footprints[i];
        let ghost inner_base = strings_view(r@);
        let mut j: usize = 0;
        proof {
            assert(indent_lines(strings_view(fp@).take(0)) =~= Seq::<Seq<char>>::empty());
            assert(strings_view(r@) =~= inner_base + indent_lines(strings_view(fp@).take(0)));
        }
        while j < fp.len()
            invariant
                0 <= j <= fp@.len(),
                0 <= i < footprints@.len(),
                fp@ == footprints@[i as int]@,
                strings_view(r@) == inner_base + indent_lines(strings_view(fp@).take(j as int)),
            decreases fp@.len() - j,
        {
            let mut line = " ".to_owned();
            line.append(fp[j].as_str());
            push_line(&mut r, line);
            proof {
                assert(strings_view(fp@).take(j + 1) =~= strings_view(fp@).take(j as int).push(
                    fp@[j as int]@,
                ));
                assert(indent_lines(strings_view(fp@).take(j + 1)) =~= indent_lines(
                    strings_view(fp@).take(j as int),
                ).push(" "@ + fp@[j as int]@));
                assert(strings_view(r@) =~= inner_base + indent_lines(
                    strings_view(fp@).take(j + 1),
                ));
            }
            j += 1;
        }
        proof {
            let pre = docs_view(footprints@.take(i as int));
            assert(strings_view(fp@).take(fp@.len() as int) =~= strings_view(fp@));
            assert(docs_view(footprints@.take(i + 1)) =~= pre.push(strings_view(fp@)));
            pre.lemma_flatten_push(strings_view(fp@));
            assert(indent_lines(pre.flatten() + strings_view(fp@)) =~= indent_lines(pre.flatten())
                + indent_lines(strings_view(fp@)));
            assert(strings_view(r@) =~= head + indent_lines(
                docs_view(footprints@.take(i + 1)).flatten(),
            ));
        }
        i += 1;
    }
    push_line(&mut r, ")".to_owned());
    proof {
        assert(footprints@.take(footprints@.len() as int) =~= footprints@);
        assert(strings_view(r@) =~= package_doc(
            uuid@,
            name@,
            description@,
            keywords@,
            author@,
            version@,
            created@,
            opt_view(uuid_pkgcat),
            docs_view(footprints@),
        ));
    }
    r
}

/// The whole device document: metadata plus references to exactly one
/// component and one package.
pub open spec fn device_doc(
    uuid: Seq<char>,
    name: Seq<char>,
    description: Seq<char>,
    keywords: Seq<char>,
    author: Seq<char>,
    version: Seq<char>,
    created: Seq<char>,
    category: Option<Seq<char>>,
    uuid_cmp: Seq<char>,
    uuid_pkg: Seq<char>,
) -> Seq<Seq<char>> {
    seq!["(librepcb_device "@ + uuid] + meta_lines(
        name,
        description,
        keywords,
        author,
        version,
        created,
    ) + category_lines(category) + seq![
        plain_line("component"@, uuid_cmp),
        plain_line("package"@, uuid_pkg),
        ")"@,
    ]
}

/// Emit a device document referencing one component and one package.
pub fn make_device(
    uuid: &str,
    name: &str,
    description: &str,
    keywords: &str,
    author: &str,
    version: &str,
    uuid_cmp: &str,
    uuid_pkg: &str,
    uuid_cmpcat: Option<&str>,
    created: &str,
) -> (r: Vec<String>)
    ensures
        strings_view(r@) == device_doc(
            uuid@,
            name@,
            description@,
            keywords@,
            author@,
            version@,
            created@,
            opt_view(uuid_cmpcat),
            uuid_cmp@,
            uuid_pkg@,
        ),
{
    let mut r: Vec<String> = Vec::new();
    let mut header = "(librepcb_device ".to_owned();
    header.append(uuid);
    push_line(&mut r, header);
    push_meta(&mut r, name, description, keywords, author, version, created);
    push_category(&mut r, uuid_cmpcat);
    push_line(&mut r, plain_field("component", uuid_cmp));
    push_line(&mut r, plain_field("package", uuid_pkg));
    push_line(&mut r, ")".to_owned());
    proof {
        assert(strings_view(r@) =~= device_doc(
            uuid@,
            name@,
            description@,
            keywords@,
            author@,
            version@,
            created@,
            opt_view(uuid_cmpcat),
            uuid_cmp@,
            uuid_pkg@,
        ));
    }
    r
}

/// Append one text-label block: the label sits at `base + delta` on the
/// vertical axis.
fn push_text_label(
    lines: &mut Vec<String>,
    id: &String,
    layer: &str,
    value: &str,
    anchor: &str,
    base: i64,
    delta: i64,
)
    requires
        -4 * crate::geom::COORD_LIMIT <= base + delta,
        base + delta <= 4 * crate::geom::COORD_LIMIT,
    ensures
        strings_view(final(lines)@) == strings_view(old(lines)@) + text_block(
            id@,
            layer@,
            value@,
            anchor@,
            base + delta,
        ),
{
    let y = base + delta;
    let mut t1 = " (text ".to_owned();
    t1.append(id.as_str());
    t1.append(" (layer ");
    t1.append(layer);
    t1.append(") (value \"");
    t1.append(value);
    t1.append("\")");
    proof {
        assert(t1@ =~= " (text "@ + id@ + " (layer "@ + layer@ + ") (value \""@ + value@
            + "\")"@);
    }
    push_line(lines, t1);
    let fy = format_coord(y);
    let mut t2 = "  (align center ".to_owned();
    t2.append(anchor);
    t2.append(") (height 2.5) (position 0.0 ");
    t2.append(fy.as_str());
    t2.append(") (rotation 0.0)");
    proof {
        assert(t2@ =~= "  (align center "@ + anchor@ + ") (height 2.5) (position 0.0 "@
            + fmt_coord(base + delta) + ") (rotation 0.0)"@);
    }
    push_line(lines, t2);
    push_line(lines, " )".to_owned());
    proof {
        assert(strings_view(lines@) =~= strings_view(old(lines)@) + text_block(
            id@,
            layer@,
            value@,
            anchor@,
            base + delta,
        ));
    }
}

} // verus!
