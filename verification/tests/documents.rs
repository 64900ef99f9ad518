use svg2librepcb::emit::{make_footprint, make_polygon};
use svg2librepcb::entities::{make_component, make_device, make_package, make_symbol};
use svg2librepcb::geom::{Align, Point};
use svg2librepcb::ids::IdAllocator;

fn pt(x: i64, y: i64) -> Point {
    Point { x, y }
}

fn scripted(ids: &[&str]) -> IdAllocator {
    IdAllocator::scripted(ids.iter().map(|s| s.to_string()).collect())
}

#[test]
fn footprint_empty_collection_is_valid_shell() {
    let mut al = scripted(&["fp1"]);
    let pls: Vec<Vec<Point>> = vec![];
    let lines = make_footprint("top_cu", "Top Copper", "", Align::Unchanged, &pls, &mut al);
    assert_eq!(
        lines,
        [
            "(footprint fp1",
            " (name \"Top Copper\")",
            " (description \"\")",
            ")",
        ]
    );
}

#[test]
fn square_footprint_single_filled_polygon() {
    let square = vec![
        pt(0, 0),
        pt(10_000, 0),
        pt(10_000, 10_000),
        pt(0, 10_000),
        pt(0, 0),
    ];
    let mut al = scripted(&["fp1", "poly1"]);
    let lines = make_footprint(
        "top_cu",
        "Top Copper",
        "",
        Align::Unchanged,
        &vec![square],
        &mut al,
    );
    assert_eq!(
        lines,
        [
            "(footprint fp1",
            " (name \"Top Copper\")",
            " (description \"\")",
            " (polygon \"poly1\" (layer top_cu)",
            "  (width 0.0) (fill true) (grab_area true)",
            "  (vertex (position 0.0 0.0) (angle 0.0))",
            "  (vertex (position 10.0 0.0) (angle 0.0))",
            "  (vertex (position 10.0 -10.0) (angle 0.0))",
            "  (vertex (position 0.0 -10.0) (angle 0.0))",
            "  (vertex (position 0.0 0.0) (angle 0.0))",
            " )",
            ")",
        ]
    );
}

#[test]
fn open_polyline_centered_vertex_rendering() {
    let pls = vec![
        vec![pt(0, 0), pt(2000, 2000)],
        vec![pt(0, 4000), pt(4000, 0)],
    ];
    let mut al = scripted(&["p1", "p2"]);
    let polygon = make_polygon("top_cu", Align::Center, &pls, &mut al);
    assert_eq!(polygon.lines[0], " (polygon \"p1\" (layer top_cu)");
    assert_eq!(
        polygon.lines[1],
        "  (width 0.2) (fill false) (grab_area false)"
    );
    assert_eq!(
        polygon.lines[2],
        "  (vertex (position -2.0 2.0) (angle 0.0))"
    );
    assert_eq!(polygon.lines[3], "  (vertex (position 0.0 0.0) (angle 0.0))");
    assert_eq!(polygon.lines[4], " )");
    assert_eq!(polygon.lines[5], " (polygon \"p2\" (layer top_cu)");
    assert_eq!(polygon.transformed_bounds.y_min, -2000);
    assert_eq!(polygon.transformed_bounds.y_max, 2000);
}

#[test]
fn polygon_empty_collection_yields_no_blocks() {
    let mut al = scripted(&[]);
    let pls: Vec<Vec<Point>> = vec![];
    let polygon = make_polygon("top_cu", Align::Center, &pls, &mut al);
    assert!(polygon.lines.is_empty());
    assert_eq!(polygon.transformed_bounds.y_min, 0);
    assert_eq!(polygon.transformed_bounds.y_max, 0);
}

#[test]
fn symbol_document_structure() {
    let mut al = scripted(&["v1", "n1"]);
    let pls: Vec<Vec<Point>> = vec![];
    let lines = make_symbol(
        "SYM",
        "Name",
        "Desc",
        "kw",
        "Auth",
        "0.1.0",
        Some("cat1"),
        &pls,
        "2024-01-01T00:00:00Z",
        &mut al,
    );
    assert_eq!(
        lines,
        [
            "(librepcb_symbol SYM",
            " (name \"Name\")",
            " (description \"Desc\")",
            " (keywords \"kw\")",
            " (author \"Auth\")",
            " (version \"0.1.0\")",
            " (created 2024-01-01T00:00:00Z)",
            " (deprecated false)",
            " (category cat1)",
            " (text v1 (layer sym_values) (value \"{{VALUE}}\")",
            "  (align center top) (height 2.5) (position 0.0 -1.27) (rotation 0.0)",
            " )",
            " (text n1 (layer sym_names) (value \"{{NAME}}\")",
            "  (align center bottom) (height 2.5) (position 0.0 1.27) (rotation 0.0)",
            " )",
            ")",
        ]
    );
}

#[test]
fn symbol_centers_outline_and_spreads_labels() {
    let square = vec![
        pt(0, 0),
        pt(10_000, 0),
        pt(10_000, 10_000),
        pt(0, 10_000),
        pt(0, 0),
    ];
    let mut al = scripted(&["poly1", "v1", "n1"]);
    let lines = make_symbol(
        "SYM",
        "Name",
        "",
        "",
        "Auth",
        "0.1.0",
        None,
        &vec![square],
        "2024-01-01T00:00:00Z",
        &mut al,
    );
    assert_eq!(lines[8], " (polygon \"poly1\" (layer sym_outlines)");
    assert_eq!(lines[9], "  (width 0.0) (fill true) (grab_area true)");
    assert_eq!(lines[10], "  (vertex (position -5.0 5.0) (angle 0.0))");
    assert!(lines.contains(
        &"  (align center top) (height 2.5) (position 0.0 -6.27) (rotation 0.0)".to_string()
    ));
    assert!(lines.contains(
        &"  (align center bottom) (height 2.5) (position 0.0 6.27) (rotation 0.0)".to_string()
    ));
}

#[test]
fn component_document_structure() {
    let mut al = scripted(&["var1", "gate1"]);
    let lines = make_component(
        "CMP",
        "Name",
        "Desc",
        "kw",
        "Auth",
        "0.1.0",
        "SYM",
        None,
        "2024-01-01T00:00:00Z",
        &mut al,
    );
    assert_eq!(
        lines,
        [
            "(librepcb_component CMP",
            " (name \"Name\")",
            " (description \"Desc\")",
            " (keywords \"kw\")",
            " (author \"Auth\")",
            " (version \"0.1.0\")",
            " (created 2024-01-01T00:00:00Z)",
            " (deprecated false)",
            " (schematic_only false)",
            " (default_value \"\")",
            " (prefix \"\")",
            " (variant var1 (norm \"\")",
            "  (name \"default\")",
            "  (description \"\")",
            "  (gate gate1",
            "   (symbol SYM)",
            "   (position 0.0 0.0) (rotation 0.0) (required true) (suffix \"\")",
            "  )",
            " )",
            ")",
        ]
    );
}

#[test]
fn device_document_structure() {
    let lines = make_device(
        "DEV",
        "Name",
        "",
        "",
        "Auth",
        "0.1.0",
        "CMP",
        "PKG",
        Some("cat1"),
        "2024-01-01T00:00:00Z",
    );
    assert_eq!(
        lines,
        [
            "(librepcb_device DEV",
            " (name \"Name\")",
            " (description \"\")",
            " (keywords \"\")",
            " (author \"Auth\")",
            " (version \"0.1.0\")",
            " (created 2024-01-01T00:00:00Z)",
            " (deprecated false)",
            " (category cat1)",
            " (component CMP)",
            " (package PKG)",
            ")",
        ]
    );
}

#[test]
fn package_composes_footprints_indented() {
    let footprints = vec![
        vec!["(footprint f1".to_string(), ")".to_string()],
        vec!["(footprint f2".to_string(), ")".to_string()],
    ];
    let lines = make_package(
        "PKG",
        "Name",
        "",
        "",
        "Auth",
        "0.1.0",
        None,
        &footprints,
        "2024-01-01T00:00:00Z",
    );
    assert_eq!(
        lines,
        [
            "(librepcb_package PKG",
            " (name \"Name\")",
            " (description \"\")",
            " (keywords \"\")",
            " (author \"Auth\")",
            " (version \"0.1.0\")",
            " (created 2024-01-01T00:00:00Z)",
            " (deprecated false)",
            " (footprint f1",
            " )",
            " (footprint f2",
            " )",
            ")",
        ]
    );
}

#[test]
fn metadata_quotes_are_escaped() {
    let mut al = scripted(&["fp1"]);
    let pls: Vec<Vec<Point>> = vec![];
    let lines = make_footprint("top_cu", "he\"llo", "back\\slash", Align::Unchanged, &pls, &mut al);
    assert_eq!(lines[1], " (name \"he\\\"llo\")");
    assert_eq!(lines[2], " (description \"back\\\\slash\")");
}
