use svg2librepcb::geom::{Align, Point};
use svg2librepcb::ids::IdAllocator;
use svg2librepcb::pipeline::{generate_library, GenOptions, Metadata};

fn pt(x: i64, y: i64) -> Point {
    Point { x, y }
}

fn meta() -> Metadata {
    Metadata {
        name: "Widget".to_string(),
        description: "A widget".to_string(),
        keywords: "widget".to_string(),
        author: "Tester".to_string(),
        version: "0.1.0".to_string(),
    }
}

#[test]
fn allocator_scripted_then_random() {
    let mut al = IdAllocator::scripted(vec!["a".to_string(), "b".to_string()]);
    assert_eq!(al.fresh(), "a");
    assert_eq!(al.fresh(), "b");
    let r = al.fresh();
    assert_eq!(r.len(), 36);
}

#[test]
fn random_identifiers_are_canonical_form() {
    let mut al = IdAllocator::random();
    let a = al.fresh();
    let b = al.fresh();
    assert_eq!(a.len(), 36);
    assert_ne!(a, b);
    assert!(a.chars().all(|c| c == '-' || c.is_ascii_hexdigit()));
    assert_eq!(a.matches('-').count(), 4);
}

#[test]
fn generate_library_end_to_end() {
    let square = vec![
        pt(0, 0),
        pt(10_000, 0),
        pt(10_000, 10_000),
        pt(0, 10_000),
        pt(0, 0),
    ];
    let polylines = vec![square];
    let opts = GenOptions {
        align: Align::Unchanged,
        layer_copper: true,
        layer_placement: true,
        layer_stopmask: true,
        uuid_pkg: Some("PKG".to_string()),
        uuid_sym: Some("SYM".to_string()),
        uuid_cmp: Some("CMP".to_string()),
        uuid_dev: Some("DEV".to_string()),
        uuid_pkgcat: Some("PKGCAT".to_string()),
        uuid_cmpcat: None,
    };
    let mut al = IdAllocator::scripted(vec![
        "f1".to_string(),
        "f1p".to_string(),
        "f2".to_string(),
        "f2p".to_string(),
        "f3".to_string(),
        "f3p".to_string(),
        "sp".to_string(),
        "v1".to_string(),
        "n1".to_string(),
        "var1".to_string(),
        "gate1".to_string(),
    ]);
    let lib = generate_library(&polylines, &meta(), &opts, &mut al);
    assert_eq!(lib.uuid_pkg, "PKG");
    assert_eq!(lib.uuid_sym, "SYM");
    assert_eq!(lib.uuid_cmp, "CMP");
    assert_eq!(lib.uuid_dev, "DEV");
    assert!(lib.created.ends_with('Z'));
    assert_eq!(lib.package[0], "(librepcb_package PKG");
    assert!(lib.package.contains(&" (category PKGCAT)".to_string()));
    assert!(lib.package.contains(&" (footprint f1".to_string()));
    assert!(lib.package.contains(&" (footprint f2".to_string()));
    assert!(lib.package.contains(&" (footprint f3".to_string()));
    assert!(lib.package.contains(&"  (polygon \"f1p\" (layer top_cu)".to_string()));
    assert!(lib.package.contains(&"  (polygon \"f2p\" (layer top_placement)".to_string()));
    assert!(lib.package.contains(&"  (polygon \"f3p\" (layer top_stop_mask)".to_string()));
    assert!(lib.package.contains(&format!(" (created {})", lib.created)));
    assert_eq!(lib.symbol[0], "(librepcb_symbol SYM");
    assert!(lib.symbol.contains(&" (polygon \"sp\" (layer sym_outlines)".to_string()));
    assert!(lib.symbol.contains(&" (text v1 (layer sym_values) (value \"{{VALUE}}\")".to_string()));
    assert!(lib.symbol.contains(&" (text n1 (layer sym_names) (value \"{{NAME}}\")".to_string()));
    assert_eq!(lib.component[0], "(librepcb_component CMP");
    assert!(lib.component.contains(&" (variant var1 (norm \"\")".to_string()));
    assert!(lib.component.contains(&"   (symbol SYM)".to_string()));
    assert_eq!(lib.device[0], "(librepcb_device DEV");
    assert!(lib.device.contains(&" (component CMP)".to_string()));
    assert!(lib.device.contains(&" (package PKG)".to_string()));
    assert_eq!(lib.device.last().unwrap(), ")");
}

#[test]
fn generate_library_empty_input_still_valid() {
    let polylines: Vec<Vec<Point>> = vec![];
    let opts = GenOptions {
        align: Align::Center,
        layer_copper: true,
        layer_placement: false,
        layer_stopmask: true,
        uuid_pkg: None,
        uuid_sym: None,
        uuid_cmp: None,
        uuid_dev: None,
        uuid_pkgcat: None,
        uuid_cmpcat: None,
    };
    let mut al = IdAllocator::random();
    let lib = generate_library(&polylines, &meta(), &opts, &mut al);
    assert!(!lib.package.iter().any(|l| l.contains("(polygon")));
    assert_eq!(lib.package.iter().filter(|l| l.starts_with(" (footprint ")).count(), 2);
    assert_eq!(lib.package.last().unwrap(), ")");
    assert_eq!(lib.uuid_sym.len(), 36);
    assert!(!lib.symbol.iter().any(|l| l.contains("(polygon")));
    assert!(lib.symbol.iter().any(|l| l.contains("(position 0.0 -1.27)")));
    assert!(lib.symbol.iter().any(|l| l.contains("(position 0.0 1.27)")));
}
