//! The single generation pass: from polylines and metadata to the four
//! serialized entity documents.
//!
//! One call produces the package (with its footprints), the symbol, the
//! component and the device, sharing one creation timestamp and drawing
//! every identifier from one allocator in a fixed, deterministic order:
//! footprint blocks first (copper, placement, stop mask), then the symbol,
//! the component, the package and the device.

use crate::emit::{footprint_doc, make_footprint};
use crate::entities::{
    component_doc, device_doc, docs_view, make_component, make_device, make_package, make_symbol,
    package_doc, symbol_doc,
};
use crate::geom::{deep, polylines_wf, Align, Point};
use crate::ids::{
    draws, lemma_draws_refl, lemma_draws_then_fresh, lemma_draws_trans, new_ids, IdAllocator,
};
use crate::text::{opt_view, strings_view};
use vstd::prelude::*;

verus! {

/// Relies on chrono's `Utc::now` and `DateTime::to_rfc3339_opts` with
/// second precision and `use_z` set: an RFC 3339 text of the current UTC
/// time, which for the zero offset ends in the literal `Z`.
#[verifier::external_body]
fn now_utc_string() -> (r: String)
    ensures
        r@.len() > 0,
        r@.last() == 'Z',
{
    chrono::Utc::now().to_rfc3339_opts(chrono::SecondsFormat::Secs, true)
}

/// Caller-supplied metadata carried into every entity document.
pub struct Metadata {
    pub name: String,
    pub description: String,
    pub keywords: String,
    pub author: String,
    pub version: String,
}

/// What one generation pass should produce: alignment, the layers wanted,
/// and optional caller-supplied identifiers overriding the random ones.
pub struct GenOptions {
    pub align: Align,
    pub layer_copper: bool,
    pub layer_placement: bool,
    pub layer_stopmask: bool,
    pub uuid_pkg: Option<String>,
    pub uuid_sym: Option<String>,
    pub uuid_cmp: Option<String>,
    pub uuid_dev: Option<String>,
    pub uuid_pkgcat: Option<String>,
    pub uuid_cmpcat: Option<String>,
}

/// The identifiers drawn for each part of one generation pass.
pub ghost struct IdSegments {
    pub copper: Seq<Seq<char>>,
    pub placement: Seq<Seq<char>>,
    pub stopmask: Seq<Seq<char>>,
    pub symbol: Seq<Seq<char>>,
    pub component: Seq<Seq<char>>,
}

/// The four serialized documents of one pass, the identifiers of the four
/// entities, and the shared creation timestamp.
pub struct GeneratedLibrary {
    pub symbol: Vec<String>,
    pub component: Vec<String>,
    pub package: Vec<String>,
    pub device: Vec<String>,
    pub uuid_sym: String,
    pub uuid_cmp: String,
    pub uuid_pkg: String,
    pub uuid_dev: String,
    pub created: String,
    pub ids_used: Ghost<IdSegments>,
}

pub open spec fn opt_string_view(o: Option<String>) -> Option<Seq<char>> {
    match o {
        Some(s) => Some(s@),
        None => None,
    }
}

/// The footprint list contributed by one layer toggle.
pub open spec fn opt_fp(enabled: bool, doc: Seq<Seq<char>>) -> Seq<Seq<Seq<char>>> {
    if enabled {
        seq![doc]
    } else {
        Seq::empty()
    }
}

/// The identifier drawn for an entity whose caller supplied none.
pub open spec fn drawn_if(absent: bool, id: Seq<char>) -> Seq<Seq<char>> {
    if absent {
        seq![id]
    } else {
        Seq::empty()
    }
}

pub open spec fn layer_draw_count(enabled: bool, n: nat) -> nat {
    if enabled {
        n + 1
    } else {
        0
    }
}

pub open spec fn opt_draw_count(o: Option<String>) -> nat {
    if o is Some {
        0
    } else {
        1
    }
}

/// How many identifiers one whole pass draws.
pub open spec fn total_draw_count(n: nat, opts: GenOptions) -> nat {
    layer_draw_count(opts.layer_copper, n) + layer_draw_count(opts.layer_placement, n)
        + layer_draw_count(opts.layer_stopmask, n) + opt_draw_count(opts.uuid_sym) + n + 2
        + opt_draw_count(opts.uuid_cmp) + 2 + opt_draw_count(opts.uuid_pkg) + opt_draw_count(
        opts.uuid_dev,
    )
}

fn opt_as_str(o: &Option<String>) -> (r: Option<&str>)
    ensures
        opt_view(r) == opt_string_view(*o),
{
    match o {
        Some(s) => Some(s.as_str()),
        None => None,
    }
}

/// Take the caller-supplied identifier, or draw a fresh one.
fn resolve_id(o: &Option<String>, ids: &mut IdAllocator) -> (r: String)
    ensures
        *o matches Some(s) ==> r@ == s@ && *final(ids) == *old(ids),
        *o is None ==> final(ids).produced() == old(ids).produced().push(r@)
            && (old(ids).pending_ids().len() > 0 ==> r@ == old(ids).pending_ids()[0]
            && final(ids).pending_ids() == old(ids).pending_ids().drop_first())
            && (old(ids).pending_ids().len() == 0 ==> final(ids).pending_ids()
            == old(ids).pending_ids()),
{
    match o {
        Some(s) => s.clone(),
        None => ids.fresh(),
    }
}

/// Run one whole generation pass. Every document shares the returned
/// creation timestamp; identifiers are drawn in document order and
/// recorded, segment by segment, in the returned ghost record.
#[verifier::rlimit(100)]
pub fn generate_library(
    polylines: &Vec<Vec<Point>>,
    meta: &Metadata,
    opts: &GenOptions,
    ids: &mut IdAllocator,
) -> (r: GeneratedLibrary)
    requires
        polylines_wf(deep(polylines@)),
    ensures
        draws(*old(ids), *final(ids), total_draw_count(polylines@.len() as nat, *opts)),
        r.ids_used@.copper.len() == layer_draw_count(opts.layer_copper, polylines@.len() as nat),
        r.ids_used@.placement.len() == layer_draw_count(
            opts.layer_placement,
            polylines@.len() as nat,
        ),
        r.ids_used@.stopmask.len() == layer_draw_count(
            opts.layer_stopmask,
            polylines@.len() as nat,
        ),
        r.ids_used@.symbol.len() == polylines@.len() + 2,
        r.ids_used@.component.len() == 2,
        new_ids(*old(ids), *final(ids)) == r.ids_used@.copper + r.ids_used@.placement
            + r.ids_used@.stopmask + drawn_if(opts.uuid_sym is None, r.uuid_sym@)
            + r.ids_used@.symbol + drawn_if(opts.uuid_cmp is None, r.uuid_cmp@)
            + r.ids_used@.component + drawn_if(opts.uuid_pkg is None, r.uuid_pkg@) + drawn_if(
            opts.uuid_dev is None,
            r.uuid_dev@,
        ),
        strings_view(r.package@) == package_doc(
            r.uuid_pkg@,
            meta.name@,
            meta.description@,
            meta.keywords@,
            meta.author@,
            meta.version@,
            r.created@,
            opt_string_view(opts.uuid_pkgcat),
            opt_fp(
                opts.layer_copper,
                footprint_doc(
                    r.ids_used@.copper,
                    "top_cu"@,
                    "Top Copper"@,
                    ""@,
                    opts.align,
                    deep(polylines@),
                ),
            ) + opt_fp(
                opts.layer_placement,
                footprint_doc(
                    r.ids_used@.placement,
                    "top_placement"@,
                    "Top Placement"@,
                    ""@,
                    opts.align,
                    deep(polylines@),
                ),
            ) + opt_fp(
                opts.layer_stopmask,
                footprint_doc(
                    r.ids_used@.stopmask,
                    "top_stop_mask"@,
                    "Top Stop Mask"@,
                    ""@,
                    opts.align,
                    deep(polylines@),
                ),
            ),
        ),
        strings_view(r.symbol@) == symbol_doc(
            r.uuid_sym@,
            meta.name@,
            meta.description@,
            meta.keywords@,
            meta.author@,
            meta.version@,
            r.created@,
            opt_string_view(opts.uuid_cmpcat),
            deep(polylines@),
            r.ids_used@.symbol,
        ),
        strings_view(r.component@) == component_doc(
            r.uuid_cmp@,
            meta.name@,
            meta.description@,
            meta.keywords@,
            meta.author@,
            meta.version@,
            r.created@,
            opt_string_view(opts.uuid_cmpcat),
            r.uuid_sym@,
            r.ids_used@.component,
        ),
        strings_view(r.device@) == device_doc(
            r.uuid_dev@,
            meta.name@,
            meta.description@,
            meta.keywords@,
            meta.author@,
            meta.version@,
            r.created@,
            opt_string_view(opts.uuid_cmpcat),
            r.uuid_cmp@,
            r.uuid_pkg@,
        ),
        opts.uuid_sym matches Some(s) ==> r.uuid_sym@ == s@,
        opts.uuid_cmp matches Some(s) ==> r.uuid_cmp@ == s@,
        opts.uuid_pkg matches Some(s) ==> r.uuid_pkg@ == s@,
        opts.uuid_dev matches Some(s) ==> r.uuid_dev@ == s@,
{
    let ghost n = polylines@.len() as nat;
    let created = now_utc_string();
    let ghost a0 = *ids;
    let mut footprints: Vec<Vec<String>> = Vec::new();
    if opts.layer_copper {
        let fp = make_footprint("top_cu", "Top Copper", "", opts.align, polylines, ids);
        footprints.push(fp);
    }
    let ghost a1 = *ids;
    let ghost seg_cu = new_ids(a0, a1);
    proof {
        if !opts.layer_copper {
            lemma_draws_refl(a0);
        }
        assert(draws(a0, a1, layer_draw_count(opts.layer_copper, n)));
    }
    if opts.layer_placement {
        let fp = make_footprint("top_placement", "Top Placement", "", opts.align, polylines, ids);
        footprints.push(fp);
    }
    let ghost a2 = *ids;
    let ghost seg_pl = new_ids(a1, a2);
    proof {
        if !opts.layer_placement {
            lemma_draws_refl(a1);
        }
        assert(draws(a1, a2, layer_draw_count(opts.layer_placement, n)));
    }
    if opts.layer_stopmask {
        let fp = make_footprint("top_stop_mask", "Top Stop Mask", "", opts.align, polylines, ids);
        footprints.push(fp);
    }
    let ghost a3 = *ids;
    let ghost seg_st = new_ids(a2, a3);
    proof {
        if !opts.layer_stopmask {
            lemma_draws_refl(a2);
        }
        assert(draws(a2, a3, layer_draw_count(opts.layer_stopmask, n)));
        assert(docs_view(footprints@) =~= opt_fp(
            opts.layer_copper,
            footprint_doc(seg_cu, "top_cu"@, "Top Copper"@, ""@, opts.align, deep(polylines@)),
        ) + opt_fp(
            opts.layer_placement,
            footprint_doc(
                seg_pl,
                "top_placement"@,
                "Top Placement"@,
                ""@,
                opts.align,
                deep(polylines@),
            ),
        ) + opt_fp(
            opts.layer_stopmask,
            footprint_doc(
                seg_st,
                "top_stop_mask"@,
                "Top Stop Mask"@,
                ""@,
                opts.align,
                deep(polylines@),
            ),
        ));
    }
    let uuid_sym = resolve_id(&opts.uuid_sym, ids);
    let ghost a4 = *ids;
    proof {
        if opts.uuid_sym is Some {
            lemma_draws_refl(a3);
        } else {
            lemma_draws_refl(a3);
            lemma_draws_then_fresh(a3, a3, a4, uuid_sym@, 0);
        }
        assert(draws(a3, a4, opt_draw_count(opts.uuid_sym)));
        assert(new_ids(a3, a4) =~= drawn_if(opts.uuid_sym is None, uuid_sym@));
    }
    let sym = make_symbol(
        uuid_sym.as_str(),
        meta.name.as_str(),
        meta.description.as_str(),
        meta.keywords.as_str(),
        meta.author.as_str(),
        meta.version.as_str(),
        opt_as_str(&opts.uuid_cmpcat),
        polylines,
        created.as_str(),
        ids,
    );
    let ghost a5 = *ids;
    let ghost seg_sy = new_ids(a4, a5);
    let uuid_cmp = resolve_id(&opts.uuid_cmp, ids);
    let ghost a6 = *ids;
    proof {
        if opts.uuid_cmp is Some {
            lemma_draws_refl(a5);
        } else {
            lemma_draws_refl(a5);
            lemma_draws_then_fresh(a5, a5, a6, uuid_cmp@, 0);
        }
        assert(draws(a5, a6, opt_draw_count(opts.uuid_cmp)));
        assert(new_ids(a5, a6) =~= drawn_if(opts.uuid_cmp is None, uuid_cmp@));
    }
    let cmp = make_component(
        uuid_cmp.as_str(),
        meta.name.as_str(),
        meta.description.as_str(),
        meta.keywords.as_str(),
        meta.author.as_str(),
        meta.version.as_str(),
        uuid_sym.as_str(),
        opt_as_str(&opts.uuid_cmpcat),
        created.as_str(),
        ids,
    );
    let ghost a7 = *ids;
    let ghost seg_cm = new_ids(a6, a7);
    let uuid_pkg = resolve_id(&opts.uuid_pkg, ids);
    let ghost a8 = *ids;
    proof {
        if opts.uuid_pkg is Some {
            lemma_draws_refl(a7);
        } else {
            lemma_draws_refl(a7);
            lemma_draws_then_fresh(a7, a7, a8, uuid_pkg@, 0);
        }
        assert(draws(a7, a8, opt_draw_count(opts.uuid_pkg)));
        assert(new_ids(a7, a8) =~= drawn_if(opts.uuid_pkg is None, uuid_pkg@));
    }
    let pkg = make_package(
        uuid_pkg.as_str(),
        meta.name.as_str(),
        meta.description.as_str(),
        meta.keywords.as_str(),
        meta.author.as_str(),
        meta.version.as_str(),
        opt_as_str(&opts.uuid_pkgcat),
        &footprints,
        created.as_str(),
    );
    let uuid_dev = resolve_id(&opts.uuid_dev, ids);
    let ghost a9 = *ids;
    proof {
        if opts.uuid_dev is Some {
            lemma_draws_refl(a8);
        } else {
            lemma_draws_refl(a8);
            lemma_draws_then_fresh(a8, a8, a9, uuid_dev@, 0);
        }
        assert(draws(a8, a9, opt_draw_count(opts.uuid_dev)));
        assert(new_ids(a8, a9) =~= drawn_if(opts.uuid_dev is None, uuid_dev@));
    }
    let dev = make_device(
        uuid_dev.as_str(),
        meta.name.as_str(),
        meta.description.as_str(),
        meta.keywords.as_str(),
        meta.author.as_str(),
        meta.version.as_str(),
        uuid_cmp.as_str(),
        uuid_pkg.as_str(),
        opt_as_str(&opts.uuid_cmpcat),
        created.as_str(),
    );
    proof {
        lemma_draws_trans(a0, a1, a2, layer_draw_count(opts.layer_copper, n), layer_draw_count(opts.layer_placement, n));
        lemma_draws_trans(a0, a2, a3, layer_draw_count(opts.layer_copper, n) + layer_draw_count(opts.layer_placement, n), layer_draw_count(opts.layer_stopmask, n));
        let c3 = layer_draw_count(opts.layer_copper, n) + layer_draw_count(opts.layer_placement, n) + layer_draw_count(opts.layer_stopmask, n);
        lemma_draws_trans(a0, a3, a4, c3, opt_draw_count(opts.uuid_sym));
        let c4 = c3 + opt_draw_count(opts.uuid_sym);
        lemma_draws_trans(a0, a4, a5, c4, (n + 2) as nat);
        let c5 = c4 + n + 2;
        lemma_draws_trans(a0, a5, a6, c5, opt_draw_count(opts.uuid_cmp));
        let c6 = c5 + opt_draw_count(opts.uuid_cmp);
        lemma_draws_trans(a0, a6, a7, c6, 2);
        let c7 = c6 + 2;
        lemma_draws_trans(a0, a7, a8, c7, opt_draw_count(opts.uuid_pkg));
        let c8 = c7 + opt_draw_count(opts.uuid_pkg);
        lemma_draws_trans(a0, a8, a9, c8, opt_draw_count(opts.uuid_dev));
        assert(c8 + opt_draw_count(opts.uuid_dev) == total_draw_count(n, *opts));
        assert(new_ids(a0, a9) =~= seg_cu + seg_pl + seg_st + drawn_if(
            opts.uuid_sym is None,
            uuid_sym@,
        ) + seg_sy + drawn_if(opts.uuid_cmp is None, uuid_cmp@) + seg_cm + drawn_if(
            opts.uuid_pkg is None,
            uuid_pkg@,
        ) + drawn_if(opts.uuid_dev is None, uuid_dev@));
    }
    GeneratedLibrary {
        symbol: sym,
        component: cmp,
        package: pkg,
        device: dev,
        uuid_sym,
        uuid_cmp,
        uuid_pkg,
        uuid_dev,
        created,
        ids_used: Ghost(
            IdSegments {
                copper: seg_cu,
                placement: seg_pl,
                stopmask: seg_st,
                symbol: seg_sy,
                component: seg_cm,
            },
        ),
    }
}

} // verus!
