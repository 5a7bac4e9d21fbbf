//! Classifier and class-tag tests.

use sfconversions::fromsf::{sfc_to_geoms, sfc_to_rsgeo, sfg_to_rsgeo};
use sfconversions::geom::{
    from_list, to_pntr, Coord, Geom, Geometry, LineString, Point,
};
use sfconversions::geoms_from_list;
use sfconversions::geometry_from_list;
use sfconversions::geoms_ref_from_list;
use sfconversions::sfg::{Matrix, Payload, Sfg};
use sfconversions::tosf::determine_sfc_class;
use sfconversions::vctrs::{
    as_rsgeo_vctr, determine_geoms_class, geom_class, is_rsgeo, rsgeo_type, verify_rsgeo,
    RsgeoVctr,
};

fn b(v: f64) -> u64 {
    v.to_bits()
}

fn c(x: f64, y: f64) -> Coord {
    Coord { x: b(x), y: b(y) }
}

fn point(x: f64, y: f64) -> Geom {
    Geom { geom: Geometry::Point(Point(c(x, y))) }
}

fn linestring() -> Geom {
    Geom { geom: Geometry::LineString(LineString(vec![c(0.0, 0.0), c(1.0, 1.0)])) }
}

fn mat(rows: &[(f64, f64)]) -> Matrix {
    let mut data = Vec::new();
    for &(x, y) in rows {
        data.push(b(x));
        data.push(b(y));
    }
    Matrix { nrow: rows.len(), ncol: 2, data }
}

fn tags(kind: &str) -> Vec<String> {
    vec!["XY".to_string(), kind.to_string(), "sfg".to_string()]
}

#[test]
fn homogeneous_points_classify_as_point() {
    let xs = vec![Some(point(0.0, 0.0)), Some(point(1.0, 1.0)), None];
    assert_eq!(determine_sfc_class(&xs), "Point");
}

#[test]
fn mixed_kinds_classify_as_collection() {
    let xs = vec![Some(point(0.0, 0.0)), Some(linestring())];
    assert_eq!(determine_sfc_class(&xs), "GEOMETRYCOLLECTION");
}

#[test]
fn all_empty_collection_has_defined_class() {
    let xs: Vec<Option<Geom>> = vec![None, None];
    assert_eq!(determine_sfc_class(&xs), "");
    let empty: Vec<Option<Geom>> = vec![];
    assert_eq!(determine_sfc_class(&empty), "");
}

#[test]
fn geom_class_builds_the_four_part_attribute() {
    assert_eq!(
        geom_class("point"),
        vec!["rs_POINT", "rsgeo", "vctrs_vctr", "list"]
    );
    assert_eq!(
        geom_class("geometrycollection"),
        vec!["rs_GEOMETRYCOLLECTION", "rsgeo", "vctrs_vctr", "list"]
    );
}

#[test]
fn pointer_lists_classify_by_element_class() {
    let homogeneous = vec![
        Some(to_pntr(point(0.0, 0.0))),
        Some(to_pntr(point(1.0, 1.0))),
        None,
    ];
    assert_eq!(determine_geoms_class(&homogeneous)[0], "rs_POINT");

    let mixed = vec![Some(to_pntr(point(0.0, 0.0))), Some(to_pntr(linestring()))];
    assert_eq!(determine_geoms_class(&mixed)[0], "rs_GEOMETRYCOLLECTION");

    let empty: Vec<Option<sfconversions::geom::GeomPntr>> = vec![None];
    assert_eq!(determine_geoms_class(&empty)[0], "rs_GEOMETRYCOLLECTION");
}

#[test]
fn pointers_carry_their_kind_class() {
    let p = to_pntr(point(2.0, 3.0));
    assert_eq!(p.class, "point");
    let l = to_pntr(linestring());
    assert_eq!(l.class, "linestring");
}

#[test]
fn decoded_collection_is_classed_as_a_vector() {
    let xs = vec![
        Some(Sfg { tags: tags("POINT"), payload: Payload::Doubles(vec![b(0.0), b(0.0)]) }),
        Some(Sfg { tags: tags("POINT"), payload: Payload::Doubles(vec![b(1.0), b(1.0)]) }),
        None,
    ];
    let v = sfc_to_rsgeo(xs);
    assert_eq!(v.class[0], "rs_POINT");
    assert_eq!(v.elems.len(), 3);
    assert!(v.elems[0].is_some());
    assert!(v.elems[2].is_none());
}

#[test]
fn lenient_collection_decode_keeps_slots() {
    let xs = vec![
        Some(Sfg { tags: tags("POINT"), payload: Payload::Doubles(vec![b(0.0), b(0.0)]) }),
        Some(Sfg { tags: tags("CIRCLE"), payload: Payload::Null }),
        None,
        Some(Sfg { tags: tags("MULTIPOINT"), payload: Payload::Matrix(mat(&[(1.0, 1.0)])) }),
    ];
    let out = sfc_to_geoms(xs);
    assert_eq!(out.len(), 4);
    assert_eq!(out[0], Some(point(0.0, 0.0)));
    assert_eq!(out[1], None);
    assert_eq!(out[2], None);
    assert!(out[3].is_some());
}

#[test]
fn infallible_decode_drops_unrecognised_objects() {
    let good = Sfg { tags: tags("POINT"), payload: Payload::Doubles(vec![b(5.0), b(6.0)]) };
    let p = sfg_to_rsgeo(good).unwrap();
    assert_eq!(p.class, "point");
    assert_eq!(p.geom, point(5.0, 6.0));

    let bad = Sfg { tags: tags("CIRCLE"), payload: Payload::Null };
    assert!(sfg_to_rsgeo(bad).is_none());
}

#[test]
fn vector_class_checks() {
    let v = as_rsgeo_vctr(vec![Some(to_pntr(point(0.0, 0.0)))], "point");
    assert_eq!(is_rsgeo(&Some(v)), Some(true));
    assert_eq!(is_rsgeo(&None), None);

    let v = as_rsgeo_vctr(vec![], "point");
    assert!(verify_rsgeo(&v).is_ok());

    let plain = RsgeoVctr {
        class: vec![
            "data.frame".to_string(),
            "x".to_string(),
            "y".to_string(),
            "z".to_string(),
        ],
        elems: vec![],
    };
    assert_eq!(verify_rsgeo(&plain), Err(sfconversions::sfg::GeomError::NotRsgeo));
    assert_eq!(is_rsgeo(&Some(plain)), Some(false));
}

#[test]
fn vector_type_is_the_lower_cased_kind() {
    let v = as_rsgeo_vctr(vec![], "multipolygon");
    assert_eq!(rsgeo_type(&v).unwrap(), "multipolygon");

    let v = as_rsgeo_vctr(vec![], "point");
    assert_eq!(rsgeo_type(&v).unwrap(), "point");

    let plain = RsgeoVctr {
        class: vec![
            "data.frame".to_string(),
            "rsgeo".to_string(),
            "vctrs_vctr".to_string(),
            "list".to_string(),
        ],
        elems: vec![],
    };
    assert_eq!(rsgeo_type(&plain), Err(sfconversions::sfg::GeomError::NotRsgeo));

    let foreign = RsgeoVctr {
        class: vec![
            "rs_POINT".to_string(),
            "tbl".to_string(),
            "vctrs_vctr".to_string(),
            "list".to_string(),
        ],
        elems: vec![],
    };
    assert_eq!(rsgeo_type(&foreign), Err(sfconversions::sfg::GeomError::NotRsgeo));
}

#[test]
fn pointer_lists_unwrap_in_order() {
    let ps = vec![to_pntr(point(0.0, 0.0)), to_pntr(linestring())];
    let gs = from_list(ps);
    assert_eq!(gs.len(), 2);
    assert_eq!(gs[0], point(0.0, 0.0));
    assert_eq!(gs[1], linestring());

    let opts = vec![Some(to_pntr(point(1.0, 1.0))), None];
    let gs = geoms_from_list(opts);
    assert_eq!(gs, vec![Some(point(1.0, 1.0)), None]);

    let opts = vec![Some(to_pntr(point(1.0, 1.0))), None];
    let refs = geoms_ref_from_list(&opts);
    assert_eq!(refs.len(), 2);
    assert_eq!(refs[0].unwrap(), &point(1.0, 1.0));
    assert!(refs[1].is_none());

    let opts = vec![Some(to_pntr(point(2.0, 2.0))), None];
    let geos = geometry_from_list(opts);
    assert_eq!(geos, vec![Some(Geometry::Point(Point(c(2.0, 2.0)))), None]);
}
