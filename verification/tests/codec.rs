//! Round-trip and shape tests of the geometry codec.

use sfconversions::constructors::{
    geom_linestring, geom_multipoint, geom_multipolygon, geom_point, geom_polygon,
    matrix_to_coords, matrix_to_points,
};
use sfconversions::fromsf::sfg_to_geom;
use sfconversions::geom::{
    Coord, Geom, Geometry, Line, LineString, MultiLineString, MultiPoint, MultiPolygon, Point,
    Polygon, Rect,
};
use sfconversions::sfg::{sfg_eq, GeomError, Matrix, Payload, Sfg};
use sfconversions::tosf::{from_point, geoms_to_sfc, to_sfg};

fn b(v: f64) -> u64 {
    v.to_bits()
}

fn c(x: f64, y: f64) -> Coord {
    Coord { x: b(x), y: b(y) }
}

/// An N-by-2 matrix from coordinate pairs, row-major.
fn mat(rows: &[(f64, f64)]) -> Matrix {
    let mut data = Vec::new();
    for &(x, y) in rows {
        data.push(b(x));
        data.push(b(y));
    }
    Matrix { nrow: rows.len(), ncol: 2, data }
}

fn tags(kind: &str) -> Vec<String> {
    vec!["XY".to_string(), kind.to_string(), "sfg".to_string()]
}

#[test]
fn point_round_trip() {
    let g = Geom { geom: Geometry::Point(Point(c(3.5, -7.25))) };
    let encoded = to_sfg(g.clone()).unwrap();
    assert_eq!(encoded.tags, tags("POINT"));
    let back = sfg_to_geom(encoded).unwrap();
    assert_eq!(back, g);
}

#[test]
fn multipoint_round_trip() {
    let pts = vec![Point(c(1.0, 1.0)), Point(c(2.0, 2.0)), Point(c(3.0, 3.0))];
    let g = Geom { geom: Geometry::MultiPoint(MultiPoint(pts)) };
    let encoded = to_sfg(g.clone()).unwrap();
    assert_eq!(encoded.tags, tags("MULTIPOINT"));
    let back = sfg_to_geom(encoded).unwrap();
    assert_eq!(back, g);
}

#[test]
fn linestring_round_trip() {
    let cs = vec![c(0.0, 0.0), c(1.5, 2.5), c(-3.0, 4.0)];
    let g = Geom { geom: Geometry::LineString(LineString(cs)) };
    let encoded = to_sfg(g.clone()).unwrap();
    assert_eq!(encoded.tags, tags("LINESTRING"));
    let back = sfg_to_geom(encoded).unwrap();
    assert_eq!(back, g);
}

#[test]
fn multilinestring_round_trip() {
    let g = Geom {
        geom: Geometry::MultiLineString(MultiLineString(vec![
            LineString(vec![c(0.0, 0.0), c(1.0, 1.0)]),
            LineString(vec![c(2.0, 2.0), c(3.0, 3.0), c(4.0, 4.0)]),
        ])),
    };
    let encoded = to_sfg(g.clone()).unwrap();
    assert_eq!(encoded.tags, tags("MULTILINESTRING"));
    let back = sfg_to_geom(encoded).unwrap();
    assert_eq!(back, g);
}

#[test]
fn polygon_round_trip() {
    let g = Geom {
        geom: Geometry::Polygon(Polygon {
            exterior: LineString(vec![c(0.0, 0.0), c(4.0, 0.0), c(4.0, 4.0), c(0.0, 0.0)]),
            interiors: vec![LineString(vec![c(1.0, 1.0), c(2.0, 1.0), c(2.0, 2.0), c(1.0, 1.0)])],
        }),
    };
    let encoded = to_sfg(g.clone()).unwrap();
    assert_eq!(encoded.tags, tags("POLYGON"));
    let back = sfg_to_geom(encoded).unwrap();
    assert_eq!(back, g);
}

#[test]
fn multipolygon_round_trip() {
    let p1 = Polygon {
        exterior: LineString(vec![c(0.0, 0.0), c(1.0, 0.0), c(1.0, 1.0), c(0.0, 0.0)]),
        interiors: vec![],
    };
    let p2 = Polygon {
        exterior: LineString(vec![c(5.0, 5.0), c(9.0, 5.0), c(9.0, 9.0), c(5.0, 5.0)]),
        interiors: vec![LineString(vec![c(6.0, 6.0), c(7.0, 6.0), c(7.0, 7.0), c(6.0, 6.0)])],
    };
    let g = Geom { geom: Geometry::MultiPolygon(MultiPolygon(vec![p1, p2])) };
    let encoded = to_sfg(g.clone()).unwrap();
    assert_eq!(encoded.tags, tags("MULTIPOLYGON"));
    let back = sfg_to_geom(encoded).unwrap();
    assert_eq!(back, g);
}

#[test]
fn host_object_round_trip_multipoint() {
    let x = Sfg { tags: tags("MULTIPOINT"), payload: Payload::Matrix(mat(&[(1.0, 1.0), (2.0, 2.0), (3.0, 3.0)])) };
    let reference = Sfg { tags: tags("MULTIPOINT"), payload: Payload::Matrix(mat(&[(1.0, 1.0), (2.0, 2.0), (3.0, 3.0)])) };
    let g = sfg_to_geom(x).unwrap();
    let encoded = to_sfg(g).unwrap();
    assert!(sfg_eq(&encoded, &reference));
}

#[test]
fn host_object_round_trip_point() {
    let x = Sfg { tags: tags("POINT"), payload: Payload::Doubles(vec![b(0.0), b(10.0)]) };
    let reference = Sfg { tags: tags("POINT"), payload: Payload::Doubles(vec![b(0.0), b(10.0)]) };
    let g = sfg_to_geom(x).unwrap();
    let encoded = to_sfg(g).unwrap();
    assert!(sfg_eq(&encoded, &reference));
}

#[test]
fn host_object_round_trip_linestring() {
    let payload = || Payload::Matrix(mat(&[(0.0, 0.0), (1.5, 2.5), (-3.0, 4.0)]));
    let x = Sfg { tags: tags("LINESTRING"), payload: payload() };
    let reference = Sfg { tags: tags("LINESTRING"), payload: payload() };
    let g = sfg_to_geom(x).unwrap();
    let encoded = to_sfg(g).unwrap();
    assert!(sfg_eq(&encoded, &reference));
}

#[test]
fn host_object_round_trip_multilinestring() {
    let payload = || {
        Payload::List(vec![
            Payload::Matrix(mat(&[(0.0, 0.0), (1.0, 1.0)])),
            Payload::Matrix(mat(&[(2.0, 2.0), (3.0, 3.0), (4.0, 4.0)])),
        ])
    };
    let x = Sfg { tags: tags("MULTILINESTRING"), payload: payload() };
    let reference = Sfg { tags: tags("MULTILINESTRING"), payload: payload() };
    let g = sfg_to_geom(x).unwrap();
    let encoded = to_sfg(g).unwrap();
    assert!(sfg_eq(&encoded, &reference));
}

#[test]
fn host_object_round_trip_multipolygon() {
    let payload = || {
        Payload::List(vec![
            Payload::List(vec![Payload::Matrix(mat(&[
                (0.0, 0.0),
                (1.0, 0.0),
                (1.0, 1.0),
                (0.0, 0.0),
            ]))]),
            Payload::List(vec![
                Payload::Matrix(mat(&[(5.0, 5.0), (9.0, 5.0), (9.0, 9.0), (5.0, 5.0)])),
                Payload::Matrix(mat(&[(6.0, 6.0), (7.0, 6.0), (7.0, 7.0), (6.0, 6.0)])),
            ]),
        ])
    };
    let x = Sfg { tags: tags("MULTIPOLYGON"), payload: payload() };
    let reference = Sfg { tags: tags("MULTIPOLYGON"), payload: payload() };
    let g = sfg_to_geom(x).unwrap();
    match &g.geom {
        Geometry::MultiPolygon(MultiPolygon(ps)) => {
            assert_eq!(ps.len(), 2);
            assert_eq!(ps[0].interiors.len(), 0);
            assert_eq!(ps[1].interiors.len(), 1);
        }
        other => panic!("expected a multipolygon, got {:?}", other),
    }
    let encoded = to_sfg(g).unwrap();
    assert!(sfg_eq(&encoded, &reference));
}

#[test]
fn decode_ignores_the_dimensionality_marker() {
    let x = Sfg {
        tags: vec!["ZZ".to_string(), "POINT".to_string()],
        payload: Payload::Doubles(vec![b(1.0), b(2.0)]),
    };
    let g = sfg_to_geom(x).unwrap();
    assert_eq!(g.geom, Geometry::Point(Point(c(1.0, 2.0))));
}

#[test]
fn multipoint_payload_preserves_row_order() {
    let x = Sfg { tags: tags("MULTIPOINT"), payload: Payload::Matrix(mat(&[(1.0, 1.0), (2.0, 2.0), (3.0, 3.0)])) };
    let g = sfg_to_geom(x).unwrap();
    match g.geom {
        Geometry::MultiPoint(MultiPoint(pts)) => {
            assert_eq!(pts, vec![Point(c(1.0, 1.0)), Point(c(2.0, 2.0)), Point(c(3.0, 3.0))]);
        }
        other => panic!("expected a multipoint, got {:?}", other),
    }
}

#[test]
fn polygon_payload_ring_order() {
    let exterior = mat(&[(0.0, 0.0), (4.0, 0.0), (4.0, 4.0), (0.0, 0.0)]);
    let interior = mat(&[(1.0, 1.0), (2.0, 1.0), (2.0, 2.0), (1.0, 1.0)]);
    let x = Sfg {
        tags: tags("POLYGON"),
        payload: Payload::List(vec![
            Payload::Matrix(exterior.clone()),
            Payload::Matrix(interior.clone()),
        ]),
    };
    let g = sfg_to_geom(x).unwrap();
    match &g.geom {
        Geometry::Polygon(p) => {
            assert_eq!(p.exterior.0.len(), 4);
            assert_eq!(
                p.exterior.0,
                vec![c(0.0, 0.0), c(4.0, 0.0), c(4.0, 4.0), c(0.0, 0.0)]
            );
            assert_eq!(p.interiors.len(), 1);
            assert_eq!(
                p.interiors[0].0,
                vec![c(1.0, 1.0), c(2.0, 1.0), c(2.0, 2.0), c(1.0, 1.0)]
            );
        }
        other => panic!("expected a polygon, got {:?}", other),
    }
    let encoded = to_sfg(g).unwrap();
    let reference = Sfg {
        tags: tags("POLYGON"),
        payload: Payload::List(vec![Payload::Matrix(exterior), Payload::Matrix(interior)]),
    };
    assert!(sfg_eq(&encoded, &reference));
}

#[test]
fn one_and_three_column_matrices_are_rejected() {
    let one_col = Matrix { nrow: 2, ncol: 1, data: vec![b(1.0), b(2.0)] };
    assert_eq!(matrix_to_coords(&one_col), Err(GeomError::WrongColumns));
    assert_eq!(matrix_to_points(&one_col), Err(GeomError::WrongColumns));

    let three_col = Matrix {
        nrow: 2,
        ncol: 3,
        data: vec![b(1.0), b(2.0), b(3.0), b(4.0), b(5.0), b(6.0)],
    };
    assert_eq!(matrix_to_coords(&three_col), Err(GeomError::WrongColumns));
    assert!(geom_multipoint(&three_col).is_err());
    assert!(geom_linestring(&three_col).is_err());

    let x = Sfg { tags: tags("LINESTRING"), payload: Payload::Matrix(three_col) };
    assert_eq!(sfg_to_geom(x).unwrap_err(), GeomError::WrongColumns);
}

#[test]
fn two_column_matrix_is_read_in_full() {
    let m = mat(&[(1.0, 2.0), (3.0, 4.0)]);
    let cs = matrix_to_coords(&m).unwrap();
    assert_eq!(cs, vec![c(1.0, 2.0), c(3.0, 4.0)]);
}

#[test]
fn unsupported_tags_fail_to_decode() {
    let x = Sfg { tags: tags("GEOMETRYCOLLECTION"), payload: Payload::Null };
    assert_eq!(sfg_to_geom(x).unwrap_err(), GeomError::UnsupportedGeometry);

    let short = Sfg { tags: vec!["XY".to_string()], payload: Payload::Null };
    assert_eq!(sfg_to_geom(short).unwrap_err(), GeomError::UnsupportedGeometry);

    let odd = Sfg { tags: tags("CIRCLE"), payload: Payload::Null };
    assert_eq!(sfg_to_geom(odd).unwrap_err(), GeomError::UnsupportedGeometry);
}

#[test]
fn malformed_payloads_fail_to_decode() {
    let not_a_pair = Sfg {
        tags: tags("POINT"),
        payload: Payload::Doubles(vec![b(1.0), b(2.0), b(3.0)]),
    };
    assert_eq!(sfg_to_geom(not_a_pair).unwrap_err(), GeomError::MalformedPayload);

    let not_a_matrix = Sfg { tags: tags("MULTIPOINT"), payload: Payload::Null };
    assert_eq!(sfg_to_geom(not_a_matrix).unwrap_err(), GeomError::MalformedPayload);

    let empty_polygon = Sfg { tags: tags("POLYGON"), payload: Payload::List(vec![]) };
    assert_eq!(sfg_to_geom(empty_polygon).unwrap_err(), GeomError::MalformedPayload);

    let junk_ring = Sfg {
        tags: tags("MULTILINESTRING"),
        payload: Payload::List(vec![Payload::Null]),
    };
    assert_eq!(sfg_to_geom(junk_ring).unwrap_err(), GeomError::MalformedPayload);
}

#[test]
fn constructors_build_the_expected_variants() {
    let p = geom_point(b(0.0), b(10.0));
    assert_eq!(p.geom, Geometry::Point(Point(c(0.0, 10.0))));

    let mp = geom_multipoint(&mat(&[(1.0, 1.0), (2.0, 2.0)])).unwrap();
    assert_eq!(
        mp.geom,
        Geometry::MultiPoint(MultiPoint(vec![Point(c(1.0, 1.0)), Point(c(2.0, 2.0))]))
    );

    let ls = geom_linestring(&mat(&[(0.0, 0.0), (5.0, 5.0)])).unwrap();
    assert_eq!(ls.geom, Geometry::LineString(LineString(vec![c(0.0, 0.0), c(5.0, 5.0)])));

    let poly = geom_polygon(&vec![
        mat(&[(0.0, 0.0), (4.0, 0.0), (4.0, 4.0), (0.0, 0.0)]),
        mat(&[(1.0, 1.0), (2.0, 1.0), (2.0, 2.0), (1.0, 1.0)]),
    ])
    .unwrap();
    match poly.geom {
        Geometry::Polygon(p) => {
            assert_eq!(p.exterior.0.len(), 4);
            assert_eq!(p.interiors.len(), 1);
        }
        other => panic!("expected a polygon, got {:?}", other),
    }

    let empty: Vec<Matrix> = vec![];
    assert_eq!(geom_polygon(&empty).unwrap_err(), GeomError::MalformedPayload);

    let mpoly = geom_multipolygon(&vec![
        vec![mat(&[(0.0, 0.0), (1.0, 0.0), (1.0, 1.0), (0.0, 0.0)])],
        vec![mat(&[(5.0, 5.0), (6.0, 5.0), (6.0, 6.0), (5.0, 5.0)])],
    ])
    .unwrap();
    match mpoly.geom {
        Geometry::MultiPolygon(MultiPolygon(ps)) => assert_eq!(ps.len(), 2),
        other => panic!("expected a multipolygon, got {:?}", other),
    }
}

#[test]
fn line_and_rect_have_no_encoding() {
    let line = Geom { geom: Geometry::Line(Line { start: c(0.0, 0.0), end: c(1.0, 1.0) }) };
    assert!(to_sfg(line).is_none());

    let rect = Geom { geom: Geometry::Rect(Rect { min: c(0.0, 0.0), max: c(1.0, 1.0) }) };
    assert!(to_sfg(rect).is_none());
}

#[test]
fn collection_encode_keeps_slots_in_place() {
    let point = Geom { geom: Geometry::Point(Point(c(1.0, 2.0))) };
    let line = Geom { geom: Geometry::Line(Line { start: c(0.0, 0.0), end: c(1.0, 1.0) }) };
    let out = geoms_to_sfc(vec![Some(point), None, Some(line)]);
    assert_eq!(out.len(), 3);
    assert!(out[0].is_some());
    assert!(out[1].is_none());
    assert!(out[2].is_none());
    let expected = from_point(Point(c(1.0, 2.0)));
    assert!(sfg_eq(out[0].as_ref().unwrap(), &expected));
}

#[test]
fn point_encoding_is_a_numeric_pair() {
    let encoded = from_point(Point(c(2.0, 8.0)));
    assert_eq!(encoded.tags, tags("POINT"));
    match encoded.payload {
        Payload::Doubles(d) => assert_eq!(d, vec![b(2.0), b(8.0)]),
        other => panic!("expected a numeric pair, got {:?}", other),
    }
}
