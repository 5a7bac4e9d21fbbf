//! Tests of the geometry model's conversions and the text helpers.

use sfconversions::geom::{
    Coord, Geom, Geometry, GeomKind, Line, LineString, Point, Polygon, Rect,
};
use sfconversions::text::{lower_char, str_eq, str_starts_with, to_lower, to_upper, upper_char};

fn c(x: f64, y: f64) -> Coord {
    Coord { x: x.to_bits(), y: y.to_bits() }
}

#[test]
fn wrapper_conversions() {
    let p = Point(c(1.0, 2.0));
    let g: Geom = p.into();
    assert_eq!(g.geom, Geometry::Point(p));
    assert_eq!(g.kind(), GeomKind::Point);
    assert_eq!(g.into_point(), p);

    let ls = LineString(vec![c(0.0, 0.0), c(1.0, 1.0)]);
    let g: Geom = ls.clone().into();
    assert_eq!(g.kind(), GeomKind::LineString);
    assert_eq!(g.into_linestring(), ls);

    let poly = Polygon {
        exterior: LineString(vec![c(0.0, 0.0), c(1.0, 0.0), c(1.0, 1.0), c(0.0, 0.0)]),
        interiors: vec![],
    };
    let g: Geom = poly.clone().into();
    assert_eq!(g.kind(), GeomKind::Polygon);
    assert_eq!(g.into_polygon(), poly);

    let line = Line { start: c(0.0, 0.0), end: c(2.0, 2.0) };
    let g: Geom = line.into();
    assert_eq!(g.kind(), GeomKind::Line);

    let rect = Rect { min: c(0.0, 0.0), max: c(3.0, 3.0) };
    let g: Geom = rect.into();
    assert_eq!(g.kind(), GeomKind::Rect);

    let geo = Geometry::Point(Point(c(9.0, 9.0)));
    let g: Geom = geo.clone().into();
    assert_eq!(g.geom, geo);
}

#[test]
fn string_equality() {
    assert!(str_eq("POINT", "POINT"));
    assert!(!str_eq("POINT", "MULTIPOINT"));
    assert!(!str_eq("POINT", "point"));
    assert!(str_eq("", ""));
}

#[test]
fn string_prefixes() {
    assert!(str_starts_with("rs_POINT", "rs_"));
    assert!(str_starts_with("rs_", "rs_"));
    assert!(!str_starts_with("rs", "rs_"));
    assert!(!str_starts_with("sfc_POINT", "rs_"));
}

#[test]
fn ascii_case_mapping() {
    assert_eq!(upper_char('a'), 'A');
    assert_eq!(upper_char('z'), 'Z');
    assert_eq!(upper_char('A'), 'A');
    assert_eq!(upper_char('_'), '_');
    assert_eq!(lower_char('A'), 'a');
    assert_eq!(lower_char('Z'), 'z');
    assert_eq!(lower_char('0'), '0');
    assert_eq!(to_upper("multipolygon"), "MULTIPOLYGON");
    assert_eq!(to_lower("rs_POINT"), "rs_point");
    assert_eq!(to_upper("already UPPER 123"), "ALREADY UPPER 123");
}
