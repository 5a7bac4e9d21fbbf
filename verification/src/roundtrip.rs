//! Round-trip laws of the codec.
//!
//! Encoding any of the six encodable variants yields a host object
//! that decodes back to the same geometry, and decoding a well-formed
//! canonical host object yields a geometry that encodes back to the
//! identical object.

use vstd::prelude::*;
use crate::constructors::{cols_ok, mat_coords, rings_of, spec_polygon, spec_multipolygon};
use crate::fromsf::{
    all_matrices, matv_wf, multipoly_mats, multipoly_shape_ok, payload_mats, payloadv_wf,
    sfgv_wf, spec_decode, spec_decode_linestring, spec_decode_multilinestring,
    spec_decode_multipoint, spec_decode_multipolygon, spec_decode_point, spec_decode_polygon,
};
use crate::geom::{Coord, GeometryV, GeomKind, PolygonV, view_kind};
use crate::sfg::{canonical_tags, encodable, GeomError, kind_tag, MatrixV, PayloadV, SfgV};
use crate::tosf::{coords_matv, poly_rings, rings_payload, spec_encode};

verus! {

/// Laying coordinates out as a matrix and reading them back is the
/// identity.
pub proof fn lemma_coords_roundtrip(cs: Seq<Coord>)
    ensures
        coords_matv(cs).ncol == 2,
        matv_wf(coords_matv(cs)),
        mat_coords(coords_matv(cs)) == cs,
{
    let m = coords_matv(cs);
    assert forall|r: int| 0 <= r < cs.len() implies mat_coords(m)[r] == cs[r] by {
        assert(m.data[2 * r] == cs[r].x);
        assert(m.data[2 * r + 1] == cs[r].y);
    }
    assert(mat_coords(m) =~= cs);
}

/// Reading a two-column matrix into coordinates and laying those out
/// again rebuilds the identical matrix.
pub proof fn lemma_matv_roundtrip(m: MatrixV)
    requires
        matv_wf(m),
        m.ncol == 2,
    ensures
        coords_matv(mat_coords(m)) == m,
{
    let cs = mat_coords(m);
    let m2 = coords_matv(cs);
    assert forall|k: int| 0 <= k < m2.data.len() implies m2.data[k] == m.data[k] by {
        if k % 2 == 0 {
            assert(k == 2 * (k / 2));
            assert(m2.data[k] == cs[k / 2].x);
        } else {
            assert(k == 2 * (k / 2) + 1);
            assert(m2.data[k] == cs[k / 2].y);
        }
    }
    assert(m2.data =~= m.data);
    assert(m2 =~= m);
}

/// Reading each ring of a polygon result back out of its payload.
pub proof fn lemma_poly_rings_spec(ms: Seq<MatrixV>)
    requires
        spec_polygon(ms) is Ok,
    ensures
        poly_rings(spec_polygon(ms)->Ok_0) == rings_of(ms),
{
    let p = spec_polygon(ms)->Ok_0;
    assert forall|i: int| 0 <= i < ms.len() implies poly_rings(p)[i] == rings_of(ms)[i] by {
        if i > 0 {
            assert(p.interiors[i - 1] == mat_coords(ms.drop_first()[i - 1]));
            assert(ms.drop_first()[i - 1] == ms[i]);
        }
    }
    assert(poly_rings(p) =~= rings_of(ms));
}

/// Encoding a polygon and decoding its payload yields the polygon
/// back.
proof fn lemma_polygon_roundtrip(p: PolygonV)
    ensures
        ({
            let ms = payload_mats(rings_payload(poly_rings(p)));
            &&& all_matrices(rings_payload(poly_rings(p)))
            &&& spec_polygon(ms) == Ok::<PolygonV, GeomError>(p)
        }),
{
    let rings = poly_rings(p);
    let ms = payload_mats(rings_payload(rings));
    assert forall|i: int| 0 <= i < ms.len() implies #[trigger] ms[i] == coords_matv(
        rings[i],
    ) by {
        assert(rings_payload(rings)[i] == PayloadV::Matrix(coords_matv(rings[i])));
    }
    assert(cols_ok(ms)) by {
        assert forall|i: int| 0 <= i < ms.len() implies (#[trigger] ms[i]).ncol == 2 by {
            lemma_coords_roundtrip(rings[i]);
        }
    }
    assert(ms.len() == rings.len());
    let q = spec_polygon(ms)->Ok_0;
    lemma_coords_roundtrip(rings[0]);
    assert(q.exterior == p.exterior);
    assert forall|i: int| 0 <= i < p.interiors.len() implies q.interiors[i]
        == p.interiors[i] by {
        assert(ms.drop_first()[i] == ms[i + 1]);
        assert(rings[i + 1] == p.interiors[i]);
        lemma_coords_roundtrip(rings[i + 1]);
    }
    assert(q.interiors =~= p.interiors);
    assert(q =~= p);
}

/// Every encodable geometry encodes to a host object, and decoding
/// that object yields the same geometry back.
pub proof fn lemma_decode_encode(g: GeometryV)
    requires
        encodable(view_kind(g)),
    ensures
        spec_encode(g) is Some,
        spec_decode(spec_encode(g)->Some_0) == Ok::<GeometryV, GeomError>(g),
{
    let x = spec_encode(g)->Some_0;
    let k = view_kind(g);
    assert(x.tags == canonical_tags(k));
    lemma_kind_tags_distinct();
    match g {
        GeometryV::Point(c) => {
            assert(spec_decode(x) == spec_decode_point(x.payload));
            assert(x.payload->Doubles_0 =~= seq![c.x, c.y]);
        },
        GeometryV::MultiPoint(cs) => {
            lemma_coords_roundtrip(cs);
            assert(spec_decode(x) == spec_decode_multipoint(x.payload));
        },
        GeometryV::LineString(cs) => {
            lemma_coords_roundtrip(cs);
            assert(spec_decode(x) == spec_decode_linestring(x.payload));
        },
        GeometryV::MultiLineString(rs) => {
            assert(spec_decode(x) == spec_decode_multilinestring(x.payload));
            let l = rings_payload(rs);
            assert(all_matrices(l)) by {
                assert forall|i: int| 0 <= i < l.len() implies (#[trigger] l[i]) is Matrix by {
                    assert(l[i] == PayloadV::Matrix(coords_matv(rs[i])));
                }
            }
            assert forall|i: int| 0 <= i < l.len() implies #[trigger] payload_mats(l)[i]
                == coords_matv(rs[i]) by {
                assert(l[i] == PayloadV::Matrix(coords_matv(rs[i])));
            }
            assert(cols_ok(payload_mats(l))) by {
                assert forall|i: int| 0 <= i < l.len() implies (#[trigger] payload_mats(
                    l,
                )[i]).ncol == 2 by {
                    lemma_coords_roundtrip(rs[i]);
                }
            }
            assert forall|i: int| 0 <= i < rs.len() implies #[trigger] rings_of(
                payload_mats(l),
            )[i] == rs[i] by {
                lemma_coords_roundtrip(rs[i]);
            }
            assert(rings_of(payload_mats(l)) =~= rs);
        },
        GeometryV::Polygon(p) => {
            assert(spec_decode(x) == spec_decode_polygon(x.payload));
            lemma_polygon_roundtrip(p);
        },
        GeometryV::MultiPolygon(ps) => {
            assert(spec_decode(x) == spec_decode_multipolygon(x.payload));
            let l = ps.map(|_i: int, p: PolygonV| PayloadV::List(rings_payload(poly_rings(p))));
            assert(multipoly_shape_ok(l)) by {
                assert forall|i: int| 0 <= i < l.len() implies (#[trigger] l[i]) is List
                    && all_matrices(l[i]->List_0) by {
                    assert(l[i] == PayloadV::List(rings_payload(poly_rings(ps[i]))));
                    lemma_polygon_roundtrip(ps[i]);
                }
            }
            let mm = multipoly_mats(l);
            assert forall|i: int| 0 <= i < mm.len() implies spec_polygon(#[trigger] mm[i])
                == Ok::<PolygonV, GeomError>(ps[i]) by {
                assert(l[i] == PayloadV::List(rings_payload(poly_rings(ps[i]))));
                lemma_polygon_roundtrip(ps[i]);
            }
            assert(spec_multipolygon(mm) is Ok) by {
                assert forall|i: int| 0 <= i < mm.len() implies (#[trigger] mm[i]).len() != 0
                    && cols_ok(mm[i]) by {
                    assert(spec_polygon(mm[i]) is Ok);
                }
            }
            assert(spec_multipolygon(mm)->Ok_0 =~= ps) by {
                assert forall|i: int| 0 <= i < mm.len() implies spec_polygon(mm[i])->Ok_0
                    == ps[i] by {
                    assert(spec_polygon(mm[i]) == Ok::<PolygonV, GeomError>(ps[i]));
                }
            }
        },
        GeometryV::Line(_, _) => {},
        GeometryV::Rect(_, _) => {},
    }
}

/// A list of well-formed two-column matrix payloads is rebuilt
/// exactly by re-encoding the rings read from it.
proof fn lemma_mats_payload_roundtrip(l: Seq<PayloadV>)
    requires
        all_matrices(l),
        forall|i: int| 0 <= i < l.len() ==> payloadv_wf(#[trigger] l[i]),
        cols_ok(payload_mats(l)),
    ensures
        rings_payload(rings_of(payload_mats(l))) == l,
{
    let ms = payload_mats(l);
    assert forall|i: int| 0 <= i < l.len() implies #[trigger] rings_payload(rings_of(ms))[i]
        == l[i] by {
        assert(payloadv_wf(l[i]));
        assert(ms[i] == l[i]->Matrix_0);
        lemma_matv_roundtrip(ms[i]);
        assert(rings_of(ms)[i] == mat_coords(ms[i]));
    }
    assert(rings_payload(rings_of(ms)) =~= l);
}

/// Decoding a well-formed canonical host object and encoding the
/// result rebuilds the identical object.  Canonical means: exactly
/// the three tags every encoded object carries, around a payload the
/// decoder accepts.
pub proof fn lemma_encode_decode(x: SfgV)
    requires
        sfgv_wf(x),
        x.tags.len() == 3,
        x.tags[0] == "XY"@,
        x.tags[2] == "sfg"@,
        spec_decode(x) is Ok,
    ensures
        spec_encode(spec_decode(x)->Ok_0) == Some(x),
{
    let g = spec_decode(x)->Ok_0;
    let k = view_kind(g);
    if x.tags[1] == kind_tag(GeomKind::Point) {
        match x.payload {
            PayloadV::Doubles(d) => {
                assert(x.payload->Doubles_0 =~= seq![d[0], d[1]]);
                assert(spec_encode(g)->Some_0.tags =~= x.tags);
                assert(spec_encode(g)->Some_0 =~= x);
            },
            _ => {},
        }
    } else if x.tags[1] == kind_tag(GeomKind::MultiPoint) {
        match x.payload {
            PayloadV::Matrix(m) => {
                lemma_matv_roundtrip(m);
                assert(spec_encode(g)->Some_0.tags =~= x.tags);
                assert(spec_encode(g)->Some_0 =~= x);
            },
            _ => {},
        }
    } else if x.tags[1] == kind_tag(GeomKind::LineString) {
        match x.payload {
            PayloadV::Matrix(m) => {
                lemma_matv_roundtrip(m);
                assert(spec_encode(g)->Some_0.tags =~= x.tags);
                assert(spec_encode(g)->Some_0 =~= x);
            },
            _ => {},
        }
    } else if x.tags[1] == kind_tag(GeomKind::MultiLineString) {
        match x.payload {
            PayloadV::List(l) => {
                assert(g == GeometryV::MultiLineString(rings_of(payload_mats(l))));
                lemma_mats_payload_roundtrip(l);
                assert(spec_encode(g)->Some_0.tags =~= x.tags);
                assert(spec_encode(g)->Some_0 =~= x);
            },
            _ => {},
        }
    } else if x.tags[1] == kind_tag(GeomKind::Polygon) {
        match x.payload {
            PayloadV::List(l) => {
                let ms = payload_mats(l);
                let p = spec_polygon(ms)->Ok_0;
                assert(g == GeometryV::Polygon(p));
                lemma_poly_rings_spec(ms);
                lemma_mats_payload_roundtrip(l);
                assert(rings_payload(poly_rings(p)) == l);
                assert(spec_encode(g)->Some_0.tags =~= x.tags);
                assert(spec_encode(g)->Some_0 =~= x);
            },
            _ => {},
        }
    } else if x.tags[1] == kind_tag(GeomKind::MultiPolygon) {
        match x.payload {
            PayloadV::List(l) => {
                let mm = multipoly_mats(l);
                let ps = spec_multipolygon(mm)->Ok_0;
                assert(g == GeometryV::MultiPolygon(ps));
                let enc = ps.map(
                    |_i: int, p: PolygonV| PayloadV::List(rings_payload(poly_rings(p))),
                );
                assert forall|i: int| 0 <= i < l.len() implies #[trigger] enc[i] == l[i] by {
                    assert(payloadv_wf(l[i]));
                    assert(l[i] is List && all_matrices(l[i]->List_0));
                    let li = l[i]->List_0;
                    assert(mm[i] == payload_mats(li));
                    assert(mm[i].len() != 0 && cols_ok(mm[i]));
                    assert(ps[i] == spec_polygon(mm[i])->Ok_0);
                    lemma_poly_rings_spec(mm[i]);
                    assert forall|j: int| 0 <= j < li.len() implies payloadv_wf(
                        #[trigger] li[j],
                    ) by {
                        assert(payloadv_wf(l[i]));
                    }
                    lemma_mats_payload_roundtrip(li);
                    assert(rings_payload(poly_rings(ps[i])) == li);
                }
                assert(enc =~= l);
                assert(spec_encode(g)->Some_0.tags =~= x.tags);
                assert(spec_encode(g)->Some_0 =~= x);
            },
            _ => {},
        }
    }
}

/// A geometry encodes to a host object exactly when its variant has
/// a host encoding, and every encoded object is canonical: it carries
/// the three canonical tags around well-formed matrices.
pub proof fn lemma_encode_wf(g: GeometryV)
    ensures
        spec_encode(g) is Some <==> encodable(view_kind(g)),
        spec_encode(g) is Some ==> sfgv_wf(spec_encode(g)->Some_0),
        spec_encode(g) is Some ==> spec_encode(g)->Some_0.tags == canonical_tags(view_kind(g)),
{
    if spec_encode(g) is Some {
        let x = spec_encode(g)->Some_0;
        match g {
            GeometryV::Point(_) => {},
            GeometryV::MultiPoint(cs) => {
                lemma_coords_roundtrip(cs);
            },
            GeometryV::LineString(cs) => {
                lemma_coords_roundtrip(cs);
            },
            GeometryV::MultiLineString(rs) => {
                let l = rings_payload(rs);
                assert forall|i: int| 0 <= i < l.len() implies payloadv_wf(
                    #[trigger] l[i],
                ) by {
                    assert(l[i] == PayloadV::Matrix(coords_matv(rs[i])));
                    lemma_coords_roundtrip(rs[i]);
                }
            },
            GeometryV::Polygon(p) => {
                let rs = poly_rings(p);
                let l = rings_payload(rs);
                assert forall|i: int| 0 <= i < l.len() implies payloadv_wf(
                    #[trigger] l[i],
                ) by {
                    assert(l[i] == PayloadV::Matrix(coords_matv(rs[i])));
                    lemma_coords_roundtrip(rs[i]);
                }
            },
            GeometryV::MultiPolygon(ps) => {
                let l = ps.map(
                    |_i: int, p: PolygonV| PayloadV::List(rings_payload(poly_rings(p))),
                );
                assert forall|i: int| 0 <= i < l.len() implies payloadv_wf(
                    #[trigger] l[i],
                ) by {
                    assert(l[i] == PayloadV::List(rings_payload(poly_rings(ps[i]))));
                    let rs = poly_rings(ps[i]);
                    let li = rings_payload(rs);
                    assert forall|j: int| 0 <= j < li.len() implies payloadv_wf(
                        #[trigger] li[j],
                    ) by {
                        assert(li[j] == PayloadV::Matrix(coords_matv(rs[j])));
                        lemma_coords_roundtrip(rs[j]);
                    }
                }
            },
            GeometryV::Line(_, _) => {},
            GeometryV::Rect(_, _) => {},
        }
    }
}

/// Decoding an N-by-2 matrix preserves row order exactly — row `r`
/// becomes coordinate `r` — and re-encoding the coordinates restores
/// the identical matrix.
pub proof fn lemma_coordinate_order(m: MatrixV)
    requires
        matv_wf(m),
        m.ncol == 2,
    ensures
        mat_coords(m).len() == m.nrow,
        forall|r: int|
            0 <= r < m.nrow ==> mat_coords(m)[r] == (Coord {
                x: m.data[2 * r],
                y: m.data[2 * r + 1],
            }),
        coords_matv(mat_coords(m)) == m,
{
    lemma_matv_roundtrip(m);
}

/// Ring order of a polygon payload: the exterior ring is ring 0 both
/// after decoding and in the re-encoded payload, and interior ring
/// `i` sits at position `i + 1` on both sides.
pub proof fn lemma_ring_order(ms: Seq<MatrixV>)
    requires
        ms.len() >= 1,
        cols_ok(ms),
    ensures
        spec_polygon(ms) is Ok,
        spec_polygon(ms)->Ok_0.exterior == mat_coords(ms[0]),
        spec_polygon(ms)->Ok_0.interiors.len() == ms.len() - 1,
        forall|i: int|
            0 <= i < ms.len() - 1 ==> spec_polygon(ms)->Ok_0.interiors[i] == mat_coords(
                ms[i + 1],
            ),
        poly_rings(spec_polygon(ms)->Ok_0) == rings_of(ms),
{
    let p = spec_polygon(ms)->Ok_0;
    assert forall|i: int| 0 <= i < ms.len() - 1 implies p.interiors[i] == mat_coords(
        ms[i + 1],
    ) by {
        assert(ms.drop_first()[i] == ms[i + 1]);
    }
    lemma_poly_rings_spec(ms);
}

/// The six dispatch tags are pairwise distinct.
proof fn lemma_kind_tags_distinct()
    ensures
        kind_tag(GeomKind::Point) != kind_tag(GeomKind::MultiPoint),
        kind_tag(GeomKind::Point) != kind_tag(GeomKind::LineString),
        kind_tag(GeomKind::Point) != kind_tag(GeomKind::MultiLineString),
        kind_tag(GeomKind::Point) != kind_tag(GeomKind::Polygon),
        kind_tag(GeomKind::Point) != kind_tag(GeomKind::MultiPolygon),
        kind_tag(GeomKind::MultiPoint) != kind_tag(GeomKind::LineString),
        kind_tag(GeomKind::MultiPoint) != kind_tag(GeomKind::MultiLineString),
        kind_tag(GeomKind::MultiPoint) != kind_tag(GeomKind::Polygon),
        kind_tag(GeomKind::MultiPoint) != kind_tag(GeomKind::MultiPolygon),
        kind_tag(GeomKind::LineString) != kind_tag(GeomKind::MultiLineString),
        kind_tag(GeomKind::LineString) != kind_tag(GeomKind::Polygon),
        kind_tag(GeomKind::LineString) != kind_tag(GeomKind::MultiPolygon),
        kind_tag(GeomKind::MultiLineString) != kind_tag(GeomKind::Polygon),
        kind_tag(GeomKind::MultiLineString) != kind_tag(GeomKind::MultiPolygon),
        kind_tag(GeomKind::Polygon) != kind_tag(GeomKind::MultiPolygon),
{
    reveal_strlit("POINT");
    reveal_strlit("MULTIPOINT");
    reveal_strlit("LINESTRING");
    reveal_strlit("MULTILINESTRING");
    reveal_strlit("POLYGON");
    reveal_strlit("MULTIPOLYGON");
    assert("POINT"@.len() == 5);
    assert("MULTIPOINT"@.len() == 10);
    assert("LINESTRING"@.len() == 10);
    assert("MULTILINESTRING"@.len() == 15);
    assert("POLYGON"@.len() == 7);
    assert("MULTIPOLYGON"@.len() == 12);
    assert("MULTIPOINT"@[0] == 'M');
    assert("LINESTRING"@[0] == 'L');
}

} // verus!
