//! Encoding geometry values back into tagged host objects.
//!
//! The encoder is the inverse of the decoder on the six supported
//! variants: each encoded object carries the canonical tag sequence
//! and a payload of the exact shape the decoder accepts.  The two
//! model-only variants, `Line` and `Rect`, have no host encoding and
//! encode to nothing rather than failing.

use vstd::prelude::*;
use crate::geom::{
    Coord, Geom, Geometry, GeometryV, GeomKind, kind_name, kind_name_str, LineString, MultiLineString,
    MultiPoint, MultiPolygon, Point, Polygon, PolygonV,
};
use crate::sfg::{
    canonical_tags, encodable, kind_tag_str, lemma_payload_list_view, Matrix, MatrixV, Payload,
    PayloadV, payloads_view, Sfg, SfgV,
};
verus! {

// ---------------------------------------------------------------------
// The encode relation

/// The N-by-2 matrix holding a coordinate sequence, one row per
/// coordinate.
pub open spec fn coords_matv(cs: Seq<Coord>) -> MatrixV {
    MatrixV {
        nrow: cs.len(),
        ncol: 2,
        data: Seq::new(
            2 * cs.len(),
            |k: int| if k % 2 == 0 {
                cs[k / 2].x
            } else {
                cs[k / 2].y
            },
        ),
    }
}

/// The rings of a polygon view, the exterior first.
pub open spec fn poly_rings(p: PolygonV) -> Seq<Seq<Coord>> {
    seq![p.exterior] + p.interiors
}

/// A list payload of one matrix per coordinate ring, in order.
pub open spec fn rings_payload(rs: Seq<Seq<Coord>>) -> Seq<PayloadV> {
    rs.map(|_i: int, r: Seq<Coord>| PayloadV::Matrix(coords_matv(r)))
}

/// What a geometry value encodes to: the canonical tag sequence over a
/// payload of the exact shape the decoder accepts, or nothing for the
/// two variants without a host encoding.
pub open spec fn spec_encode(g: GeometryV) -> Option<SfgV> {
    match g {
        GeometryV::Point(c) => Some(
            SfgV {
                tags: canonical_tags(GeomKind::Point),
                payload: PayloadV::Doubles(seq![c.x, c.y]),
            },
        ),
        GeometryV::MultiPoint(cs) => Some(
            SfgV {
                tags: canonical_tags(GeomKind::MultiPoint),
                payload: PayloadV::Matrix(coords_matv(cs)),
            },
        ),
        GeometryV::LineString(cs) => Some(
            SfgV {
                tags: canonical_tags(GeomKind::LineString),
                payload: PayloadV::Matrix(coords_matv(cs)),
            },
        ),
        GeometryV::MultiLineString(rs) => Some(
            SfgV {
                tags: canonical_tags(GeomKind::MultiLineString),
                payload: PayloadV::List(rings_payload(rs)),
            },
        ),
        GeometryV::Polygon(p) => Some(
            SfgV {
                tags: canonical_tags(GeomKind::Polygon),
                payload: PayloadV::List(rings_payload(poly_rings(p))),
            },
        ),
        GeometryV::MultiPolygon(ps) => Some(
            SfgV {
                tags: canonical_tags(GeomKind::MultiPolygon),
                payload: PayloadV::List(
                    ps.map(|_i: int, p: PolygonV| PayloadV::List(rings_payload(poly_rings(p)))),
                ),
            },
        ),
        GeometryV::Line(_, _) => None,
        GeometryV::Rect(_, _) => None,
    }
}

// ---------------------------------------------------------------------
// Building blocks

/// Build the canonical tag sequence of an encodable variant.
fn canonical_tags_vec(k: GeomKind) -> (t: Vec<String>)
    requires
        encodable(k),
    ensures
        t@.map(|_i: int, s: String| s@) == canonical_tags(k),
{
    let t = vec!["XY".to_owned(), kind_tag_str(k).to_owned(), "sfg".to_owned()];
    proof {
        assert(t@.map(|_i: int, s: String| s@) =~= canonical_tags(k));
    }
    t
}

/// Lay a coordinate sequence out as an N-by-2 matrix, one row per
/// coordinate.
fn coords_to_matrix(cs: &Vec<Coord>) -> (m: Matrix)
    ensures
        m@ == coords_matv(cs@),
        m.wf(),
{
    let mut data: Vec<u64> = Vec::new();
    let n = cs.len();
    for i in iter: 0..n
        invariant
            n == cs@.len(),
            data@.len() == 2 * i,
            forall|j: int|
                0 <= j < i ==> data@[2 * j] == (#[trigger] cs@[j]).x && data@[2 * j + 1]
                    == cs@[j].y,
    {
        data.push(cs[i].x);
        data.push(cs[i].y);
    }
    let m = Matrix { nrow: n, ncol: 2, data };
    proof {
        assert(m@.data =~= coords_matv(cs@).data);
        assert(m@ =~= coords_matv(cs@));
    }
    m
}

/// The rings of a polygon as a list payload of matrices, the exterior
/// first.
fn polygon_payload(x: Polygon) -> (l: Vec<Payload>)
    ensures
        payloads_view(l@) == rings_payload(poly_rings(x@)),
{
    let mut l: Vec<Payload> = Vec::new();
    l.push(Payload::Matrix(coords_to_matrix(&x.exterior.0)));
    let n = x.interiors.len();
    for i in iter: 0..n
        invariant
            n == x.interiors@.len(),
            l@.len() == i + 1,
            payloads_view(l@)[0] == PayloadV::Matrix(coords_matv(x.exterior.0@)),
            forall|j: int|
                0 <= j < i ==> payloads_view(l@)[j + 1] == PayloadV::Matrix(
                    coords_matv((#[trigger] x.interiors@[j]).0@),
                ),
    {
        l.push(Payload::Matrix(coords_to_matrix(&x.interiors[i].0)));
    }
    proof {
        assert(payloads_view(l@) =~= rings_payload(poly_rings(x@)));
    }
    l
}

// ---------------------------------------------------------------------
// Per-variant encoders

/// Encode a point as a pair of numeric scalars.
pub fn from_point(x: Point) -> (r: Sfg)
    ensures
        Some(r@) == spec_encode(GeometryV::Point(x.0)),
{
    let payload = Payload::Doubles(vec![x.0.x, x.0.y]);
    let r = Sfg { tags: canonical_tags_vec(GeomKind::Point), payload };
    proof {
        assert(r@.payload->Doubles_0 =~= seq![x.0.x, x.0.y]);
        assert(r@ =~= spec_encode(GeometryV::Point(x.0))->Some_0);
    }
    r
}

/// Encode a multipoint as an N-by-2 matrix, one row per point.
pub fn from_multipoint(x: MultiPoint) -> (r: Sfg)
    ensures
        Some(r@) == spec_encode(GeometryV::MultiPoint(x@)),
{
    let mut cs: Vec<Coord> = Vec::new();
    let n = x.0.len();
    for i in iter: 0..n
        invariant
            n == x.0@.len(),
            cs@.len() == i,
            forall|j: int| 0 <= j < i ==> cs@[j] == (#[trigger] x.0@[j]).0,
    {
        cs.push(x.0[i].0);
    }
    proof {
        assert(cs@ =~= x@);
    }
    let payload = Payload::Matrix(coords_to_matrix(&cs));
    let r = Sfg { tags: canonical_tags_vec(GeomKind::MultiPoint), payload };
    proof {
        assert(r@ =~= spec_encode(GeometryV::MultiPoint(x@))->Some_0);
    }
    r
}

/// Encode a linestring as an N-by-2 matrix, one row per coordinate.
pub fn from_linestring(x: LineString) -> (r: Sfg)
    ensures
        Some(r@) == spec_encode(GeometryV::LineString(x@)),
{
    let payload = Payload::Matrix(coords_to_matrix(&x.0));
    let r = Sfg { tags: canonical_tags_vec(GeomKind::LineString), payload };
    proof {
        assert(r@ =~= spec_encode(GeometryV::LineString(x@))->Some_0);
    }
    r
}

/// Encode a multilinestring as a list of N-by-2 matrices, one per
/// linestring, in order.
pub fn from_multilinestring(x: MultiLineString) -> (r: Sfg)
    ensures
        Some(r@) == spec_encode(GeometryV::MultiLineString(x@)),
{
    let mut l: Vec<Payload> = Vec::new();
    let n = x.0.len();
    for i in iter: 0..n
        invariant
            n == x.0@.len(),
            l@.len() == i,
            forall|j: int|
                0 <= j < i ==> payloads_view(l@)[j] == PayloadV::Matrix(
                    coords_matv((#[trigger] x.0@[j]).0@),
                ),
    {
        l.push(Payload::Matrix(coords_to_matrix(&x.0[i].0)));
    }
    proof {
        assert(payloads_view(l@) =~= rings_payload(x@));
        lemma_payload_list_view(l);
    }
    let payload = Payload::List(l);
    let r = Sfg { tags: canonical_tags_vec(GeomKind::MultiLineString), payload };
    proof {
        assert(r@ =~= spec_encode(GeometryV::MultiLineString(x@))->Some_0);
    }
    r
}

/// Encode a polygon as a list of N-by-2 matrices, the exterior ring
/// first and the interior rings after it in order.
pub fn from_polygon(x: Polygon) -> (r: Sfg)
    ensures
        Some(r@) == spec_encode(GeometryV::Polygon(x@)),
{
    let ghost xv = x@;
    let l = polygon_payload(x);
    proof {
        lemma_payload_list_view(l);
    }
    let payload = Payload::List(l);
    let r = Sfg { tags: canonical_tags_vec(GeomKind::Polygon), payload };
    proof {
        assert(r@ =~= spec_encode(GeometryV::Polygon(xv))->Some_0);
    }
    r
}

/// Encode a multipolygon as a list of polygon payloads, one per
/// polygon, in order.
pub fn from_multipolygon(x: MultiPolygon) -> (r: Sfg)
    ensures
        Some(r@) == spec_encode(GeometryV::MultiPolygon(x@)),
{
    let ghost xv = x@;
    let mut l: Vec<Payload> = Vec::new();
    for p in iter: x.0.into_iter()
        invariant
            l@.len() == iter.index(),
            forall|j: int|
                0 <= j < l@.len() ==> payloads_view(l@)[j] == PayloadV::List(
                    rings_payload(poly_rings((#[trigger] iter.seq()[j])@)),
                ),
    {
        let inner = polygon_payload(p);
        proof {
            lemma_payload_list_view(inner);
        }
        l.push(Payload::List(inner));
    }
    proof {
        assert(payloads_view(l@) =~= xv.map(
            |_i: int, pv: PolygonV| PayloadV::List(rings_payload(poly_rings(pv))),
        ));
        lemma_payload_list_view(l);
    }
    let payload = Payload::List(l);
    let r = Sfg { tags: canonical_tags_vec(GeomKind::MultiPolygon), payload };
    proof {
        assert(r@ =~= spec_encode(GeometryV::MultiPolygon(xv))->Some_0);
    }
    r
}

// ---------------------------------------------------------------------
// The encoder

/// Encode one geometry value as a tagged host object, or nothing for
/// the two variants without a host encoding.
pub fn to_sfg(x: Geom) -> (r: Option<Sfg>)
    ensures
        match r {
            Some(s) => spec_encode(x@) == Some(s@),
            None => spec_encode(x@) is None,
        },
{
    match x.geom {
        Geometry::Point(p) => Some(from_point(p)),
        Geometry::MultiPoint(mp) => Some(from_multipoint(mp)),
        Geometry::LineString(ls) => Some(from_linestring(ls)),
        Geometry::MultiLineString(mls) => Some(from_multilinestring(mls)),
        Geometry::Polygon(p) => Some(from_polygon(p)),
        Geometry::MultiPolygon(mp) => Some(from_multipolygon(mp)),
        Geometry::Line(_) => None,
        Geometry::Rect(_) => None,
    }
}

/// Encode a sequence of optional geometries, keeping every slot in
/// place: an empty slot stays empty, and a geometry without a host
/// encoding leaves its slot empty as well.
pub fn geoms_to_sfc(x: Vec<Option<Geom>>) -> (r: Vec<Option<Sfg>>)
    ensures
        r@.len() == x@.len(),
        forall|i: int|
            0 <= i < x@.len() ==> match x@[i] {
                Some(g) => match spec_encode(g@) {
                    Some(sv) => (#[trigger] r@[i]) is Some && r@[i]->0@ == sv,
                    None => r@[i] is None,
                },
                None => (#[trigger] r@[i]) is None,
            },
{
    let mut r: Vec<Option<Sfg>> = Vec::new();
    for e in iter: x.into_iter()
        invariant
            r@.len() == iter.index(),
            forall|i: int|
                0 <= i < r@.len() ==> match iter.seq()[i] {
                    Some(g) => match spec_encode(g@) {
                        Some(sv) => (#[trigger] r@[i]) is Some && r@[i]->0@ == sv,
                        None => r@[i] is None,
                    },
                    None => (#[trigger] r@[i]) is None,
                },
    {
        match e {
            Some(g) => r.push(to_sfg(g)),
            None => r.push(None),
        }
    }
    r
}

// ---------------------------------------------------------------------
// Classification

/// Whether every present geometry of a sequence has the same variant.
pub open spec fn homogeneous(x: Seq<Option<Geom>>) -> bool {
    forall|i: int, j: int|
        0 <= i < x.len() && 0 <= j < x.len() && (#[trigger] x[i]) is Some && (#[trigger] x[j])
            is Some ==> x[i]->0.spec_kind() == x[j]->0.spec_kind()
}

/// The class of a sequence of optional geometries: the empty string
/// when nothing is present, the shared variant name when every present
/// geometry agrees, and the collection sentinel otherwise.
pub open spec fn sfc_class(x: Seq<Option<Geom>>) -> Seq<char> {
    if forall|i: int| 0 <= i < x.len() ==> (#[trigger] x[i]) is None {
        Seq::empty()
    } else if homogeneous(x) {
        let w = choose|i: int| 0 <= i < x.len() && (#[trigger] x[i]) is Some;
        kind_name(x[w]->0.spec_kind())
    } else {
        "GEOMETRYCOLLECTION"@
    }
}

/// Name the class of a sequence of optional geometries: the shared
/// variant name when every present geometry agrees, the collection
/// sentinel when two variants meet, and the empty string when no
/// geometry is present at all.
pub fn determine_sfc_class(x: &Vec<Option<Geom>>) -> (r: String)
    ensures
        r@ == sfc_class(x@),
{
    let mut current: Option<GeomKind> = None;
    let n = x.len();
    for idx in iter: 0..n
        invariant
            n == x@.len(),
            match current {
                None => forall|i: int| 0 <= i < idx ==> (#[trigger] x@[i]) is None,
                Some(k) => {
                    &&& exists|i: int| 0 <= i < idx && (#[trigger] x@[i]) is Some
                    &&& forall|i: int|
                        0 <= i < idx && (#[trigger] x@[i]) is Some ==> x@[i]->0.spec_kind() == k
                },
            },
    {
        match &x[idx] {
            Some(g) => {
                let k = g.kind();
                match current {
                    None => {
                        current = Some(k);
                    },
                    Some(k0) => {
                        if k0 != k {
                            proof {
                                let w = choose|i: int|
                                    0 <= i < idx && (#[trigger] x@[i]) is Some;
                                assert(x@[w] is Some && x@[w]->0.spec_kind() == k0);
                                assert(x@[idx as int] is Some && x@[idx as int]->0.spec_kind()
                                    == k);
                                assert(!homogeneous(x@));
                            }
                            return "GEOMETRYCOLLECTION".to_owned();
                        }
                    },
                }
            },
            None => {},
        }
    }
    match current {
        None => {
            let s = String::new();
            proof {
                assert(s@ =~= sfc_class(x@));
            }
            s
        },
        Some(k) => {
            proof {
                assert(homogeneous(x@));
                let w = choose|i: int| 0 <= i < x@.len() && (#[trigger] x@[i]) is Some;
                assert(x@[w]->0.spec_kind() == k);
            }
            kind_name_str(k).to_owned()
        },
    }
}

// ---------------------------------------------------------------------
// Classifier laws

/// A sequence whose present geometries all share one variant
/// classifies as that variant's name.
pub proof fn lemma_sfc_class_homogeneous(x: Seq<Option<Geom>>, k: GeomKind)
    requires
        exists|i: int| 0 <= i < x.len() && (#[trigger] x[i]) is Some,
        forall|i: int|
            0 <= i < x.len() && (#[trigger] x[i]) is Some ==> x[i]->0.spec_kind() == k,
    ensures
        sfc_class(x) == kind_name(k),
{
    let e = choose|i: int| 0 <= i < x.len() && (#[trigger] x[i]) is Some;
    assert(!(forall|i: int| 0 <= i < x.len() ==> (#[trigger] x[i]) is None));
    assert(homogeneous(x));
    let w = choose|i: int| 0 <= i < x.len() && (#[trigger] x[i]) is Some;
    assert(x[w]->0.spec_kind() == k);
}

/// One present geometry of a different variant makes a sequence
/// classify as the collection sentinel.
pub proof fn lemma_sfc_class_mixed(x: Seq<Option<Geom>>, i: int, j: int)
    requires
        0 <= i < x.len(),
        0 <= j < x.len(),
        x[i] is Some,
        x[j] is Some,
        x[i]->0.spec_kind() != x[j]->0.spec_kind(),
    ensures
        sfc_class(x) == "GEOMETRYCOLLECTION"@,
{
    assert(!(forall|k: int| 0 <= k < x.len() ==> (#[trigger] x[k]) is None));
    assert(!homogeneous(x));
}

/// A sequence with no geometry present classifies as the empty
/// string: the class of an all-empty collection is explicitly
/// defined rather than read off a missing first element.
pub proof fn lemma_sfc_class_empty(x: Seq<Option<Geom>>)
    requires
        forall|i: int| 0 <= i < x.len() ==> (#[trigger] x[i]) is None,
    ensures
        sfc_class(x) == Seq::<char>::empty(),
{
}

} // verus!
