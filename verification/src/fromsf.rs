//! Decoding tagged host objects into geometry values.
//!
//! The decoder reads the second class tag of an object — the first is
//! a dimensionality marker it ignores — and interprets the payload
//! according to that tag.  Exactly six tags are supported; any other
//! tag, including a collection tag, is reported as unsupported.  A
//! payload whose shape does not fit its tag is malformed, and a shape
//! fault is reported before any column-count fault.

use vstd::prelude::*;
use crate::constructors::{
    cols_ok, geom_linestring, geom_multilinestring, geom_multipoint, geom_multipolygon,
    geom_point, geom_polygon, mat_coords, mats_view, mats_wf, polys_view, polys_wf, rings_of,
    spec_multipolygon, spec_polygon,
};
use crate::geom::{
    Coord, Geom, Geometry, GeometryV, GeomKind, GeomPntr, pntr_class, to_pntr, view_kind,
};
use crate::vctrs::{determine_geoms_class, geom_class_seq, geoms_class_tag, RsgeoVctr};
use crate::sfg::{
    GeomError, kind_tag, kind_tag_str, Matrix, MatrixV, Payload, PayloadV, payload_view,
    payloads_view, Sfg, SfgV,
};
use crate::text::str_eq;

verus! {

// ---------------------------------------------------------------------
// Well-formed payloads
//
// The host's matrices are rectangular by construction; this predicate
// carries that representation invariant through nested payloads.

/// A well-formed matrix holds one entry per cell.
pub open spec fn matv_wf(m: MatrixV) -> bool {
    m.data.len() == m.nrow * m.ncol
}

/// Every matrix inside a host value holds one entry per cell.
pub open spec fn payloadv_wf(p: PayloadV) -> bool
    decreases p,
{
    match p {
        PayloadV::Null => true,
        PayloadV::Doubles(_) => true,
        PayloadV::Matrix(m) => matv_wf(m),
        PayloadV::List(l) => forall|i: int| 0 <= i < l.len() ==> payloadv_wf(#[trigger] l[i]),
    }
}

/// Every matrix inside a tagged host object holds one entry per cell.
pub open spec fn sfgv_wf(x: SfgV) -> bool {
    payloadv_wf(x.payload)
}

// ---------------------------------------------------------------------
// The decode relation

/// Whether every element of a list payload is a matrix.
pub open spec fn all_matrices(l: Seq<PayloadV>) -> bool {
    forall|i: int| 0 <= i < l.len() ==> (#[trigger] l[i]) is Matrix
}

/// The matrices of a list payload, in order.
pub open spec fn payload_mats(l: Seq<PayloadV>) -> Seq<MatrixV> {
    l.map(|_i: int, p: PayloadV| p->Matrix_0)
}

/// Whether a list payload is a sequence of lists of matrices.
pub open spec fn multipoly_shape_ok(l: Seq<PayloadV>) -> bool {
    forall|i: int| 0 <= i < l.len() ==> (#[trigger] l[i]) is List && all_matrices(l[i]->List_0)
}

/// The nested matrices of a multipolygon payload, in order.
pub open spec fn multipoly_mats(l: Seq<PayloadV>) -> Seq<Seq<MatrixV>> {
    l.map(|_i: int, p: PayloadV| payload_mats(p->List_0))
}

/// What a point payload decodes to: exactly two numeric scalars.
pub open spec fn spec_decode_point(p: PayloadV) -> Result<GeometryV, GeomError> {
    match p {
        PayloadV::Doubles(d) => if d.len() == 2 {
            Ok(GeometryV::Point(Coord { x: d[0], y: d[1] }))
        } else {
            Err(GeomError::MalformedPayload)
        },
        _ => Err(GeomError::MalformedPayload),
    }
}

/// What a multipoint payload decodes to: the rows of one N-by-2
/// matrix, in row order.
pub open spec fn spec_decode_multipoint(p: PayloadV) -> Result<GeometryV, GeomError> {
    match p {
        PayloadV::Matrix(m) => if m.ncol == 2 {
            Ok(GeometryV::MultiPoint(mat_coords(m)))
        } else {
            Err(GeomError::WrongColumns)
        },
        _ => Err(GeomError::MalformedPayload),
    }
}

/// What a linestring payload decodes to: the rows of one N-by-2
/// matrix, in row order.
pub open spec fn spec_decode_linestring(p: PayloadV) -> Result<GeometryV, GeomError> {
    match p {
        PayloadV::Matrix(m) => if m.ncol == 2 {
            Ok(GeometryV::LineString(mat_coords(m)))
        } else {
            Err(GeomError::WrongColumns)
        },
        _ => Err(GeomError::MalformedPayload),
    }
}

/// What a multilinestring payload decodes to: one linestring per
/// matrix of a list, in order.
pub open spec fn spec_decode_multilinestring(p: PayloadV) -> Result<GeometryV, GeomError> {
    match p {
        PayloadV::List(l) => if !all_matrices(l) {
            Err(GeomError::MalformedPayload)
        } else if !cols_ok(payload_mats(l)) {
            Err(GeomError::WrongColumns)
        } else {
            Ok(GeometryV::MultiLineString(rings_of(payload_mats(l))))
        },
        _ => Err(GeomError::MalformedPayload),
    }
}

/// What a polygon payload decodes to: a list of matrices, the exterior
/// ring first.
pub open spec fn spec_decode_polygon(p: PayloadV) -> Result<GeometryV, GeomError> {
    match p {
        PayloadV::List(l) => if !all_matrices(l) {
            Err(GeomError::MalformedPayload)
        } else {
            match spec_polygon(payload_mats(l)) {
                Ok(pv) => Ok(GeometryV::Polygon(pv)),
                Err(e) => Err(e),
            }
        },
        _ => Err(GeomError::MalformedPayload),
    }
}

/// What a multipolygon payload decodes to: a list of polygon payloads,
/// each a list of matrices.
pub open spec fn spec_decode_multipolygon(p: PayloadV) -> Result<GeometryV, GeomError> {
    match p {
        PayloadV::List(l) => if !multipoly_shape_ok(l) {
            Err(GeomError::MalformedPayload)
        } else {
            match spec_multipolygon(multipoly_mats(l)) {
                Ok(ps) => Ok(GeometryV::MultiPolygon(ps)),
                Err(e) => Err(e),
            }
        },
        _ => Err(GeomError::MalformedPayload),
    }
}

/// What a tagged host object decodes to.  The dispatch key is the
/// second tag alone; an object with fewer than two tags, or whose
/// second tag names no supported variant, is unsupported.
pub open spec fn spec_decode(x: SfgV) -> Result<GeometryV, GeomError> {
    if x.tags.len() < 2 {
        Err(GeomError::UnsupportedGeometry)
    } else if x.tags[1] == kind_tag(GeomKind::Point) {
        spec_decode_point(x.payload)
    } else if x.tags[1] == kind_tag(GeomKind::MultiPoint) {
        spec_decode_multipoint(x.payload)
    } else if x.tags[1] == kind_tag(GeomKind::LineString) {
        spec_decode_linestring(x.payload)
    } else if x.tags[1] == kind_tag(GeomKind::MultiLineString) {
        spec_decode_multilinestring(x.payload)
    } else if x.tags[1] == kind_tag(GeomKind::Polygon) {
        spec_decode_polygon(x.payload)
    } else if x.tags[1] == kind_tag(GeomKind::MultiPolygon) {
        spec_decode_multipolygon(x.payload)
    } else {
        Err(GeomError::UnsupportedGeometry)
    }
}

/// A well-formed list payload has well-formed elements.
proof fn lemma_list_wf(l: Vec<Payload>)
    requires
        payloadv_wf(payload_view(Payload::List(l))),
    ensures
        forall|i: int| 0 <= i < l@.len() ==> payloadv_wf(#[trigger] payloads_view(l@)[i]),
        payload_view(Payload::List(l))->List_0 =~= payloads_view(l@),
{
    let lv = payload_view(Payload::List(l))->List_0;
    assert forall|i: int| 0 <= i < l@.len() implies payloadv_wf(
        #[trigger] payloads_view(l@)[i],
    ) by {
        assert(payloadv_wf(lv[i]));
        assert(lv[i] == payload_view(l@[i]));
    }
}

// ---------------------------------------------------------------------
// Payload extraction

/// Take every element of a list payload as a matrix; any other
/// element makes the list malformed.
fn list_to_matrices(l: Vec<Payload>) -> (r: Result<Vec<Matrix>, GeomError>)
    ensures
        match r {
            Ok(ms) => all_matrices(payloads_view(l@)) && mats_view(ms@) == payload_mats(
                payloads_view(l@),
            ),
            Err(e) => !all_matrices(payloads_view(l@)) && e == GeomError::MalformedPayload,
        },
{
    let mut ms: Vec<Matrix> = Vec::new();
    for p in iter: l.into_iter()
        invariant
            ms@.len() == iter.index(),
            forall|i: int| 0 <= i < ms@.len() ==> payload_view(#[trigger] iter.seq()[i]) is Matrix,
            forall|i: int| 0 <= i < ms@.len() ==> (#[trigger] ms@[i])@ == payload_view(
                iter.seq()[i],
            )->Matrix_0,
    {
        match p {
            Payload::Matrix(m) => ms.push(m),
            _ => {
                proof {
                    assert(!(payloads_view(l@)[iter.index() as int] is Matrix));
                }
                return Err(GeomError::MalformedPayload);
            },
        }
    }
    proof {
        assert(mats_view(ms@) =~= payload_mats(payloads_view(l@)));
    }
    Ok(ms)
}

/// Take every element of a list payload as a list of matrices; any
/// other shape makes the list malformed.
fn list_to_polys(l: Vec<Payload>) -> (r: Result<Vec<Vec<Matrix>>, GeomError>)
    ensures
        match r {
            Ok(ps) => multipoly_shape_ok(payloads_view(l@)) && polys_view(ps@) == multipoly_mats(
                payloads_view(l@),
            ),
            Err(e) => !multipoly_shape_ok(payloads_view(l@)) && e == GeomError::MalformedPayload,
        },
{
    let mut ps: Vec<Vec<Matrix>> = Vec::new();
    for p in iter: l.into_iter()
        invariant
            ps@.len() == iter.index(),
            forall|i: int| 0 <= i < ps@.len() ==> (#[trigger] payloads_view(l@)[i]) is List
                && all_matrices(payloads_view(l@)[i]->List_0),
            forall|i: int| 0 <= i < ps@.len() ==> mats_view((#[trigger] ps@[i])@) == payload_mats(
                payloads_view(l@)[i]->List_0,
            ),
            iter.seq() == l@,
    {
        match p {
            Payload::List(inner) => {
                let ms = match list_to_matrices(inner) {
                    Ok(ms) => ms,
                    Err(e) => {
                        proof {
                            assert(payloads_view(l@)[ps@.len() as int]->List_0
                                =~= payloads_view(inner@));
                        }
                        return Err(e);
                    },
                };
                proof {
                    assert(payloads_view(l@)[ps@.len() as int]->List_0 =~= payloads_view(
                        inner@,
                    ));
                }
                ps.push(ms);
            },
            _ => {
                proof {
                    assert(!(payloads_view(l@)[iter.index() as int] is List));
                }
                return Err(GeomError::MalformedPayload);
            },
        }
    }
    proof {
        assert(polys_view(ps@) =~= multipoly_mats(payloads_view(l@)));
    }
    Ok(ps)
}

// ---------------------------------------------------------------------
// The fallible decoder

/// Decode one tagged host object into a geometry value, or report why
/// it cannot be decoded.
pub fn sfg_to_geom(x: Sfg) -> (r: Result<Geom, GeomError>)
    requires
        sfgv_wf(x@),
    ensures
        match r {
            Ok(g) => spec_decode(x@) == Ok::<GeometryV, GeomError>(g@),
            Err(e) => spec_decode(x@) == Err::<GeometryV, GeomError>(e),
        },
{
    if x.tags.len() < 2 {
        return Err(GeomError::UnsupportedGeometry);
    }
    let tag = x.tags[1].as_str();
    if str_eq(tag, kind_tag_str(GeomKind::Point)) {
        match x.payload {
            Payload::Doubles(d) => {
                if d.len() == 2 {
                    Ok(geom_point(d[0], d[1]))
                } else {
                    Err(GeomError::MalformedPayload)
                }
            },
            _ => Err(GeomError::MalformedPayload),
        }
    } else if str_eq(tag, kind_tag_str(GeomKind::MultiPoint)) {
        match x.payload {
            Payload::Matrix(m) => geom_multipoint(&m),
            _ => Err(GeomError::MalformedPayload),
        }
    } else if str_eq(tag, kind_tag_str(GeomKind::LineString)) {
        match x.payload {
            Payload::Matrix(m) => geom_linestring(&m),
            _ => Err(GeomError::MalformedPayload),
        }
    } else if str_eq(tag, kind_tag_str(GeomKind::MultiLineString)) {
        match x.payload {
            Payload::List(l) => {
                proof {
                    lemma_list_wf(l);
                }
                let ms = list_to_matrices(l)?;
                proof {
                    assert forall|i: int| 0 <= i < ms@.len() implies (#[trigger] ms@[i]).wf() by {
                        assert(payloadv_wf(payloads_view(l@)[i]));
                        assert(mats_view(ms@)[i] == payload_mats(payloads_view(l@))[i]);
                    }
                }
                geom_multilinestring(&ms)
            },
            _ => Err(GeomError::MalformedPayload),
        }
    } else if str_eq(tag, kind_tag_str(GeomKind::Polygon)) {
        match x.payload {
            Payload::List(l) => {
                proof {
                    lemma_list_wf(l);
                }
                let ms = list_to_matrices(l)?;
                proof {
                    assert forall|i: int| 0 <= i < ms@.len() implies (#[trigger] ms@[i]).wf() by {
                        assert(payloadv_wf(payloads_view(l@)[i]));
                        assert(mats_view(ms@)[i] == payload_mats(payloads_view(l@))[i]);
                    }
                }
                geom_polygon(&ms)
            },
            _ => Err(GeomError::MalformedPayload),
        }
    } else if str_eq(tag, kind_tag_str(GeomKind::MultiPolygon)) {
        match x.payload {
            Payload::List(l) => {
                proof {
                    lemma_list_wf(l);
                }
                let ps = list_to_polys(l)?;
                proof {
                    assert forall|i: int| 0 <= i < ps@.len() implies mats_wf(
                        (#[trigger] ps@[i])@,
                    ) by {
                        assert(payloadv_wf(payloads_view(l@)[i]));
                        let inner = payloads_view(l@)[i]->List_0;
                        assert(mats_view(ps@[i]@) == payload_mats(inner)) by {
                            assert(polys_view(ps@)[i] == multipoly_mats(payloads_view(l@))[i]);
                        }
                        let psi = ps@[i]@;
                        assert(mats_view(psi).len() == psi.len());
                        assert(payload_mats(inner).len() == inner.len());
                        assert forall|j: int| 0 <= j < psi.len() implies (#[trigger] psi[j]).wf() by {
                            assert(payloadv_wf(inner[j]));
                            assert(mats_view(psi)[j] == payload_mats(inner)[j]);
                        }
                        assert(mats_wf(psi));
                    }
                }
                geom_multipolygon(&ps)
            },
            _ => Err(GeomError::MalformedPayload),
        }
    } else {
        Err(GeomError::UnsupportedGeometry)
    }
}

// ---------------------------------------------------------------------
// Collections

/// Every present object of a sequence has well-formed matrices.
pub open spec fn sfc_wf(x: Seq<Option<Sfg>>) -> bool {
    forall|i: int| 0 <= i < x.len() && (#[trigger] x[i]) is Some ==> sfgv_wf(x[i]->0@)
}

/// What one optional host object decodes to under the lenient rule:
/// an absent object or one that fails to decode leaves the slot empty.
pub open spec fn lenient_slot(e: Option<Sfg>, g: Option<Geom>) -> bool {
    match e {
        Some(s) => match spec_decode(s@) {
            Ok(gv) => g is Some && g->0@ == gv,
            Err(_) => g is None,
        },
        None => g is None,
    }
}

/// Decode a sequence of optional host objects leniently: an absent
/// element or one that fails to decode becomes an empty slot, and
/// every slot keeps its position.
pub fn sfc_to_geoms(x: Vec<Option<Sfg>>) -> (r: Vec<Option<Geom>>)
    requires
        sfc_wf(x@),
    ensures
        r@.len() == x@.len(),
        forall|i: int| 0 <= i < x@.len() ==> lenient_slot(x@[i], #[trigger] r@[i]),
{
    let mut r: Vec<Option<Geom>> = Vec::new();
    for e in iter: x.into_iter()
        invariant
            sfc_wf(iter.seq()),
            r@.len() == iter.index(),
            forall|i: int| 0 <= i < r@.len() ==> lenient_slot(iter.seq()[i], #[trigger] r@[i]),
    {
        match e {
            Some(s) => {
                match sfg_to_geom(s) {
                    Ok(g) => r.push(Some(g)),
                    Err(_) => r.push(None),
                }
            },
            None => r.push(None),
        }
    }
    r
}

/// Decode a sequence of optional host objects leniently, handing back
/// the bare geometry variants rather than the wrapper.
pub fn sfc_to_geometry(x: Vec<Option<Sfg>>) -> (r: Vec<Option<Geometry>>)
    requires
        sfc_wf(x@),
    ensures
        r@.len() == x@.len(),
        forall|i: int|
            0 <= i < x@.len() ==> match x@[i] {
                Some(s) => match spec_decode(s@) {
                    Ok(gv) => (#[trigger] r@[i]) is Some && r@[i]->0@ == gv,
                    Err(_) => r@[i] is None,
                },
                None => (#[trigger] r@[i]) is None,
            },
{
    let mut r: Vec<Option<Geometry>> = Vec::new();
    for e in iter: x.into_iter()
        invariant
            sfc_wf(iter.seq()),
            r@.len() == iter.index(),
            forall|i: int|
                0 <= i < r@.len() ==> match iter.seq()[i] {
                    Some(s) => match spec_decode(s@) {
                        Ok(gv) => (#[trigger] r@[i]) is Some && r@[i]->0@ == gv,
                        Err(_) => r@[i] is None,
                    },
                    None => (#[trigger] r@[i]) is None,
                },
    {
        match e {
            Some(s) => {
                match sfg_to_geom(s) {
                    Ok(g) => r.push(Some(g.geom)),
                    Err(_) => r.push(None),
                }
            },
            None => r.push(None),
        }
    }
    r
}

/// What one optional host object becomes as a host pointer: a decoded
/// geometry is wrapped and tagged with the class of its variant, and
/// anything else leaves the slot empty.
pub open spec fn rsgeo_slot(e: Option<Sfg>, p: Option<GeomPntr>) -> bool {
    match e {
        Some(s) => match spec_decode(s@) {
            Ok(gv) => p is Some && p->0.geom@ == gv && p->0.class@ == pntr_class(view_kind(gv)),
            Err(_) => p is None,
        },
        None => p is None,
    }
}

/// Decode one host object into a classed host pointer, or nothing when
/// the object cannot be decoded.  This is the infallible entry point:
/// callers that accept losing unrecognised input use it, all others
/// use the fallible decoder.
pub fn sfg_to_rsgeo(x: Sfg) -> (r: Option<GeomPntr>)
    requires
        sfgv_wf(x@),
    ensures
        rsgeo_slot(Some(x), r),
{
    match sfg_to_geom(x) {
        Ok(g) => Some(to_pntr(g)),
        Err(_) => None,
    }
}

/// Decode a sequence of optional host objects into a host geometry
/// vector: each slot is decoded leniently, and the vector's class is
/// derived from the classes of the decoded elements.
pub fn sfc_to_rsgeo(x: Vec<Option<Sfg>>) -> (r: RsgeoVctr)
    requires
        sfc_wf(x@),
    ensures
        r.elems@.len() == x@.len(),
        forall|i: int| 0 <= i < x@.len() ==> rsgeo_slot(x@[i], #[trigger] r.elems@[i]),
        r.class@.map(|_i: int, s: String| s@) == geom_class_seq(geoms_class_tag(r.elems@)),
        r.wf(),
{
    let mut elems: Vec<Option<GeomPntr>> = Vec::new();
    for e in iter: x.into_iter()
        invariant
            sfc_wf(iter.seq()),
            elems@.len() == iter.index(),
            forall|i: int|
                0 <= i < elems@.len() ==> rsgeo_slot(iter.seq()[i], #[trigger] elems@[i]),
    {
        match e {
            Some(s) => elems.push(sfg_to_rsgeo(s)),
            None => elems.push(None),
        }
    }
    let class = determine_geoms_class(&elems);
    RsgeoVctr { class, elems }
}

} // verus!
