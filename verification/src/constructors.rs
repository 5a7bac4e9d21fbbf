//! Coordinate extraction and per-variant construction.
//!
//! A coordinate matrix is an N-by-2 numeric table: column 0 holds the
//! x values and column 1 the y values, one row per coordinate.  Every
//! constructor rejects a matrix with any other column count instead of
//! truncating or padding it.

use vstd::prelude::*;
use crate::geom::{
    Coord, Geom, Geometry, GeometryV, LineString, MultiLineString, MultiPoint, MultiPolygon,
    Point, Polygon, PolygonV,
};
use crate::sfg::{GeomError, Matrix, MatrixV};

verus! {

/// The coordinates of an N-by-2 matrix, row by row.
pub open spec fn mat_coords(m: MatrixV) -> Seq<Coord> {
    Seq::new(m.nrow, |r: int| Coord { x: m.data[2 * r], y: m.data[2 * r + 1] })
}

/// The rows of an N-by-2 matrix as standalone points.
pub open spec fn mat_points(m: MatrixV) -> Seq<Point> {
    mat_coords(m).map(|_i: int, c: Coord| Point(c))
}

/// Whether every matrix of a sequence has exactly two columns.
pub open spec fn cols_ok(ms: Seq<MatrixV>) -> bool {
    forall|i: int| 0 <= i < ms.len() ==> (#[trigger] ms[i]).ncol == 2
}

/// The coordinate rings of a sequence of N-by-2 matrices, in order.
pub open spec fn rings_of(ms: Seq<MatrixV>) -> Seq<Seq<Coord>> {
    ms.map(|_i: int, m: MatrixV| mat_coords(m))
}

/// The views of a sequence of matrices.
pub open spec fn mats_view(ms: Seq<Matrix>) -> Seq<MatrixV> {
    ms.map(|_i: int, m: Matrix| m@)
}

/// Whether every matrix of a sequence is well formed.
pub open spec fn mats_wf(ms: Seq<Matrix>) -> bool {
    forall|i: int| 0 <= i < ms.len() ==> (#[trigger] ms[i]).wf()
}

/// What a polygon payload decodes to: the first matrix is the exterior
/// ring, the rest are the interior rings in order.  An empty sequence
/// is malformed; a column-count fault is reported only for a sequence
/// that at least has an exterior ring.
pub open spec fn spec_polygon(ms: Seq<MatrixV>) -> Result<PolygonV, GeomError> {
    if ms.len() == 0 {
        Err(GeomError::MalformedPayload)
    } else if !cols_ok(ms) {
        Err(GeomError::WrongColumns)
    } else {
        Ok(PolygonV { exterior: mat_coords(ms[0]), interiors: rings_of(ms.drop_first()) })
    }
}

/// What a multipolygon payload decodes to: one polygon per element, in
/// order.  A shape fault (a polygon without an exterior ring) is
/// reported before any column-count fault.
pub open spec fn spec_multipolygon(ps: Seq<Seq<MatrixV>>) -> Result<Seq<PolygonV>, GeomError> {
    if exists|i: int| 0 <= i < ps.len() && (#[trigger] ps[i]).len() == 0 {
        Err(GeomError::MalformedPayload)
    } else if exists|i: int| 0 <= i < ps.len() && !cols_ok(#[trigger] ps[i]) {
        Err(GeomError::WrongColumns)
    } else {
        Ok(Seq::new(ps.len(), |i: int| spec_polygon(ps[i])->Ok_0))
    }
}

/// Read the coordinates of an N-by-2 matrix in row order.  A matrix
/// with any other column count is rejected as a whole.
pub fn matrix_to_coords(x: &Matrix) -> (r: Result<Vec<Coord>, GeomError>)
    requires
        x.wf(),
    ensures
        match r {
            Ok(cs) => x.ncol == 2 && cs@ == mat_coords(x@),
            Err(e) => x.ncol != 2 && e == GeomError::WrongColumns,
        },
{
    if x.ncol != 2 {
        return Err(GeomError::WrongColumns);
    }
    let mut cs: Vec<Coord> = Vec::new();
    for r in iter: 0..x.nrow
        invariant
            x.wf(),
            x.ncol == 2,
            cs@.len() == r,
            forall|j: int| 0 <= j < r ==> cs@[j] == mat_coords(x@)[j],
    {
        let cx = x.get(r, 0);
        let cy = x.get(r, 1);
        cs.push(Coord { x: cx, y: cy });
    }
    proof {
        assert(cs@ =~= mat_coords(x@));
    }
    Ok(cs)
}

/// Read the rows of an N-by-2 matrix as standalone points, in row
/// order.
pub fn matrix_to_points(x: &Matrix) -> (r: Result<Vec<Point>, GeomError>)
    requires
        x.wf(),
    ensures
        match r {
            Ok(ps) => x.ncol == 2 && ps@ == mat_points(x@),
            Err(e) => x.ncol != 2 && e == GeomError::WrongColumns,
        },
{
    let cs = matrix_to_coords(x)?;
    let mut ps: Vec<Point> = Vec::new();
    for i in iter: 0..cs.len()
        invariant
            cs@ == mat_coords(x@),
            ps@.len() == i,
            forall|j: int| 0 <= j < i ==> ps@[j] == Point(cs@[j]),
    {
        ps.push(Point(cs[i]));
    }
    proof {
        assert(ps@ =~= mat_points(x@));
    }
    Ok(ps)
}

/// Build a point geometry from an x and a y value.
pub fn geom_point(x: u64, y: u64) -> (g: Geom)
    ensures
        g@ == GeometryV::Point(Coord { x, y }),
{
    Geom { geom: Geometry::Point(Point(Coord { x, y })) }
}

/// Build a multipoint geometry from an N-by-2 matrix.
pub fn geom_multipoint(x: &Matrix) -> (r: Result<Geom, GeomError>)
    requires
        x.wf(),
    ensures
        match r {
            Ok(g) => x.ncol == 2 && g@ == GeometryV::MultiPoint(mat_coords(x@)),
            Err(e) => x.ncol != 2 && e == GeomError::WrongColumns,
        },
{
    let ps = matrix_to_points(x)?;
    let g = Geom { geom: Geometry::MultiPoint(MultiPoint(ps)) };
    proof {
        assert(crate::geom::points_view(mat_points(x@)) =~= mat_coords(x@));
    }
    Ok(g)
}

/// Build a linestring geometry from an N-by-2 matrix.
pub fn geom_linestring(x: &Matrix) -> (r: Result<Geom, GeomError>)
    requires
        x.wf(),
    ensures
        match r {
            Ok(g) => x.ncol == 2 && g@ == GeometryV::LineString(mat_coords(x@)),
            Err(e) => x.ncol != 2 && e == GeomError::WrongColumns,
        },
{
    let cs = matrix_to_coords(x)?;
    Ok(Geom { geom: Geometry::LineString(LineString(cs)) })
}

/// Build a multilinestring geometry from a sequence of N-by-2
/// matrices, one linestring per matrix, in order.
pub fn geom_multilinestring(x: &Vec<Matrix>) -> (r: Result<Geom, GeomError>)
    requires
        mats_wf(x@),
    ensures
        match r {
            Ok(g) => cols_ok(mats_view(x@)) && g@ == GeometryV::MultiLineString(
                rings_of(mats_view(x@)),
            ),
            Err(e) => !cols_ok(mats_view(x@)) && e == GeomError::WrongColumns,
        },
{
    let mut lines: Vec<LineString> = Vec::new();
    for i in iter: 0..x.len()
        invariant
            mats_wf(x@),
            lines@.len() == i,
            forall|j: int| 0 <= j < i ==> (#[trigger] mats_view(x@)[j]).ncol == 2,
            forall|j: int| 0 <= j < i ==> (#[trigger] lines@[j]).0@ == mat_coords(x@[j]@),
    {
        let cs = match matrix_to_coords(&x[i]) {
            Ok(cs) => cs,
            Err(e) => {
                proof {
                    assert((mats_view(x@)[i as int]).ncol != 2);
                }
                return Err(e);
            },
        };
        lines.push(LineString(cs));
    }
    let g = Geom { geom: Geometry::MultiLineString(MultiLineString(lines)) };
    proof {
        assert(crate::geom::lines_view(g.geom->MultiLineString_0.0@) =~= rings_of(
            mats_view(x@),
        ));
    }
    Ok(g)
}

/// Build one polygon from a sequence of N-by-2 matrices: the first is
/// the exterior ring, the rest are the interior rings in order.
pub(crate) fn polygon_inner(x: &Vec<Matrix>) -> (r: Result<Polygon, GeomError>)
    requires
        mats_wf(x@),
    ensures
        match r {
            Ok(p) => p@ == spec_polygon(mats_view(x@))->Ok_0 && spec_polygon(
                mats_view(x@),
            ) is Ok,
            Err(e) => spec_polygon(mats_view(x@)) == Err::<PolygonV, GeomError>(e),
        },
{
    if x.len() == 0 {
        return Err(GeomError::MalformedPayload);
    }
    let exterior = match matrix_to_coords(&x[0]) {
        Ok(cs) => LineString(cs),
        Err(e) => {
            proof {
                assert((mats_view(x@)[0]).ncol != 2);
            }
            return Err(e);
        },
    };
    let mut interiors: Vec<LineString> = Vec::new();
    let n = x.len();
    for i in iter: 1..n
        invariant
            mats_wf(x@),
            n == x@.len(),
            1 <= i <= n,
            mats_view(x@)[0].ncol == 2,
            interiors@.len() == i - 1,
            forall|j: int| 1 <= j < i ==> (#[trigger] mats_view(x@)[j]).ncol == 2,
            forall|j: int| 0 <= j < i - 1 ==> (#[trigger] interiors@[j]).0@ == mat_coords(
                x@[j + 1]@,
            ),
    {
        let cs = match matrix_to_coords(&x[i]) {
            Ok(cs) => cs,
            Err(e) => {
                proof {
                    assert((mats_view(x@)[i as int]).ncol != 2);
                }
                return Err(e);
            },
        };
        interiors.push(LineString(cs));
    }
    let p = Polygon { exterior, interiors };
    proof {
        assert(cols_ok(mats_view(x@)));
        assert(p@.interiors =~= rings_of(mats_view(x@).drop_first()));
        assert(p@ =~= spec_polygon(mats_view(x@))->Ok_0);
    }
    Ok(p)
}

/// Build a polygon geometry from a sequence of N-by-2 matrices, the
/// exterior ring first.
pub fn geom_polygon(x: &Vec<Matrix>) -> (r: Result<Geom, GeomError>)
    requires
        mats_wf(x@),
    ensures
        match r {
            Ok(g) => spec_polygon(mats_view(x@)) is Ok && g@ == GeometryV::Polygon(
                spec_polygon(mats_view(x@))->Ok_0,
            ),
            Err(e) => spec_polygon(mats_view(x@)) == Err::<PolygonV, GeomError>(e),
        },
{
    let p = polygon_inner(x)?;
    Ok(Geom { geom: Geometry::Polygon(p) })
}

/// The views of a sequence of polygon payloads.
pub open spec fn polys_view(ps: Seq<Vec<Matrix>>) -> Seq<Seq<MatrixV>> {
    ps.map(|_i: int, v: Vec<Matrix>| mats_view(v@))
}

/// Whether every matrix of every polygon payload is well formed.
pub open spec fn polys_wf(ps: Seq<Vec<Matrix>>) -> bool {
    forall|i: int| 0 <= i < ps.len() ==> mats_wf((#[trigger] ps[i])@)
}

/// Build a multipolygon geometry from a sequence of polygon payloads,
/// one polygon per element, in order.
pub fn geom_multipolygon(x: &Vec<Vec<Matrix>>) -> (r: Result<Geom, GeomError>)
    requires
        polys_wf(x@),
    ensures
        match r {
            Ok(g) => spec_multipolygon(polys_view(x@)) is Ok && g@ == GeometryV::MultiPolygon(
                spec_multipolygon(polys_view(x@))->Ok_0,
            ),
            Err(e) => spec_multipolygon(polys_view(x@)) == Err::<Seq<PolygonV>, GeomError>(e),
        },
{
    for i in iter: 0..x.len()
        invariant
            forall|j: int| 0 <= j < i ==> (#[trigger] polys_view(x@)[j]).len() != 0,
    {
        if x[i].len() == 0 {
            proof {
                assert((polys_view(x@)[i as int]).len() == 0);
            }
            return Err(GeomError::MalformedPayload);
        }
    }
    let mut polys: Vec<Polygon> = Vec::new();
    for i in iter: 0..x.len()
        invariant
            polys_wf(x@),
            forall|j: int| 0 <= j < x@.len() ==> (#[trigger] polys_view(x@)[j]).len() != 0,
            polys@.len() == i,
            forall|j: int| 0 <= j < i ==> spec_polygon(#[trigger] polys_view(x@)[j]) is Ok,
            forall|j: int| 0 <= j < i ==> (#[trigger] polys@[j])@ == spec_polygon(
                polys_view(x@)[j],
            )->Ok_0,
    {
        let p = match polygon_inner(&x[i]) {
            Ok(p) => p,
            Err(e) => {
                proof {
                    assert(!cols_ok(polys_view(x@)[i as int]));
                }
                return Err(e);
            },
        };
        polys.push(p);
    }
    let g = Geom { geom: Geometry::MultiPolygon(MultiPolygon(polys)) };
    proof {
        assert(spec_multipolygon(polys_view(x@)) is Ok);
        assert(crate::geom::polygons_view(g.geom->MultiPolygon_0.0@) =~= spec_multipolygon(
            polys_view(x@),
        )->Ok_0);
    }
    Ok(g)
}

} // verus!
