//! The host-side object model.
//!
//! The host hands the codec loosely typed values: numeric vectors,
//! N-by-2 numeric matrices, heterogeneous ordered lists, a null
//! marker, and a sequence of class tags on each object.  This module
//! models exactly the part of those objects the codec reads and
//! writes; numeric entries carry the 64-bit pattern of an IEEE double,
//! moved through unchanged.

use vstd::prelude::*;
use crate::geom::GeomKind;

verus! {

/// The single error channel of the codec.
#[derive(Debug, Clone, Copy, PartialEq, Eq, Structural)]
pub enum GeomError {
    /// A coordinate matrix whose column count is not 2.
    WrongColumns,
    /// A payload whose shape does not fit the declared variant.
    MalformedPayload,
    /// A tag sequence that names no supported variant, or is too short
    /// to name one.
    UnsupportedGeometry,
    /// A host vector whose class tags do not mark it as a geometry
    /// vector.
    NotRsgeo,
}

/// A rectangular numeric table with row-major logical indexing.
#[derive(Debug, Clone, PartialEq, Eq)]
pub struct Matrix {
    pub nrow: usize,
    pub ncol: usize,
    pub data: Vec<u64>,
}

/// View of a matrix.
#[verifier::ext_equal]
pub struct MatrixV {
    pub nrow: nat,
    pub ncol: nat,
    pub data: Seq<u64>,
}

impl View for Matrix {
    type V = MatrixV;

    open spec fn view(&self) -> MatrixV {
        MatrixV { nrow: self.nrow as nat, ncol: self.ncol as nat, data: self.data@ }
    }
}

impl Matrix {
    /// A matrix is well formed when it holds one entry per cell.
    pub open spec fn wf(&self) -> bool {
        self.data@.len() == self.nrow * self.ncol
    }

    /// The entry in row `r`, column `c`.
    pub open spec fn spec_get(&self, r: int, c: int) -> u64 {
        self.data@[r * self.ncol + c]
    }

    /// Read the entry in row `r`, column `c`.
    pub fn get(&self, r: usize, c: usize) -> (v: u64)
        requires
            self.wf(),
            r < self.nrow,
            c < self.ncol,
        ensures
            v == self.spec_get(r as int, c as int),
    {
        let n = self.data.len();
        proof {
            assert(r * self.ncol + c < self.nrow * self.ncol) by (nonlinear_arith)
                requires
                    r < self.nrow,
                    c < self.ncol,
            ;
            assert(r * self.ncol + c < n);
        }
        self.data[r * self.ncol + c]
    }
}

/// A host value as the codec sees it: the null marker, a numeric
/// vector, a numeric matrix, or an ordered list of further values.
#[derive(Debug)]
pub enum Payload {
    /// The distinguished "no value" marker.
    Null,
    /// A flat numeric vector.
    Doubles(Vec<u64>),
    /// A numeric matrix.
    Matrix(Matrix),
    /// A heterogeneous ordered list.
    List(Vec<Payload>),
}

/// View of a host value.
#[verifier::ext_equal]
pub enum PayloadV {
    Null,
    Doubles(Seq<u64>),
    Matrix(MatrixV),
    List(Seq<PayloadV>),
}

/// The view of a host value, element by element.
pub open spec fn payload_view(p: Payload) -> PayloadV
    decreases p,
{
    match p {
        Payload::Null => PayloadV::Null,
        Payload::Doubles(v) => PayloadV::Doubles(v@),
        Payload::Matrix(m) => PayloadV::Matrix(m@),
        Payload::List(l) => PayloadV::List(
            Seq::new(
                l@.len(),
                |i: int|
                    if 0 <= i < l@.len() {
                        payload_view(l@[i])
                    } else {
                        PayloadV::Null
                    },
            ),
        ),
    }
}

impl View for Payload {
    type V = PayloadV;

    open spec fn view(&self) -> PayloadV {
        payload_view(*self)
    }
}

/// The views of a sequence of host values.
pub open spec fn payloads_view(s: Seq<Payload>) -> Seq<PayloadV> {
    Seq::new(s.len(), |i: int| payload_view(s[i]))
}

/// The view of a list payload is the list of its elements' views.
pub proof fn lemma_payload_list_view(l: Vec<Payload>)
    ensures
        payload_view(Payload::List(l)) == PayloadV::List(payloads_view(l@)),
{
    assert(payload_view(Payload::List(l))->List_0 =~= payloads_view(l@));
}

/// A tagged host object: an ordered sequence of class tags over a
/// payload.  The decoder dispatches on the second tag alone; the first
/// is a dimensionality marker it never reads.
#[derive(Debug)]
pub struct Sfg {
    pub tags: Vec<String>,
    pub payload: Payload,
}

/// View of a tagged host object.
#[verifier::ext_equal]
pub struct SfgV {
    pub tags: Seq<Seq<char>>,
    pub payload: PayloadV,
}

impl View for Sfg {
    type V = SfgV;

    open spec fn view(&self) -> SfgV {
        SfgV { tags: self.tags@.map(|_i: int, s: String| s@), payload: self.payload@ }
    }
}

/// Decide whether two matrices hold the same table.
pub fn matrix_eq(a: &Matrix, b: &Matrix) -> (r: bool)
    ensures
        r == (a@ == b@),
{
    let r = a.nrow == b.nrow && a.ncol == b.ncol && a.data == b.data;
    proof {
        if a.data@ =~= b.data@ {
            assert(a.data@ == b.data@);
        }
        if r {
            assert(a@ =~= b@);
        }
    }
    r
}

/// Decide whether two host values are structurally identical.
pub fn payload_eq(a: &Payload, b: &Payload) -> (r: bool)
    ensures
        r == (a@ == b@),
    decreases *a,
{
    match (a, b) {
        (Payload::Null, Payload::Null) => true,
        (Payload::Doubles(x), Payload::Doubles(y)) => {
            let r = x == y;
            proof {
                if x@ =~= y@ {
                    assert(x@ == y@);
                }
            }
            r
        },
        (Payload::Matrix(m), Payload::Matrix(n)) => matrix_eq(m, n),
        (Payload::List(x), Payload::List(y)) => {
            if x.len() != y.len() {
                proof {
                    assert(a@->List_0.len() == x@.len());
                    assert(b@->List_0.len() == y@.len());
                }
                return false;
            }
            let n = x.len();
            for i in iter: 0..n
                invariant
                    n == x@.len(),
                    n == y@.len(),
                    a@ == payload_view(*a),
                    *a == Payload::List(*x),
                    *b == Payload::List(*y),
                    forall|j: int|
                        0 <= j < i ==> payload_view(#[trigger] x@[j]) == payload_view(y@[j]),
            {
                if !payload_eq(&x[i], &y[i]) {
                    proof {
                        assert(a@->List_0[i as int] == payload_view(x@[i as int]));
                        assert(b@->List_0[i as int] == payload_view(y@[i as int]));
                    }
                    return false;
                }
            }
            proof {
                assert(a@->List_0 =~= b@->List_0);
            }
            true
        },
        _ => false,
    }
}

/// Decide whether two tagged host objects are structurally
/// identical: same tags, same payload.
pub fn sfg_eq(a: &Sfg, b: &Sfg) -> (r: bool)
    ensures
        r == (a@ == b@),
{
    if a.tags.len() != b.tags.len() {
        proof {
            assert(a@.tags.len() == a.tags@.len());
            assert(b@.tags.len() == b.tags@.len());
        }
        return false;
    }
    let n = a.tags.len();
    for i in iter: 0..n
        invariant
            n == a.tags@.len(),
            n == b.tags@.len(),
            forall|j: int| 0 <= j < i ==> (#[trigger] a.tags@[j])@ == b.tags@[j]@,
    {
        if !crate::text::str_eq(a.tags[i].as_str(), b.tags[i].as_str()) {
            proof {
                assert(a@.tags[i as int] == a.tags@[i as int]@);
                assert(b@.tags[i as int] == b.tags@[i as int]@);
            }
            return false;
        }
    }
    let r = payload_eq(&a.payload, &b.payload);
    proof {
        assert(a@.tags =~= b@.tags);
        if r {
            assert(a@ =~= b@);
        }
    }
    r
}

// ---------------------------------------------------------------------
// Typed payload shapes
//
// One newtype per variant for callers that already know which shape a
// host object carries: the payload of a point is a numeric pair, of a
// multipoint or linestring a matrix, of a multilinestring or polygon a
// list of matrices, and of a multipolygon a list of such lists.

pub struct SfgPoint(pub Vec<u64>);

pub struct SfgMultiPoint(pub Matrix);

pub struct SfgLineString(pub Matrix);

pub struct SfgMultiLineString(pub Vec<Matrix>);

pub struct SfgPolygon(pub Vec<Matrix>);

pub struct SfgMultiPolygon(pub Vec<Vec<Matrix>>);

// ---------------------------------------------------------------------
// Tags

/// The dispatch tag of each variant that has a host encoding; `Line`
/// and `Rect` have none.
pub open spec fn kind_tag(k: GeomKind) -> Seq<char> {
    match k {
        GeomKind::Point => "POINT"@,
        GeomKind::MultiPoint => "MULTIPOINT"@,
        GeomKind::LineString => "LINESTRING"@,
        GeomKind::MultiLineString => "MULTILINESTRING"@,
        GeomKind::Polygon => "POLYGON"@,
        GeomKind::MultiPolygon => "MULTIPOLYGON"@,
        GeomKind::Line => Seq::empty(),
        GeomKind::Rect => Seq::empty(),
    }
}

/// Whether a variant has a host encoding.
pub open spec fn encodable(k: GeomKind) -> bool {
    match k {
        GeomKind::Line => false,
        GeomKind::Rect => false,
        _ => true,
    }
}

/// The full tag sequence every encoded object carries: the
/// dimensionality marker, the variant tag, and the base class.
pub open spec fn canonical_tags(k: GeomKind) -> Seq<Seq<char>> {
    seq!["XY"@, kind_tag(k), "sfg"@]
}

/// The dispatch tag of an encodable variant, as a string slice.
pub fn kind_tag_str(k: GeomKind) -> (r: &'static str)
    requires
        encodable(k),
    ensures
        r@ == kind_tag(k),
{
    match k {
        GeomKind::Point => "POINT",
        GeomKind::MultiPoint => "MULTIPOINT",
        GeomKind::LineString => "LINESTRING",
        GeomKind::MultiLineString => "MULTILINESTRING",
        GeomKind::Polygon => "POLYGON",
        GeomKind::MultiPolygon => "MULTIPOLYGON",
        GeomKind::Line => "",
        GeomKind::Rect => "",
    }
}

} // verus!
