//! The in-memory geometry model.
//!
//! `Geom` wraps a single `Geometry` variant and is the one value the
//! decoder produces and the encoder consumes.  Coordinate components
//! carry the 64-bit pattern of an IEEE double; the codec moves these
//! patterns through unchanged and never interprets them numerically,
//! so nothing here depends on floating-point arithmetic.

use vstd::prelude::*;

verus! {

/// One coordinate: an ordered (x, y) pair of 64-bit numeric patterns.
#[derive(Debug, Clone, Copy, PartialEq, Eq, Structural)]
pub struct Coord {
    pub x: u64,
    pub y: u64,
}

/// A single standalone point.
#[derive(Debug, Clone, Copy, PartialEq, Eq, Structural)]
pub struct Point(pub Coord);

/// An ordered sequence of points; may be empty.
#[derive(Debug, Clone, PartialEq, Eq)]
pub struct MultiPoint(pub Vec<Point>);

/// An ordered sequence of coordinates; no minimum length is enforced.
#[derive(Debug, Clone, PartialEq, Eq)]
pub struct LineString(pub Vec<Coord>);

/// An ordered sequence of line strings.
#[derive(Debug, Clone, PartialEq, Eq)]
pub struct MultiLineString(pub Vec<LineString>);

/// One exterior ring followed by the interior rings in order.  Rings
/// are not required to be closed and are never validated here.
#[derive(Debug, Clone, PartialEq, Eq)]
pub struct Polygon {
    pub exterior: LineString,
    pub interiors: Vec<LineString>,
}

/// An ordered sequence of polygons.
#[derive(Debug, Clone, PartialEq, Eq)]
pub struct MultiPolygon(pub Vec<Polygon>);

/// A straight segment between two coordinates.  Not produced by the
/// decoder; it exists so the model is a superset of what decoding can
/// yield, and it has no host encoding.
#[derive(Debug, Clone, Copy, PartialEq, Eq, Structural)]
pub struct Line {
    pub start: Coord,
    pub end: Coord,
}

/// An axis-aligned rectangle given by two corners.  Like `Line` it has
/// no host encoding.
#[derive(Debug, Clone, Copy, PartialEq, Eq, Structural)]
pub struct Rect {
    pub min: Coord,
    pub max: Coord,
}

/// The closed set of geometry variants the model can hold.  The first
/// six have a host encoding; `Line` and `Rect` do not.
#[derive(Debug, Clone, PartialEq, Eq)]
pub enum Geometry {
    Point(Point),
    MultiPoint(MultiPoint),
    LineString(LineString),
    MultiLineString(MultiLineString),
    Polygon(Polygon),
    MultiPolygon(MultiPolygon),
    Line(Line),
    Rect(Rect),
}

/// The wrapper exchanged between the decoder and the encoder: exactly
/// one `Geometry` variant, owned outright.
#[derive(Debug, Clone, PartialEq, Eq)]
pub struct Geom {
    pub geom: Geometry,
}

/// The variant a geometry value belongs to.
#[derive(Debug, Clone, Copy, PartialEq, Eq, Structural)]
pub enum GeomKind {
    Point,
    MultiPoint,
    LineString,
    MultiLineString,
    Polygon,
    MultiPolygon,
    Line,
    Rect,
}

// ---------------------------------------------------------------------
// Mathematical views
//
// Contracts speak about these `Seq`-based shapes rather than the `Vec`s
// of the executable model, so that two values built independently can be
// proved equal.

/// View of a polygon: the exterior ring and the interior rings in order.
#[verifier::ext_equal]
pub struct PolygonV {
    pub exterior: Seq<Coord>,
    pub interiors: Seq<Seq<Coord>>,
}

/// View of a geometry value.
#[verifier::ext_equal]
pub enum GeometryV {
    Point(Coord),
    MultiPoint(Seq<Coord>),
    LineString(Seq<Coord>),
    MultiLineString(Seq<Seq<Coord>>),
    Polygon(PolygonV),
    MultiPolygon(Seq<PolygonV>),
    Line(Coord, Coord),
    Rect(Coord, Coord),
}

/// The coordinates of a sequence of points, in order.
pub open spec fn points_view(v: Seq<Point>) -> Seq<Coord> {
    v.map(|_i: int, p: Point| p.0)
}

/// The coordinate rows of a sequence of line strings, in order.
pub open spec fn lines_view(v: Seq<LineString>) -> Seq<Seq<Coord>> {
    v.map(|_i: int, l: LineString| l.0@)
}

pub open spec fn polygon_view(p: Polygon) -> PolygonV {
    PolygonV { exterior: p.exterior.0@, interiors: lines_view(p.interiors@) }
}

pub open spec fn polygons_view(v: Seq<Polygon>) -> Seq<PolygonV> {
    v.map(|_i: int, p: Polygon| polygon_view(p))
}

impl View for LineString {
    type V = Seq<Coord>;

    open spec fn view(&self) -> Seq<Coord> {
        self.0@
    }
}

impl View for MultiPoint {
    type V = Seq<Coord>;

    open spec fn view(&self) -> Seq<Coord> {
        points_view(self.0@)
    }
}

impl View for MultiLineString {
    type V = Seq<Seq<Coord>>;

    open spec fn view(&self) -> Seq<Seq<Coord>> {
        lines_view(self.0@)
    }
}

impl View for Polygon {
    type V = PolygonV;

    open spec fn view(&self) -> PolygonV {
        polygon_view(*self)
    }
}

impl View for MultiPolygon {
    type V = Seq<PolygonV>;

    open spec fn view(&self) -> Seq<PolygonV> {
        polygons_view(self.0@)
    }
}

impl View for Geometry {
    type V = GeometryV;

    open spec fn view(&self) -> GeometryV {
        match *self {
            Geometry::Point(p) => GeometryV::Point(p.0),
            Geometry::MultiPoint(mp) => GeometryV::MultiPoint(mp@),
            Geometry::LineString(ls) => GeometryV::LineString(ls@),
            Geometry::MultiLineString(mls) => GeometryV::MultiLineString(mls@),
            Geometry::Polygon(p) => GeometryV::Polygon(p@),
            Geometry::MultiPolygon(mp) => GeometryV::MultiPolygon(mp@),
            Geometry::Line(l) => GeometryV::Line(l.start, l.end),
            Geometry::Rect(r) => GeometryV::Rect(r.min, r.max),
        }
    }
}

impl View for Geom {
    type V = GeometryV;

    open spec fn view(&self) -> GeometryV {
        self.geom@
    }
}

/// The variant of a geometry view.
pub open spec fn view_kind(v: GeometryV) -> GeomKind {
    match v {
        GeometryV::Point(_) => GeomKind::Point,
        GeometryV::MultiPoint(_) => GeomKind::MultiPoint,
        GeometryV::LineString(_) => GeomKind::LineString,
        GeometryV::MultiLineString(_) => GeomKind::MultiLineString,
        GeometryV::Polygon(_) => GeomKind::Polygon,
        GeometryV::MultiPolygon(_) => GeomKind::MultiPolygon,
        GeometryV::Line(_, _) => GeomKind::Line,
        GeometryV::Rect(_, _) => GeomKind::Rect,
    }
}

impl Geometry {
    /// The variant this value belongs to.
    pub open spec fn spec_kind(&self) -> GeomKind {
        view_kind(self@)
    }

    /// Report the variant of a geometry value.
    pub fn kind(&self) -> (k: GeomKind)
        ensures
            k == self.spec_kind(),
    {
        match self {
            Geometry::Point(_) => GeomKind::Point,
            Geometry::MultiPoint(_) => GeomKind::MultiPoint,
            Geometry::LineString(_) => GeomKind::LineString,
            Geometry::MultiLineString(_) => GeomKind::MultiLineString,
            Geometry::Polygon(_) => GeomKind::Polygon,
            Geometry::MultiPolygon(_) => GeomKind::MultiPolygon,
            Geometry::Line(_) => GeomKind::Line,
            Geometry::Rect(_) => GeomKind::Rect,
        }
    }
}

impl Geom {
    /// The variant of the wrapped geometry.
    pub open spec fn spec_kind(&self) -> GeomKind {
        self.geom.spec_kind()
    }

    /// Report the variant of the wrapped geometry.
    pub fn kind(&self) -> (k: GeomKind)
        ensures
            k == self.spec_kind(),
    {
        self.geom.kind()
    }
}

// ---------------------------------------------------------------------
// Conversions into and out of the wrapper

impl From<Geometry> for Geom {
    fn from(geo: Geometry) -> Self {
        Geom { geom: geo }
    }
}

impl vstd::std_specs::convert::FromSpecImpl<Geometry> for Geom {
    open spec fn obeys_from_spec() -> bool {
        true
    }

    open spec fn from_spec(geo: Geometry) -> Geom {
        Geom { geom: geo }
    }
}

impl From<Point> for Geom {
    fn from(pnt: Point) -> Self {
        Geom { geom: Geometry::Point(pnt) }
    }
}

impl vstd::std_specs::convert::FromSpecImpl<Point> for Geom {
    open spec fn obeys_from_spec() -> bool {
        true
    }

    open spec fn from_spec(pnt: Point) -> Geom {
        Geom { geom: Geometry::Point(pnt) }
    }
}

impl From<MultiPoint> for Geom {
    fn from(pnt: MultiPoint) -> Self {
        Geom { geom: Geometry::MultiPoint(pnt) }
    }
}

impl vstd::std_specs::convert::FromSpecImpl<MultiPoint> for Geom {
    open spec fn obeys_from_spec() -> bool {
        true
    }

    open spec fn from_spec(pnt: MultiPoint) -> Geom {
        Geom { geom: Geometry::MultiPoint(pnt) }
    }
}

impl From<LineString> for Geom {
    fn from(lns: LineString) -> Self {
        Geom { geom: Geometry::LineString(lns) }
    }
}

impl vstd::std_specs::convert::FromSpecImpl<LineString> for Geom {
    open spec fn obeys_from_spec() -> bool {
        true
    }

    open spec fn from_spec(lns: LineString) -> Geom {
        Geom { geom: Geometry::LineString(lns) }
    }
}

impl From<MultiLineString> for Geom {
    fn from(lns: MultiLineString) -> Self {
        Geom { geom: Geometry::MultiLineString(lns) }
    }
}

impl vstd::std_specs::convert::FromSpecImpl<MultiLineString> for Geom {
    open spec fn obeys_from_spec() -> bool {
        true
    }

    open spec fn from_spec(lns: MultiLineString) -> Geom {
        Geom { geom: Geometry::MultiLineString(lns) }
    }
}

impl From<Polygon> for Geom {
    fn from(poly: Polygon) -> Self {
        Geom { geom: Geometry::Polygon(poly) }
    }
}

impl vstd::std_specs::convert::FromSpecImpl<Polygon> for Geom {
    open spec fn obeys_from_spec() -> bool {
        true
    }

    open spec fn from_spec(poly: Polygon) -> Geom {
        Geom { geom: Geometry::Polygon(poly) }
    }
}

impl From<MultiPolygon> for Geom {
    fn from(poly: MultiPolygon) -> Self {
        Geom { geom: Geometry::MultiPolygon(poly) }
    }
}

impl vstd::std_specs::convert::FromSpecImpl<MultiPolygon> for Geom {
    open spec fn obeys_from_spec() -> bool {
        true
    }

    open spec fn from_spec(poly: MultiPolygon) -> Geom {
        Geom { geom: Geometry::MultiPolygon(poly) }
    }
}

impl From<Line> for Geom {
    fn from(l: Line) -> Self {
        Geom { geom: Geometry::Line(l) }
    }
}

impl vstd::std_specs::convert::FromSpecImpl<Line> for Geom {
    open spec fn obeys_from_spec() -> bool {
        true
    }

    open spec fn from_spec(l: Line) -> Geom {
        Geom { geom: Geometry::Line(l) }
    }
}

impl From<Rect> for Geom {
    fn from(r: Rect) -> Self {
        Geom { geom: Geometry::Rect(r) }
    }
}

impl vstd::std_specs::convert::FromSpecImpl<Rect> for Geom {
    open spec fn obeys_from_spec() -> bool {
        true
    }

    open spec fn from_spec(r: Rect) -> Geom {
        Geom { geom: Geometry::Rect(r) }
    }
}

impl Geom {
    /// Take the wrapped point out; the wrapper must hold one.
    pub fn into_point(self) -> (r: Point)
        requires
            self.geom is Point,
        ensures
            self.geom == Geometry::Point(r),
    {
        match self.geom {
            Geometry::Point(p) => p,
            _ => vstd::pervasive::unreached(),
        }
    }

    /// Take the wrapped linestring out; the wrapper must hold one.
    pub fn into_linestring(self) -> (r: LineString)
        requires
            self.geom is LineString,
        ensures
            self.geom == Geometry::LineString(r),
    {
        match self.geom {
            Geometry::LineString(l) => l,
            _ => vstd::pervasive::unreached(),
        }
    }

    /// Take the wrapped polygon out; the wrapper must hold one.
    pub fn into_polygon(self) -> (r: Polygon)
        requires
            self.geom is Polygon,
        ensures
            self.geom == Geometry::Polygon(r),
    {
        match self.geom {
            Geometry::Polygon(p) => p,
            _ => vstd::pervasive::unreached(),
        }
    }
}

// ---------------------------------------------------------------------
// Variant names

/// The name of each variant, as written in the model itself.
pub open spec fn kind_name(k: GeomKind) -> Seq<char> {
    match k {
        GeomKind::Point => "Point"@,
        GeomKind::MultiPoint => "MultiPoint"@,
        GeomKind::LineString => "LineString"@,
        GeomKind::MultiLineString => "MultiLineString"@,
        GeomKind::Polygon => "Polygon"@,
        GeomKind::MultiPolygon => "MultiPolygon"@,
        GeomKind::Line => "Line"@,
        GeomKind::Rect => "Rect"@,
    }
}

/// The name of a variant, as a string slice.
pub fn kind_name_str(k: GeomKind) -> (r: &'static str)
    ensures
        r@ == kind_name(k),
{
    match k {
        GeomKind::Point => "Point",
        GeomKind::MultiPoint => "MultiPoint",
        GeomKind::LineString => "LineString",
        GeomKind::MultiLineString => "MultiLineString",
        GeomKind::Polygon => "Polygon",
        GeomKind::MultiPolygon => "MultiPolygon",
        GeomKind::Line => "Line",
        GeomKind::Rect => "Rect",
    }
}

/// The lower-case class tag a decoded geometry carries on the host
/// side.  The two variants without a host encoding carry an empty tag.
pub open spec fn pntr_class(k: GeomKind) -> Seq<char> {
    match k {
        GeomKind::Point => "point"@,
        GeomKind::MultiPoint => "multipoint"@,
        GeomKind::LineString => "linestring"@,
        GeomKind::MultiLineString => "multilinestring"@,
        GeomKind::Polygon => "polygon"@,
        GeomKind::MultiPolygon => "multipolygon"@,
        GeomKind::Line => ""@,
        GeomKind::Rect => ""@,
    }
}

/// The lower-case class tag of a variant, as a string slice.
pub fn pntr_class_str(k: GeomKind) -> (r: &'static str)
    ensures
        r@ == pntr_class(k),
{
    match k {
        GeomKind::Point => "point",
        GeomKind::MultiPoint => "multipoint",
        GeomKind::LineString => "linestring",
        GeomKind::MultiLineString => "multilinestring",
        GeomKind::Polygon => "polygon",
        GeomKind::MultiPolygon => "multipolygon",
        GeomKind::Line => "",
        GeomKind::Rect => "",
    }
}

// ---------------------------------------------------------------------
// Host pointers

/// A geometry as the host holds it after decoding: the value itself
/// together with the class tag that names its variant.
#[derive(Debug)]
pub struct GeomPntr {
    pub class: String,
    pub geom: Geom,
}

/// Wrap a geometry for the host, tagging it with the class of its
/// variant.
pub fn to_pntr(x: Geom) -> (r: GeomPntr)
    ensures
        r.geom == x,
        r.class@ == pntr_class(x.spec_kind()),
{
    let cls = pntr_class_str(x.kind());
    GeomPntr { class: cls.to_owned(), geom: x }
}

/// Unwrap a sequence of host pointers back into the geometries they
/// hold, in order.
pub fn from_list(x: Vec<GeomPntr>) -> (r: Vec<Geom>)
    ensures
        r@.len() == x@.len(),
        forall|i: int| 0 <= i < x@.len() ==> r@[i] == (#[trigger] x@[i]).geom,
{
    let mut r: Vec<Geom> = Vec::new();
    for p in iter: x.into_iter()
        invariant
            r@.len() == iter.index(),
            forall|i: int| 0 <= i < r@.len() ==> r@[i] == (#[trigger] iter.seq()[i]).geom,
    {
        r.push(p.geom);
    }
    r
}

} // verus!
