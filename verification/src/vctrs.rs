//! Class tags for host-side geometry vectors.
//!
//! A decoded collection is handed back to the host as an ordered list
//! of geometry pointers under a four-part class attribute: the vector
//! class derived from the element variant, the library marker, and the
//! two container markers.  An empty slot in the list stands for a
//! missing geometry.

use vstd::prelude::*;
use crate::geom::GeomPntr;
use crate::sfg::GeomError;
use crate::text::{lower_seq, str_eq, str_starts_with, to_lower, to_upper, upper_seq};
use vstd::string::{StrSliceExecFns, StringExecFns};

verus! {

/// A host-side geometry vector: its four-part class attribute over
/// the list of optional geometry pointers.
#[derive(Debug)]
pub struct RsgeoVctr {
    pub class: Vec<String>,
    pub elems: Vec<Option<GeomPntr>>,
}

impl RsgeoVctr {
    /// A well-formed vector carries the full four-part class.
    pub open spec fn wf(&self) -> bool {
        self.class@.len() == 4
    }
}

/// The four-part class attribute derived from a vector class name:
/// the upper-cased name under the vector prefix, then the library,
/// container and base-container markers.
pub open spec fn geom_class_seq(cls: Seq<char>) -> Seq<Seq<char>> {
    seq!["rs_"@ + upper_seq(cls), "rsgeo"@, "vctrs_vctr"@, "list"@]
}

/// Build the four-part class attribute for a vector class name.
pub fn geom_class(cls: &str) -> (r: Vec<String>)
    ensures
        r@.map(|_i: int, s: String| s@) == geom_class_seq(cls@),
        r@.len() == 4,
{
    let upper = to_upper(cls);
    let head = String::from_str("rs_").concat(upper.as_str());
    let r = vec![
        head,
        String::from_str("rsgeo"),
        String::from_str("vctrs_vctr"),
        String::from_str("list"),
    ];
    proof {
        assert(r@.map(|_i: int, s: String| s@) =~= geom_class_seq(cls@));
    }
    r
}

/// Whether every present pointer of a sequence carries the same class
/// tag.
pub open spec fn pntrs_homogeneous(x: Seq<Option<GeomPntr>>) -> bool {
    forall|i: int, j: int|
        0 <= i < x.len() && 0 <= j < x.len() && (#[trigger] x[i]) is Some && (#[trigger] x[j])
            is Some ==> x[i]->0.class@ == x[j]->0.class@
}

/// The vector class name of a sequence of optional pointers: the
/// shared element class when every present pointer agrees, and the
/// collection sentinel otherwise — also for a sequence with nothing
/// present, so that an all-empty collection still has a defined class.
pub open spec fn geoms_class_tag(x: Seq<Option<GeomPntr>>) -> Seq<char> {
    if forall|i: int| 0 <= i < x.len() ==> (#[trigger] x[i]) is None {
        "geometrycollection"@
    } else if pntrs_homogeneous(x) {
        let w = choose|i: int| 0 <= i < x.len() && (#[trigger] x[i]) is Some;
        x[w]->0.class@
    } else {
        "geometrycollection"@
    }
}

/// Derive the four-part class attribute of a list of optional
/// geometry pointers from the classes of its present elements.
pub fn determine_geoms_class(x: &Vec<Option<GeomPntr>>) -> (r: Vec<String>)
    ensures
        r@.map(|_i: int, s: String| s@) == geom_class_seq(geoms_class_tag(x@)),
        r@.len() == 4,
{
    let mut current: Option<&String> = None;
    let n = x.len();
    for idx in iter: 0..n
        invariant
            n == x@.len(),
            match current {
                None => forall|i: int| 0 <= i < idx ==> (#[trigger] x@[i]) is None,
                Some(c) => {
                    &&& exists|i: int| 0 <= i < idx && (#[trigger] x@[i]) is Some
                    &&& forall|i: int|
                        0 <= i < idx && (#[trigger] x@[i]) is Some ==> x@[i]->0.class@ == c@
                },
            },
    {
        match &x[idx] {
            Some(p) => {
                match current {
                    None => {
                        current = Some(&p.class);
                    },
                    Some(c) => {
                        if !str_eq(c.as_str(), p.class.as_str()) {
                            proof {
                                let w = choose|i: int|
                                    0 <= i < idx && (#[trigger] x@[i]) is Some;
                                assert(x@[w] is Some && x@[w]->0.class@ == c@);
                                assert(x@[idx as int] is Some);
                                assert(!pntrs_homogeneous(x@));
                            }
                            return geom_class("geometrycollection");
                        }
                    },
                }
            },
            None => {},
        }
    }
    match current {
        None => geom_class("geometrycollection"),
        Some(c) => {
            proof {
                assert(pntrs_homogeneous(x@));
                let w = choose|i: int| 0 <= i < x@.len() && (#[trigger] x@[i]) is Some;
                assert(x@[w]->0.class@ == c@);
            }
            geom_class(c.as_str())
        },
    }
}

/// Attach the four-part class attribute for `class` to a list of
/// optional geometry pointers.
pub fn as_rsgeo_vctr(x: Vec<Option<GeomPntr>>, class: &str) -> (r: RsgeoVctr)
    ensures
        r.class@.map(|_i: int, s: String| s@) == geom_class_seq(class@),
        r.elems == x,
        r.wf(),
{
    RsgeoVctr { class: geom_class(class), elems: x }
}

/// Whether a class attribute marks a geometry vector: its first tag
/// starts with the vector prefix.
pub open spec fn is_rsgeo_class(cls: Seq<Seq<char>>) -> bool {
    cls[0].len() >= 3 && cls[0].subrange(0, 3) == "rs_"@
}

/// Report whether a possibly absent host vector is a geometry vector;
/// an absent vector yields no answer, mirroring the host's missing
/// logical value.
pub fn is_rsgeo(x: &Option<RsgeoVctr>) -> (r: Option<bool>)
    requires
        match x {
            Some(v) => v.wf(),
            None => true,
        },
    ensures
        match x {
            Some(v) => {
                &&& r is Some
                &&& r->0 == is_rsgeo_class(v.class@.map(|_i: int, s: String| s@))
            },
            None => r is None,
        },
{
    match x {
        None => None,
        Some(v) => {
            let r = str_starts_with(v.class[0].as_str(), "rs_");
            proof {
                reveal_strlit("rs_");
                assert(v.class@.map(|_i: int, s: String| s@)[0] == v.class@[0]@);
            }
            Some(r)
        },
    }
}

/// Check that a host vector is a geometry vector, reporting an error
/// instead of an answer when it is not.
pub fn verify_rsgeo(x: &RsgeoVctr) -> (r: Result<(), GeomError>)
    requires
        x.wf(),
    ensures
        match r {
            Ok(_) => is_rsgeo_class(x.class@.map(|_i: int, s: String| s@)),
            Err(e) => !is_rsgeo_class(x.class@.map(|_i: int, s: String| s@)) && e
                == GeomError::NotRsgeo,
        },
{
    let ok = str_starts_with(x.class[0].as_str(), "rs_");
    proof {
        reveal_strlit("rs_");
        assert(x.class@.map(|_i: int, s: String| s@)[0] == x.class@[0]@);
    }
    if ok {
        Ok(())
    } else {
        Err(GeomError::NotRsgeo)
    }
}

/// Whether a class attribute inherits the library marker.
pub open spec fn inherits_rsgeo(cls: Seq<Seq<char>>) -> bool {
    exists|i: int| 0 <= i < cls.len() && cls[i] == "rsgeo"@
}

/// The vector type named by a geometry vector's class: the first tag
/// with the vector prefix removed, in lower case.
pub fn rsgeo_type(x: &RsgeoVctr) -> (r: Result<String, GeomError>)
    requires
        x.wf(),
    ensures
        ({
            let cls = x.class@.map(|_i: int, s: String| s@);
            match r {
                Ok(t) => inherits_rsgeo(cls) && is_rsgeo_class(cls) && t@ == lower_seq(
                    cls[0].skip(3),
                ),
                Err(e) => (!inherits_rsgeo(cls) || !is_rsgeo_class(cls)) && e
                    == GeomError::NotRsgeo,
            }
        }),
{
    let ghost cls = x.class@.map(|_i: int, s: String| s@);
    let mut inherits = false;
    let n = x.class.len();
    for i in iter: 0..n
        invariant
            n == x.class@.len(),
            inherits == exists|j: int| 0 <= j < i && cls[j] == "rsgeo"@,
            cls == x.class@.map(|_i: int, s: String| s@),
    {
        if str_eq(x.class[i].as_str(), "rsgeo") {
            proof {
                assert(cls[i as int] == "rsgeo"@);
            }
            inherits = true;
        }
    }
    if !inherits {
        return Err(GeomError::NotRsgeo);
    }
    let head = x.class[0].as_str();
    if !str_starts_with(head, "rs_") {
        proof {
            reveal_strlit("rs_");
            assert(!is_rsgeo_class(cls));
        }
        return Err(GeomError::NotRsgeo);
    }
    proof {
        reveal_strlit("rs_");
        assert(is_rsgeo_class(cls));
    }
    let len = head.unicode_len();
    let tail = head.substring_char(3, len);
    let r = to_lower(tail);
    proof {
        assert(tail@ =~= cls[0].skip(3));
    }
    Ok(r)
}

// ---------------------------------------------------------------------
// Classifier laws

/// A list whose present pointers all carry one class tag is classed
/// under that tag.
pub proof fn lemma_geoms_class_homogeneous(x: Seq<Option<GeomPntr>>, cls: Seq<char>)
    requires
        exists|i: int| 0 <= i < x.len() && (#[trigger] x[i]) is Some,
        forall|i: int| 0 <= i < x.len() && (#[trigger] x[i]) is Some ==> x[i]->0.class@ == cls,
    ensures
        geoms_class_tag(x) == cls,
{
    let e = choose|i: int| 0 <= i < x.len() && (#[trigger] x[i]) is Some;
    assert(!(forall|i: int| 0 <= i < x.len() ==> (#[trigger] x[i]) is None));
    assert(pntrs_homogeneous(x));
    let w = choose|i: int| 0 <= i < x.len() && (#[trigger] x[i]) is Some;
    assert(x[w]->0.class@ == cls);
}

/// One present pointer with a different class tag makes the list
/// classify as the collection sentinel.
pub proof fn lemma_geoms_class_mixed(x: Seq<Option<GeomPntr>>, i: int, j: int)
    requires
        0 <= i < x.len(),
        0 <= j < x.len(),
        x[i] is Some,
        x[j] is Some,
        x[i]->0.class@ != x[j]->0.class@,
    ensures
        geoms_class_tag(x) == "geometrycollection"@,
{
    assert(!(forall|k: int| 0 <= k < x.len() ==> (#[trigger] x[k]) is None));
    assert(!pntrs_homogeneous(x));
}

/// A list with nothing present is classed as the collection
/// sentinel: the class of an all-empty list is explicitly defined
/// rather than read off a missing first element.
pub proof fn lemma_geoms_class_empty(x: Seq<Option<GeomPntr>>)
    requires
        forall|i: int| 0 <= i < x.len() ==> (#[trigger] x[i]) is None,
    ensures
        geoms_class_tag(x) == "geometrycollection"@,
{
}

} // verus!
