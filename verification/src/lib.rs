//! A verified codec between a loosely typed host object model and a
//! closed set of geometry variants.
//!
//! The decoder reads tagged host objects — numeric pairs, N-by-2
//! matrices and nested lists under class tags — into six geometry
//! variants; the encoder is its inverse on those variants.  A
//! classifier assigns a collection of decoded geometries its shared
//! class, or a collection sentinel when the variants disagree.
//! Coordinate components carry 64-bit numeric patterns that the codec
//! never interprets, so every value moves through unchanged.

use vstd::prelude::*;

pub mod constructors;
pub mod fromsf;
pub mod geom;
pub mod roundtrip;
pub mod sfg;
pub mod text;
pub mod tosf;
pub mod vctrs;

use crate::geom::{Geom, Geometry, GeomPntr};

verus! {

/// Unwrap a sequence of optional host pointers into the geometries
/// they hold; an empty slot stays an empty slot.
pub fn geoms_from_list(x: Vec<Option<GeomPntr>>) -> (r: Vec<Option<Geom>>)
    ensures
        r@.len() == x@.len(),
        forall|i: int|
            0 <= i < x@.len() ==> match x@[i] {
                Some(p) => (#[trigger] r@[i]) == Some(p.geom),
                None => r@[i] is None,
            },
{
    let mut r: Vec<Option<Geom>> = Vec::new();
    for e in iter: x.into_iter()
        invariant
            r@.len() == iter.index(),
            forall|i: int|
                0 <= i < r@.len() ==> match iter.seq()[i] {
                    Some(p) => (#[trigger] r@[i]) == Some(p.geom),
                    None => r@[i] is None,
                },
    {
        match e {
            Some(p) => r.push(Some(p.geom)),
            None => r.push(None),
        }
    }
    r
}

/// Borrow the geometries a sequence of optional host pointers holds;
/// an empty slot stays an empty slot.
pub fn geoms_ref_from_list<'a>(x: &'a Vec<Option<GeomPntr>>) -> (r: Vec<Option<&'a Geom>>)
    ensures
        r@.len() == x@.len(),
        forall|i: int|
            0 <= i < x@.len() ==> match x@[i] {
                Some(p) => (#[trigger] r@[i]) is Some && *r@[i]->0 == p.geom,
                None => r@[i] is None,
            },
{
    let mut r: Vec<Option<&Geom>> = Vec::new();
    let n = x.len();
    for idx in iter: 0..n
        invariant
            n == x@.len(),
            r@.len() == idx,
            forall|i: int|
                0 <= i < r@.len() ==> match x@[i] {
                    Some(p) => (#[trigger] r@[i]) is Some && *r@[i]->0 == p.geom,
                    None => r@[i] is None,
                },
    {
        match &x[idx] {
            Some(p) => r.push(Some(&p.geom)),
            None => r.push(None),
        }
    }
    r
}

/// Unwrap a sequence of optional host pointers into the bare geometry
/// variants they hold; an empty slot stays an empty slot.
pub fn geometry_from_list(x: Vec<Option<GeomPntr>>) -> (r: Vec<Option<Geometry>>)
    ensures
        r@.len() == x@.len(),
        forall|i: int|
            0 <= i < x@.len() ==> match x@[i] {
                Some(p) => (#[trigger] r@[i]) == Some(p.geom.geom),
                None => r@[i] is None,
            },
{
    let mut r: Vec<Option<Geometry>> = Vec::new();
    for e in iter: x.into_iter()
        invariant
            r@.len() == iter.index(),
            forall|i: int|
                0 <= i < r@.len() ==> match iter.seq()[i] {
                    Some(p) => (#[trigger] r@[i]) == Some(p.geom.geom),
                    None => r@[i] is None,
                },
    {
        match e {
            Some(p) => r.push(Some(p.geom.geom)),
            None => r.push(None),
        }
    }
    r
}

} // verus!
