//! The edge classifier: maps a point of the closed unit square to the
//! boundary segment nearest to it, by the diagonal partition.

use vstd::prelude::*;

use crate::model::bounded;
use crate::model::closest_edge_spec;
use crate::model::edge_seg_model;
use crate::model::in_domain;
use crate::model::Edge;
use crate::model::GeomError;
use crate::model::Point;
use crate::model::Segment;

verus! {

/// The boundary segment nearest to `p`, by the partition of the unit
/// square into four triangles along its diagonals; the exact center is
/// assigned to `Bottom`. A point outside the closed unit square is
/// rejected with `OutOfDomain` rather than classified.
pub fn closest_edge(p: &Point) -> (r: Result<Edge, GeomError>)
    requires
        bounded(p@, crate::kernel::COORD_LIMIT as int),
    ensures
        match r {
            Ok(e) => in_domain(p@) && e == closest_edge_spec(p@),
            Err(err) => err == GeomError::OutOfDomain && !in_domain(p@),
        },
{
    if p.x < 0 || p.x > p.d || p.y < 0 || p.y > p.d {
        return Err(GeomError::OutOfDomain);
    }
    if p.y <= p.x && p.x + p.y < p.d {
        Ok(Edge::Bottom)
    } else if p.y > p.x && p.x + p.y <= p.d {
        Ok(Edge::Left)
    } else if p.y >= p.x && p.x + p.y > p.d {
        Ok(Edge::Top)
    } else if p.y < p.x && p.x + p.y >= p.d {
        Ok(Edge::Right)
    } else {
        Ok(Edge::Bottom)
    }
}

/// The two endpoint corners of a boundary edge of the unit square.
pub fn edge_segment(e: Edge) -> (s: Segment)
    ensures
        s@ == edge_seg_model(e),
{
    match e {
        Edge::Bottom => Segment {
            a: Point { x: 0, y: 0, d: 1 },
            b: Point { x: 1, y: 0, d: 1 },
        },
        Edge::Left => Segment {
            a: Point { x: 0, y: 0, d: 1 },
            b: Point { x: 0, y: 1, d: 1 },
        },
        Edge::Top => Segment {
            a: Point { x: 0, y: 1, d: 1 },
            b: Point { x: 1, y: 1, d: 1 },
        },
        Edge::Right => Segment {
            a: Point { x: 1, y: 0, d: 1 },
            b: Point { x: 1, y: 1, d: 1 },
        },
    }
}

} // verus!
