use vstd::prelude::*;

use crate::edge::{Edge, WallNormal};
use crate::interval::Interval;

verus! {

/// A point of the world's integer vertex grid.
#[derive(Debug, Clone, Copy, PartialEq, Eq, Structural, Hash)]
pub struct Point3 {
    pub x: i16,
    pub y: i16,
    pub z: i16,
}

impl Point3 {
    pub open spec fn of_spec(v: [i16; 3]) -> Point3 {
        Point3 { x: v@[0], y: v@[1], z: v@[2] }
    }

    pub fn of(v: [i16; 3]) -> (r: Point3)
        ensures
            r == Self::of_spec(v),
    {
        Point3 { x: v[0], y: v[1], z: v[2] }
    }
}

/// The two world endpoints of a seam.
#[derive(Debug, Clone, Copy, PartialEq, Eq, Structural, Hash)]
pub struct Endpoints(pub Point3, pub Point3);

/// Two edges of adjacent walls whose shared boundary is checked for gaps and
/// overlaps, with the world endpoints of the first edge, along which the seam
/// is drawn. Its identity is the value of both edges; the endpoints follow from
/// the first wall's edge.
#[derive(Debug, Clone, Copy, PartialEq, Eq, Structural, Hash)]
pub struct Seam {
    pub edge1: Edge,
    pub edge2: Edge,
    pub endpoints: Endpoints,
}

pub open spec fn max_i32(a: i32, b: i32) -> i32 {
    if a <= b {
        b
    } else {
        a
    }
}

pub open spec fn min_i32(a: i32, b: i32) -> i32 {
    if a <= b {
        a
    } else {
        b
    }
}

/// Whether two edges can bound one seam: they project along the same axis,
/// face opposite ways, and their w ranges overlap over more than one point.
pub open spec fn forms_seam(edge1: Edge, edge2: Edge) -> bool {
    &&& edge1.projection_axis == edge2.projection_axis
    &&& edge1.orientation != edge2.orientation
    &&& max_i32(edge1.w_range_spec().start, edge2.w_range_spec().start) < min_i32(
        edge1.w_range_spec().end,
        edge2.w_range_spec().end,
    )
}

impl Seam {
    /// The closed domain of the seam: where both edges' w ranges overlap.
    pub open spec fn w_range_spec(self) -> Interval {
        Interval {
            start: max_i32(self.edge1.w_range_spec().start, self.edge2.w_range_spec().start),
            end: min_i32(self.edge1.w_range_spec().end, self.edge2.w_range_spec().end),
            closed: true,
        }
    }

    pub open spec fn between_spec(
        edge1: ([i16; 3], [i16; 3]),
        normal1: WallNormal,
        edge2: ([i16; 3], [i16; 3]),
        normal2: WallNormal,
    ) -> Option<Seam> {
        let e1 = Edge::new_spec((edge1.0@, edge1.1@), normal1);
        let e2 = Edge::new_spec((edge2.0@, edge2.1@), normal2);
        if forms_seam(e1, e2) {
            Some(
                Seam {
                    edge1: e1,
                    edge2: e2,
                    endpoints: Endpoints(Point3::of_spec(edge1.0), Point3::of_spec(edge1.1)),
                },
            )
        } else {
            None
        }
    }

    /// The seam bounded by the two given wall edges, if they form one.
    pub fn between(
        edge1: ([i16; 3], [i16; 3]),
        normal1: WallNormal,
        edge2: ([i16; 3], [i16; 3]),
        normal2: WallNormal,
    ) -> (r: Option<Seam>)
        ensures
            r == Self::between_spec(edge1, normal1, edge2, normal2),
    {
        let e1 = Edge::new(edge1, normal1);
        let e2 = Edge::new(edge2, normal2);
        if e1.projection_axis != e2.projection_axis || e1.orientation == e2.orientation {
            return None;
        }
        let r1 = e1.w_range();
        let r2 = e2.w_range();
        let start = if r1.start <= r2.start {
            r2.start
        } else {
            r1.start
        };
        let end = if r1.end <= r2.end {
            r1.end
        } else {
            r2.end
        };
        if start < end {
            Some(Seam { edge1: e1, edge2: e2, endpoints: Endpoints(Point3::of(edge1.0), Point3::of(edge1.1)) })
        } else {
            None
        }
    }

    /// The domain over which the seam is swept.
    pub fn w_range(&self) -> (r: Interval)
        ensures
            r == self.w_range_spec(),
            r.end < i32::MAX,
    {
        let r1 = self.edge1.w_range();
        let r2 = self.edge2.w_range();
        let start = if r1.start <= r2.start {
            r2.start
        } else {
            r1.start
        };
        let end = if r1.end <= r2.end {
            r1.end
        } else {
            r2.end
        };
        Interval { start, end, closed: true }
    }
}

} // verus!
