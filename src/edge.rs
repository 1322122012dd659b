use vstd::prelude::*;

use crate::interval::{int_key, key_of_int, Interval};

verus! {

/// What the edge model reads from a wall's normal vector: whether its x
/// component dominates (magnitude above about 0.707), whether that component is
/// positive, and whether its z component is at most zero.
#[derive(Debug, Clone, Copy, PartialEq, Eq, Structural, Hash)]
pub struct WallNormal {
    pub x_dominant: bool,
    pub x_positive: bool,
    pub z_nonpositive: bool,
}

/// The axis along which a wall projects.
#[derive(Debug, Clone, Copy, PartialEq, Eq, Structural, Hash)]
pub enum ProjectionAxis {
    X,
    Z,
}

impl ProjectionAxis {
    pub open spec fn of_wall_spec(normal: WallNormal) -> ProjectionAxis {
        if normal.x_dominant {
            ProjectionAxis::X
        } else {
            ProjectionAxis::Z
        }
    }

    /// Determine the projection axis for a wall given its normal vector.
    pub fn of_wall(normal: &WallNormal) -> (r: Self)
        ensures
            r == Self::of_wall_spec(*normal),
    {
        if normal.x_dominant {
            ProjectionAxis::X
        } else {
            ProjectionAxis::Z
        }
    }

    /// The axis name, `"x"` or `"z"`.
    pub fn name(&self) -> (r: &'static str)
        ensures
            r@ == (match self {
                ProjectionAxis::X => "x"@,
                ProjectionAxis::Z => "z"@,
            }),
    {
        proof {
            reveal_strlit("x");
            reveal_strlit("z");
        }
        match self {
            ProjectionAxis::X => "x",
            ProjectionAxis::Z => "z",
        }
    }
}

/// The orientation of a wall.
///
/// An x projective surface is positive iff `normal.x > 0`.
/// A z projective surface is positive iff `normal.z <= 0`.
#[derive(Debug, Clone, Copy, PartialEq, Eq, Structural, Hash)]
pub enum Orientation {
    /// Accept r if r >= 0.
    Positive,
    /// Accept r if r <= 0.
    Negative,
}

impl Orientation {
    pub open spec fn of_wall_spec(normal: WallNormal) -> Orientation {
        let positive = match ProjectionAxis::of_wall_spec(normal) {
            ProjectionAxis::X => normal.x_positive,
            ProjectionAxis::Z => normal.z_nonpositive,
        };
        if positive {
            Orientation::Positive
        } else {
            Orientation::Negative
        }
    }

    /// Get the orientation for a wall given its normal vector.
    pub fn of_wall(normal: &WallNormal) -> (r: Self)
        ensures
            r == Self::of_wall_spec(*normal),
    {
        match ProjectionAxis::of_wall(normal) {
            ProjectionAxis::X => {
                if normal.x_positive {
                    Orientation::Positive
                } else {
                    Orientation::Negative
                }
            },
            ProjectionAxis::Z => {
                if normal.z_nonpositive {
                    Orientation::Positive
                } else {
                    Orientation::Negative
                }
            },
        }
    }
}

/// A projected point used for edge calculations.
#[derive(Debug, Clone, Copy, PartialEq, Eq, Structural, Hash)]
pub struct ProjectedPoint<T> {
    /// The relevant non-y coordinate.
    ///
    /// Equal to x for z projective surfaces, and z for x projective surfaces.
    pub w: T,
    /// The y coordinate.
    pub y: T,
}

/// The index of the world coordinate that becomes `w` under `axis`.
pub open spec fn w_index(axis: ProjectionAxis) -> int {
    match axis {
        ProjectionAxis::X => 2,
        ProjectionAxis::Z => 0,
    }
}

/// The index of the world coordinate that projection along `axis` drops.
pub open spec fn dropped_index(axis: ProjectionAxis) -> int {
    match axis {
        ProjectionAxis::X => 0,
        ProjectionAxis::Z => 2,
    }
}

/// The 3D point whose projection along `axis` is `p` and whose dropped
/// coordinate is `dropped`.
pub open spec fn reconstruct<T>(p: ProjectedPoint<T>, axis: ProjectionAxis, dropped: T) -> Seq<T> {
    match axis {
        ProjectionAxis::X => seq![dropped, p.y, p.w],
        ProjectionAxis::Z => seq![p.w, p.y, dropped],
    }
}

impl<T: Copy> ProjectedPoint<T> {
    pub open spec fn project_spec(point: Seq<T>, axis: ProjectionAxis) -> ProjectedPoint<T> {
        ProjectedPoint { w: point[w_index(axis)], y: point[1] }
    }

    /// Project the point along the given axis.
    pub fn project(point: [T; 3], axis: ProjectionAxis) -> (r: Self)
        ensures
            r == Self::project_spec(point@, axis),
    {
        match axis {
            ProjectionAxis::X => ProjectedPoint { w: point[2], y: point[1] },
            ProjectionAxis::Z => ProjectedPoint { w: point[0], y: point[1] },
        }
    }
}

/// Projecting a 3D point along either axis and reconstructing it from the
/// projection and the dropped coordinate gives back the original point.
pub proof fn lemma_project_reconstruct<T: Copy>(point: [T; 3], axis: ProjectionAxis)
    ensures
        reconstruct(
            ProjectedPoint::<T>::project_spec(point@, axis),
            axis,
            point@[dropped_index(axis)],
        ) == point@,
{
    let r = reconstruct(
        ProjectedPoint::<T>::project_spec(point@, axis),
        axis,
        point@[dropped_index(axis)],
    );
    assert(r =~= point@);
}

/// An edge of a wall.
///
/// `vertex1`, `vertex2` should be listed in CCW order (i.e. match the game's order).
#[derive(Debug, Clone, Copy, PartialEq, Eq, Structural, Hash)]
pub struct Edge {
    pub projection_axis: ProjectionAxis,
    pub orientation: Orientation,
    pub vertex1: ProjectedPoint<i16>,
    pub vertex2: ProjectedPoint<i16>,
}

pub open spec fn min_i16(a: i16, b: i16) -> i16 {
    if a <= b {
        a
    } else {
        b
    }
}

pub open spec fn max_i16(a: i16, b: i16) -> i16 {
    if a <= b {
        b
    } else {
        a
    }
}

/// The closed range of keys between the floats equal to `a` and `b`.
fn key_range(a: i16, b: i16) -> (r: Interval)
    ensures
        r == (Interval {
            start: int_key(min_i16(a, b) as int) as i32,
            end: int_key(max_i16(a, b) as int) as i32,
            closed: true,
        }),
        r.end < i32::MAX,
{
    let (lo, hi) = if a <= b {
        (a, b)
    } else {
        (b, a)
    };
    Interval { start: key_of_int(lo), end: key_of_int(hi), closed: true }
}

impl Edge {
    pub open spec fn new_spec(vertices: (Seq<i16>, Seq<i16>), normal: WallNormal) -> Edge {
        let axis = ProjectionAxis::of_wall_spec(normal);
        Edge {
            projection_axis: axis,
            orientation: Orientation::of_wall_spec(normal),
            vertex1: ProjectedPoint::<i16>::project_spec(vertices.0, axis),
            vertex2: ProjectedPoint::<i16>::project_spec(vertices.1, axis),
        }
    }

    pub fn new(vertices: ([i16; 3], [i16; 3]), normal: WallNormal) -> (r: Self)
        ensures
            r == Self::new_spec((vertices.0@, vertices.1@), normal),
    {
        let projection_axis = ProjectionAxis::of_wall(&normal);
        let orientation = Orientation::of_wall(&normal);
        Edge {
            projection_axis,
            orientation,
            vertex1: ProjectedPoint::project(vertices.0, projection_axis),
            vertex2: ProjectedPoint::project(vertices.1, projection_axis),
        }
    }

    pub fn is_vertical(&self) -> (r: bool)
        ensures
            r == (self.vertex1.w == self.vertex2.w),
    {
        self.vertex1.w == self.vertex2.w
    }

    /// The closed range of w coordinates the edge spans, as keys.
    pub open spec fn w_range_spec(self) -> Interval {
        Interval {
            start: int_key(min_i16(self.vertex1.w, self.vertex2.w) as int) as i32,
            end: int_key(max_i16(self.vertex1.w, self.vertex2.w) as int) as i32,
            closed: true,
        }
    }

    /// The closed range of y coordinates the edge spans, as keys.
    pub open spec fn y_range_spec(self) -> Interval {
        Interval {
            start: int_key(min_i16(self.vertex1.y, self.vertex2.y) as int) as i32,
            end: int_key(max_i16(self.vertex1.y, self.vertex2.y) as int) as i32,
            closed: true,
        }
    }

    pub fn w_range(&self) -> (r: Interval)
        ensures
            r == self.w_range_spec(),
            r.end < i32::MAX,
    {
        key_range(self.vertex1.w, self.vertex2.w)
    }

    pub fn y_range(&self) -> (r: Interval)
        ensures
            r == self.y_range_spec(),
    {
        key_range(self.vertex1.y, self.vertex2.y)
    }
}

} // verus!
