//! Primitive drawing shapes, in millionths of a unit.

use vstd::prelude::*;

use crate::numeric::MAX_ABS_MICROS;
use crate::trig::{rot_x, rot_y, rotate_point};

verus! {

#[derive(Debug, Clone)]
pub struct OutlinePolygon(pub Vec<(i64, i64)>);

#[derive(Debug, Clone, Copy)]
pub struct CircleShape {
    pub position: (i64, i64),
    pub diameter: i64,
}

/// An axis-aligned rectangle rotated counter-clockwise about its
/// center, in millionths of a degree.
#[derive(Debug, Clone, Copy)]
pub struct RectangleShape {
    pub position: (i64, i64),
    pub width: i64,
    pub height: i64,
    pub rotation: i64,
}

#[derive(Debug, Clone, Copy)]
pub struct RoundedRectShape {
    pub position: (i64, i64),
    pub width: i64,
    pub height: i64,
    pub rotation: i64,
    pub corner_radius: i64,
}

#[derive(Debug, Clone)]
pub enum PrimShape {
    Circle(CircleShape),
    Rectangle(RectangleShape),
    RoundedRectShape(RoundedRectShape),
}

#[derive(Debug, Clone)]
pub struct Polygon(pub Vec<(i64, i64)>);

#[derive(Debug, Clone, Copy)]
pub struct Line(pub (i64, i64), pub (i64, i64));

/// Half of `a`, truncated toward zero.
pub open spec fn half_of(a: int) -> int {
    if a >= 0 {
        a / 2
    } else {
        -((-a) / 2)
    }
}

/// The corner of a rectangle of half-extent `(hw, hh)` before rotation:
/// corners are listed from the lower-left counter-clockwise.
pub open spec fn rect_corner(hw: int, hh: int, k: int) -> (int, int) {
    if k == 0 {
        (-hw, -hh)
    } else if k == 1 {
        (hw, -hh)
    } else if k == 2 {
        (hw, hh)
    } else {
        (-hw, hh)
    }
}

impl RectangleShape {
    /// The four corners of the rotated rectangle, lower-left first,
    /// counter-clockwise, each rotated about the center and translated
    /// to the rectangle's position.
    pub fn to_polygon(&self) -> (r: Polygon)
        requires
            -MAX_ABS_MICROS <= self.position.0 <= MAX_ABS_MICROS,
            -MAX_ABS_MICROS <= self.position.1 <= MAX_ABS_MICROS,
            -MAX_ABS_MICROS <= self.width <= MAX_ABS_MICROS,
            -MAX_ABS_MICROS <= self.height <= MAX_ABS_MICROS,
            -MAX_ABS_MICROS <= self.rotation <= MAX_ABS_MICROS,
        ensures
            r.0@.len() == 4,
            forall|k: int|
                0 <= k < 4 ==> #[trigger] r.0@[k] == {
                    let c = rect_corner(half_of(self.width as int), half_of(self.height as int), k);
                    (
                        (self.position.0 + rot_x(c.0, c.1, self.rotation as int)) as i64,
                        (self.position.1 + rot_y(c.0, c.1, self.rotation as int)) as i64,
                    )
                },
    {
        let hw = self.width / 2;
        let hh = self.height / 2;
        proof {
            assert(hw as int == half_of(self.width as int));
            assert(hh as int == half_of(self.height as int));
        }
        let mut corners: Vec<(i64, i64)> = Vec::new();
        let c0 = rotate_point(-hw, -hh, self.rotation);
        corners.push((self.position.0 + c0.0, self.position.1 + c0.1));
        let c1 = rotate_point(hw, -hh, self.rotation);
        corners.push((self.position.0 + c1.0, self.position.1 + c1.1));
        let c2 = rotate_point(hw, hh, self.rotation);
        corners.push((self.position.0 + c2.0, self.position.1 + c2.1));
        let c3 = rotate_point(-hw, hh, self.rotation);
        corners.push((self.position.0 + c3.0, self.position.1 + c3.1));
        Polygon(corners)
    }
}

} // verus!
