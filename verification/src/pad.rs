//! Resolved pads: a name, an absolute position, a shape, a rotation and
//! a clearance, all in millionths of a unit or of a degree.

use vstd::prelude::*;

verus! {

/// The drawn footprint of a pad.
#[derive(Debug, Clone, Copy)]
pub enum PadShape {
    Circle { diameter: i64 },
    Rectangle { width: i64, height: i64 },
    RoundRect { width: i64, height: i64, corner_radius: i64 },
}

/// A pad's name: the component reference and pin number joined by a
/// dash, as in `U1-5`.
#[derive(Debug, Clone, PartialEq, Eq, PartialOrd, Ord, Hash)]
pub struct PadName(pub String);

/// A pad placed on the board.
#[derive(Debug)]
pub struct Pad {
    pub name: PadName,
    pub position: (i64, i64),
    pub shape: PadShape,
    pub rotation: i64,
    pub clearance: i64,
}

/// The mathematical value of a pad.
pub struct PadV {
    pub name: Seq<char>,
    pub position: (i64, i64),
    pub shape: PadShape,
    pub rotation: i64,
    pub clearance: i64,
}

impl View for Pad {
    type V = PadV;

    open spec fn view(&self) -> PadV {
        PadV {
            name: self.name.0@,
            position: self.position,
            shape: self.shape,
            rotation: self.rotation,
            clearance: self.clearance,
        }
    }
}

pub open spec fn pads_v(s: Seq<Pad>) -> Seq<PadV> {
    Seq::new(s.len(), |i: int| s[i]@)
}

impl Pad {
    /// An identical copy of this pad.
    pub fn duplicate(&self) -> (r: Pad)
        ensures
            r@ == self@,
    {
        Pad {
            name: PadName(self.name.0.clone()),
            position: self.position,
            shape: self.shape,
            rotation: self.rotation,
            clearance: self.clearance,
        }
    }
}

} // verus!
