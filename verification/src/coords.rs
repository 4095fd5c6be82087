//! A very simple integer coordinate system with the basic arithmetic the
//! drawing engine needs.  A `Coord` is either image-relative or
//! device-absolute; translation between the two spaces happens exactly once
//! per drawing operation.

use vstd::prelude::*;

verus! {

/// An (x, y) pair in whole pixels.
#[derive(Clone, Copy, Debug, PartialEq, Eq, Structural)]
pub struct Coord {
    pub x: i32,
    pub y: i32,
}

impl Coord {
    pub fn new(x: i32, y: i32) -> (c: Coord)
        ensures
            c == (Coord { x, y }),
    {
        Coord { x, y }
    }

    /// Builds the coordinate list for a shape out of plain pairs.
    pub fn from_slice(coords: &Vec<(i32, i32)>) -> (v: Vec<Coord>)
        ensures
            v@.len() == coords@.len(),
            forall|i: int|
                0 <= i < coords@.len() ==> v@[i] == (Coord {
                    x: coords@[i].0,
                    y: coords@[i].1,
                }),
    {
        let mut coord_vec: Vec<Coord> = Vec::new();
        let mut i: usize = 0;
        while i < coords.len()
            invariant
                i <= coords@.len(),
                coord_vec@.len() == i,
                forall|j: int|
                    0 <= j < i ==> coord_vec@[j] == (Coord {
                        x: coords@[j].0,
                        y: coords@[j].1,
                    }),
            decreases coords@.len() - i,
        {
            coord_vec.push(Coord::new(coords[i].0, coords[i].1));
            i = i + 1;
        }
        coord_vec
    }

    /// Component-wise sum, used to translate image-relative points by a
    /// device-absolute corner.
    pub fn add(&self, rhs: &Coord) -> (c: Coord)
        requires
            i32::MIN <= self.x + rhs.x <= i32::MAX,
            i32::MIN <= self.y + rhs.y <= i32::MAX,
        ensures
            c.x == self.x + rhs.x,
            c.y == self.y + rhs.y,
    {
        Coord { x: self.x + rhs.x, y: self.y + rhs.y }
    }

    /// Component-wise difference.
    pub fn sub(&self, rhs: &Coord) -> (c: Coord)
        requires
            i32::MIN <= self.x - rhs.x <= i32::MAX,
            i32::MIN <= self.y - rhs.y <= i32::MAX,
        ensures
            c.x == self.x - rhs.x,
            c.y == self.y - rhs.y,
    {
        Coord { x: self.x - rhs.x, y: self.y - rhs.y }
    }

    /// Scalar multiple.
    pub fn mul(&self, rhs: i32) -> (c: Coord)
        requires
            i32::MIN <= self.x * rhs <= i32::MAX,
            i32::MIN <= self.y * rhs <= i32::MAX,
        ensures
            c.x == self.x * rhs,
            c.y == self.y * rhs,
    {
        Coord { x: self.x * rhs, y: self.y * rhs }
    }
}

impl From<(i32, i32)> for Coord {
    fn from(c: (i32, i32)) -> (r: Coord) {
        Coord { x: c.0, y: c.1 }
    }
}

impl vstd::std_specs::convert::FromSpecImpl<(i32, i32)> for Coord {
    open spec fn obeys_from_spec() -> bool {
        true
    }

    open spec fn from_spec(c: (i32, i32)) -> Coord {
        Coord { x: c.0, y: c.1 }
    }
}

} // verus!
