//! Integer points on the grid and their component-wise arithmetic.

use vstd::prelude::*;
use vstd::std_specs::ops::{AddSpecImpl, DivSpecImpl, MulSpecImpl, SubSpecImpl};

verus! {

/// One grid coordinate.
pub type Coord = i32;

/// A cell position, or an offset between two cells.
#[derive(Clone, Copy, Debug, PartialEq, Eq, Structural)]
pub struct Point {
    pub x: Coord,
    pub y: Coord,
}

/// Quotient of `a` by `b` rounded towards zero, as machine division rounds.
pub open spec fn trunc_div(a: int, b: int) -> int {
    if a >= 0 {
        a / b
    } else {
        -((-a) / b)
    }
}

impl Point {
    /// The point with the coordinates `x` and `y`.
    pub fn new(x: Coord, y: Coord) -> (p: Self)
        ensures
            p.x == x,
            p.y == y,
    {
        Self { x, y }
    }

    /// Builds a point from two indices, keeping the low 32 bits of each.
    pub fn from_usize(x: usize, y: usize) -> (p: Self)
        ensures
            p.x == x as Coord,
            p.y == y as Coord,
            x <= Coord::MAX ==> p.x == x,
            y <= Coord::MAX ==> p.y == y,
    {
        Self { x: #[verifier::truncate] (x as Coord), y: #[verifier::truncate] (y as Coord) }
    }
}

impl AddSpecImpl for Point {
    open spec fn obeys_add_spec() -> bool {
        true
    }

    open spec fn add_req(self, rhs: Point) -> bool {
        &&& Coord::MIN <= self.x + rhs.x <= Coord::MAX
        &&& Coord::MIN <= self.y + rhs.y <= Coord::MAX
    }

    open spec fn add_spec(self, rhs: Point) -> Point {
        Point { x: (self.x + rhs.x) as Coord, y: (self.y + rhs.y) as Coord }
    }
}

impl core::ops::Add for Point {
    type Output = Point;

    fn add(self, rhs: Self) -> Self::Output {
        Point { x: self.x + rhs.x, y: self.y + rhs.y }
    }
}

impl SubSpecImpl for Point {
    open spec fn obeys_sub_spec() -> bool {
        true
    }

    open spec fn sub_req(self, rhs: Point) -> bool {
        &&& Coord::MIN <= self.x - rhs.x <= Coord::MAX
        &&& Coord::MIN <= self.y - rhs.y <= Coord::MAX
    }

    open spec fn sub_spec(self, rhs: Point) -> Point {
        Point { x: (self.x - rhs.x) as Coord, y: (self.y - rhs.y) as Coord }
    }
}

impl core::ops::Sub for Point {
    type Output = Point;

    fn sub(self, rhs: Self) -> Self::Output {
        Point { x: self.x - rhs.x, y: self.y - rhs.y }
    }
}

impl MulSpecImpl for Point {
    open spec fn obeys_mul_spec() -> bool {
        true
    }

    open spec fn mul_req(self, rhs: Point) -> bool {
        &&& Coord::MIN <= self.x * rhs.x <= Coord::MAX
        &&& Coord::MIN <= self.y * rhs.y <= Coord::MAX
    }

    open spec fn mul_spec(self, rhs: Point) -> Point {
        Point { x: (self.x * rhs.x) as Coord, y: (self.y * rhs.y) as Coord }
    }
}

impl core::ops::Mul for Point {
    type Output = Point;

    fn mul(self, rhs: Self) -> Self::Output {
        Point { x: self.x * rhs.x, y: self.y * rhs.y }
    }
}

impl DivSpecImpl for Point {
    open spec fn obeys_div_spec() -> bool {
        true
    }

    /// Neither divisor is zero, and no quotient leaves the coordinate range.
    open spec fn div_req(self, rhs: Point) -> bool {
        &&& rhs.x != 0
        &&& rhs.y != 0
        &&& !(self.x == Coord::MIN && rhs.x == -1)
        &&& !(self.y == Coord::MIN && rhs.y == -1)
    }

    open spec fn div_spec(self, rhs: Point) -> Point {
        Point {
            x: trunc_div(self.x as int, rhs.x as int) as Coord,
            y: trunc_div(self.y as int, rhs.y as int) as Coord,
        }
    }
}

impl core::ops::Div for Point {
    type Output = Point;

    fn div(self, rhs: Self) -> Self::Output {
        Point { x: self.x / rhs.x, y: self.y / rhs.y }
    }
}

} // verus!
