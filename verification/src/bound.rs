use vstd::prelude::*;

verus! {

/// An axis-aligned rectangle in character-cell coordinates. The origin is
/// the top-left corner and `y` increases downward.
#[derive(Clone, Copy, PartialEq, Eq, Structural, Debug)]
pub struct Bound {
    pub x: u16,
    pub y: u16,
    pub width: u16,
    pub height: u16,
}

impl Bound {
    /// A bound is well formed when its far borders still fit in the
    /// coordinate type, so that border arithmetic cannot overflow.
    pub open spec fn wf(self) -> bool {
        &&& self.x + self.width <= u16::MAX
        &&& self.y + self.height <= u16::MAX
    }

    /// Number of cells covered by the rectangle.
    pub open spec fn area_spec(self) -> int {
        self.width * self.height
    }

    /// Whether the point (x, y) lies inside the rectangle.
    pub open spec fn contains(self, x: int, y: int) -> bool {
        &&& self.x <= x < self.x + self.width
        &&& self.y <= y < self.y + self.height
    }

    /// Whether every point of `other` lies inside `self`.
    pub open spec fn contains_bound(self, other: Bound) -> bool {
        &&& self.x <= other.x
        &&& self.y <= other.y
        &&& other.x + other.width <= self.x + self.width
        &&& other.y + other.height <= self.y + self.height
    }

    /// The smallest rectangle whose borders contain both `self` and `other`:
    /// component-wise minimum of the origins, maximum of the far borders.
    pub open spec fn union_spec(self, other: Bound) -> Bound {
        Bound {
            x: vstd::math::min(self.x as int, other.x as int) as u16,
            y: vstd::math::min(self.y as int, other.y as int) as u16,
            width: (vstd::math::max(self.x + self.width, other.x + other.width)
                - vstd::math::min(self.x as int, other.x as int)) as u16,
            height: (vstd::math::max(self.y + self.height, other.y + other.height)
                - vstd::math::min(self.y as int, other.y as int)) as u16,
        }
    }

    pub fn new(x: u16, y: u16, width: u16, height: u16) -> (b: Bound)
        ensures
            b == (Bound { x, y, width, height }),
    {
        Bound { x, y, width, height }
    }

    pub fn area(&self) -> (a: u32)
        ensures
            a == self.area_spec(),
    {
        proof {
            assert(self.width * self.height <= 0xFFFF * 0xFFFF) by (nonlinear_arith)
                requires
                    self.width <= 0xFFFF,
                    self.height <= 0xFFFF,
            ;
        }
        (self.width as u32) * (self.height as u32)
    }

    pub fn left_border(&self) -> (r: u16)
        ensures
            r == self.x,
    {
        self.x
    }

    pub fn right_border(&self) -> (r: u16)
        requires
            self.wf(),
        ensures
            r == self.x + self.width,
    {
        self.x + self.width
    }

    pub fn top_border(&self) -> (r: u16)
        ensures
            r == self.y,
    {
        self.y
    }

    pub fn bottom_border(&self) -> (r: u16)
        requires
            self.wf(),
        ensures
            r == self.y + self.height,
    {
        self.y + self.height
    }

    pub fn union(&self, other: &Bound) -> (u: Bound)
        requires
            self.wf(),
            other.wf(),
        ensures
            u == self.union_spec(*other),
            u.wf(),
            u.contains_bound(*self),
            u.contains_bound(*other),
    {
        let x = if self.x <= other.x {
            self.x
        } else {
            other.x
        };
        let y = if self.y <= other.y {
            self.y
        } else {
            other.y
        };
        let self_right = self.x + self.width;
        let other_right = other.x + other.width;
        let right = if self_right >= other_right {
            self_right
        } else {
            other_right
        };
        let self_bottom = self.y + self.height;
        let other_bottom = other.y + other.height;
        let bottom = if self_bottom >= other_bottom {
            self_bottom
        } else {
            other_bottom
        };
        Bound { x, y, width: right - x, height: bottom - y }
    }
}

} // verus!
