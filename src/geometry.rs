use vstd::prelude::*;

verus! {

/// A point in the user-given data coordinate system.
#[derive(Clone, Copy, Debug, PartialEq, Eq, Structural, Hash, PartialOrd, Ord)]
pub struct CoordinatePoint {
    /// Column
    pub x: i32,
    /// Row
    pub y: i32,
}

/// An extent between two points in data coordinates.
#[derive(Clone, Copy, Debug, PartialEq, Eq, Structural)]
pub struct CoordinateVec {
    /// Columns
    pub x: usize,
    /// Rows
    pub y: usize,
}

/// A pixel position inside the rendered raster.
#[derive(Clone, Copy, Debug, PartialEq, Eq, Structural)]
pub struct MultiMapPoint {
    /// Pixel column
    pub x: usize,
    /// Pixel row
    pub y: usize,
}

/// A rectangle in data coordinates; `right_bottom` lies one past the last
/// point, as an array length lies one past the last element.
#[derive(Clone, Copy, Debug, PartialEq, Eq, Structural)]
pub struct CoordinateRect {
    /// Left top corner, included
    pub left_top: CoordinatePoint,
    /// Right bottom corner, excluded
    pub right_bottom: CoordinatePoint,
}

/// A corner of the shown rectangle.
#[derive(Clone, Copy, Debug, Default, PartialEq, Eq, Structural)]
pub struct ShowPoint {
    /// Column
    pub x: i32,
    /// Row
    pub y: i32,
}

/// The half-open rectangle of data coordinates that is currently shown.
#[derive(Clone, Copy, Debug, Default, PartialEq, Eq, Structural)]
pub struct ShowRect {
    /// Left top corner, included
    pub left_top: ShowPoint,
    /// Right bottom corner, excluded
    pub right_bottom: ShowPoint,
}

/// One step of keyboard panning.
#[derive(Clone, Copy, Debug, PartialEq, Eq, Structural)]
pub enum KeyBoardDirection {
    /// Towards smaller rows
    Up,
    /// Towards larger rows
    Down,
    /// Towards smaller columns
    Left,
    /// Towards larger columns
    Right,
}

/// A point of a single bitmap, in data coordinates.
#[derive(Clone, Copy, Debug, PartialEq, Eq, Structural, Hash, PartialOrd, Ord)]
pub struct BitMapPoint {
    /// Column of point
    pub x: i32,
    /// Row of point
    pub y: i32,
}

/// The offset between two bitmap points.
#[derive(Clone, Copy, Debug, PartialEq, Eq, Structural)]
pub struct BitMapVec {
    /// Column offset
    pub x: i32,
    /// Row offset
    pub y: i32,
}

/// The product of two 64-bit values leaves room in a `u128` for one more.
pub proof fn lemma_product_fits(a: int, b: int)
    requires
        0 <= a <= u64::MAX,
        0 <= b <= u64::MAX,
    ensures
        0 <= a * b <= 0xFFFF_FFFF_FFFF_FFFE_0000_0000_0000_0001,
{
    assert(0 <= a * b <= 0xFFFF_FFFF_FFFF_FFFE_0000_0000_0000_0001) by (nonlinear_arith)
        requires 0 <= a <= 0xFFFF_FFFF_FFFF_FFFF, 0 <= b <= 0xFFFF_FFFF_FFFF_FFFF;
}

pub open spec fn fits_i32(v: int) -> bool {
    i32::MIN <= v <= i32::MAX
}

impl BitMapPoint {
    /// The offset that leads from `rhs` to `self`.
    pub fn sub(self, rhs: BitMapPoint) -> (r: BitMapVec)
        requires
            fits_i32(self.x - rhs.x),
            fits_i32(self.y - rhs.y),
        ensures
            r.x == self.x - rhs.x,
            r.y == self.y - rhs.y,
    {
        BitMapVec { x: self.x - rhs.x, y: self.y - rhs.y }
    }

    /// This point moved by `rhs`.
    pub fn add(self, rhs: BitMapVec) -> (r: BitMapPoint)
        requires
            fits_i32(self.x + rhs.x),
            fits_i32(self.y + rhs.y),
        ensures
            r.x == self.x + rhs.x,
            r.y == self.y + rhs.y,
    {
        BitMapPoint { x: self.x + rhs.x, y: self.y + rhs.y }
    }

    /// Moves this point by `rhs`.
    pub fn add_assign(&mut self, rhs: BitMapVec)
        requires
            fits_i32(old(self).x + rhs.x),
            fits_i32(old(self).y + rhs.y),
        ensures
            final(self).x == old(self).x + rhs.x,
            final(self).y == old(self).y + rhs.y,
    {
        self.x = self.x + rhs.x;
        self.y = self.y + rhs.y;
    }
}

impl CoordinatePoint {
    /// The extent from `rhs` to `self`; `self` must not lie left of or above `rhs`.
    pub fn sub(&self, rhs: &CoordinatePoint) -> (r: CoordinateVec)
        requires
            self.x >= rhs.x,
            self.y >= rhs.y,
        ensures
            r.x == self.x - rhs.x,
            r.y == self.y - rhs.y,
    {
        let dx = (self.x as i64 - rhs.x as i64) as usize;
        let dy = (self.y as i64 - rhs.y as i64) as usize;
        CoordinateVec { x: dx, y: dy }
    }

    /// This point moved right and down by `rhs`.
    pub fn add(&self, rhs: CoordinateVec) -> (r: CoordinatePoint)
        requires
            fits_i32(self.x + rhs.x),
            fits_i32(self.y + rhs.y),
        ensures
            r.x == self.x + rhs.x,
            r.y == self.y + rhs.y,
    {
        let x = (self.x as i64 + rhs.x as i64) as i32;
        let y = (self.y as i64 + rhs.y as i64) as i32;
        CoordinatePoint { x, y }
    }
}

impl CoordinateRect {
    /// The extent of this rectangle.
    pub fn delta(&self) -> (r: CoordinateVec)
        requires
            self.right_bottom.x >= self.left_top.x,
            self.right_bottom.y >= self.left_top.y,
        ensures
            r.x == self.right_bottom.x - self.left_top.x,
            r.y == self.right_bottom.y - self.left_top.y,
    {
        self.right_bottom.sub(&self.left_top)
    }
}

impl ShowRect {
    /// The rectangle is not empty on either axis.
    pub open spec fn wf(&self) -> bool {
        &&& self.left_top.x < self.right_bottom.x
        &&& self.left_top.y < self.right_bottom.y
    }

    pub open spec fn width(&self) -> int {
        self.right_bottom.x - self.left_top.x
    }

    pub open spec fn height(&self) -> int {
        self.right_bottom.y - self.left_top.y
    }

    pub open spec fn contains(&self, x: int, y: int) -> bool {
        &&& self.left_top.x <= x < self.right_bottom.x
        &&& self.left_top.y <= y < self.right_bottom.y
    }

    /// The rectangle from `(0, 0)` to `(1, 1)`.
    pub fn default_rect() -> (r: ShowRect)
        ensures
            r.wf(),
    {
        ShowRect { left_top: ShowPoint { x: 0, y: 0 }, right_bottom: ShowPoint { x: 1, y: 1 } }
    }

    /// The shown rectangle as a rectangle of data coordinates.
    pub fn to_coordinate_rect(&self) -> (r: CoordinateRect)
        ensures
            r.left_top.x == self.left_top.x,
            r.left_top.y == self.left_top.y,
            r.right_bottom.x == self.right_bottom.x,
            r.right_bottom.y == self.right_bottom.y,
    {
        CoordinateRect {
            left_top: CoordinatePoint { x: self.left_top.x, y: self.left_top.y },
            right_bottom: CoordinatePoint { x: self.right_bottom.x, y: self.right_bottom.y },
        }
    }
}

} // verus!
