//! Grid cells and their relation to whole pixels.

use vstd::prelude::*;

verus! {

/// Side of one grid cell, in pixels.
pub const CELL_SIZE: i64 = 20;

/// Offset from a cell's corner to its centre, in pixels.
pub const HALF_CELL: i64 = 10;

/// A grid cell. Cells of the playing field lie in `0..20` on both axes; the
/// point `(-1, -1)` is reserved to mean "not placed yet".
#[derive(Clone, Copy, Debug, PartialEq, Eq, Structural, Hash)]
pub struct Point {
    pub x: i32,
    pub y: i32,
}

impl Default for Point {
    /// The origin.
    fn default() -> (p: Point)
        ensures
            p == (Point { x: 0, y: 0 }),
    {
        Point { x: 0, y: 0 }
    }
}

impl Point {
    /// The cell in column `x` and row `y`.
    pub fn new(x: i32, y: i32) -> (p: Point)
        ensures
            p == (Point { x, y }),
    {
        Point { x, y }
    }

    /// The reserved point that stands for a corner not chosen yet.
    pub open spec fn pending() -> Point {
        Point { x: -1i32, y: -1i32 }
    }

    /// Whether this is the reserved point.
    pub fn is_pending(&self) -> (b: bool)
        ensures
            b == (*self == Point::pending()),
    {
        self.x == -1 && self.y == -1
    }

    /// The cell as one number: every cell has its own, and every `u64` is the
    /// number of some cell.
    pub open spec fn spec_key(self) -> u64 {
        ((self.x + 0x8000_0000) * 0x1_0000_0000 + (self.y + 0x8000_0000)) as u64
    }

    /// The number under which the cell is entered in an index.
    #[verifier::when_used_as_spec(spec_key)]
    pub fn key(self) -> (k: u64)
        ensures
            k == self.spec_key(),
    {
        let hi: u64 = (self.x as i64 + 0x8000_0000) as u64;
        let lo: u64 = (self.y as i64 + 0x8000_0000) as u64;
        hi * 0x1_0000_0000 + lo
    }

    /// Distinct cells have distinct keys.
    pub proof fn lemma_key_injective(p: Point, q: Point)
        requires
            p.spec_key() == q.spec_key(),
        ensures
            p == q,
    {
    }
}

/// The cell coordinate that holds the whole pixel `px`: the quotient by the
/// cell size, rounded towards negative infinity.
pub open spec fn cell_of_pixel(px: int) -> int {
    px / (CELL_SIZE as int)
}

/// The pixel at the centre of the cell coordinate `c`.
pub open spec fn center_of_cell(c: int) -> int {
    c * CELL_SIZE + HALF_CELL
}

/// The cell coordinate that holds the whole pixel `px`.
pub fn pixel_to_cell(px: i64) -> (c: i64)
    ensures
        c == cell_of_pixel(px as int),
{
    let q: i64 = px / CELL_SIZE;
    if px % CELL_SIZE < 0 {
        q - 1
    } else {
        q
    }
}

/// The pixel at the centre of the cell coordinate `c`.
pub fn cell_center(c: i32) -> (px: i64)
    ensures
        px == center_of_cell(c as int),
{
    c as i64 * CELL_SIZE + HALF_CELL
}

} // verus!
