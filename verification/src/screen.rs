//! Where things go on the display surface.

use vstd::prelude::*;
use crate::mask::MASK_LEN;

verus! {

/// A position on the display surface: a line and a column, counted from the top left corner.
#[derive(Clone, Copy, Debug, PartialEq, Eq, Structural)]
pub struct Cell {
    pub row: i32,
    pub col: i32,
}

/// Half of `v`, rounded towards zero.
pub open spec fn half(v: int) -> int {
    if v >= 0 {
        v / 2
    } else {
        -((-v) / 2)
    }
}

/// How far left of the middle column a text of `len` bytes begins.
pub open spec fn lead(len: nat) -> int {
    len / 2 - 1
}

/// Where a text of `len` bytes begins on a surface of `max_y` lines and `max_x`
/// columns so that it stands centred in the line above the middle.
pub fn text_origin(max_y: i32, max_x: i32, len: usize) -> (origin: Cell)
    requires
        len >= 2,
        half(max_x as int) - lead(len as nat) >= i32::MIN,
    ensures
        origin.row == half(max_y as int) - 1,
        origin.col == half(max_x as int) - lead(len as nat),
{
    let left: i64 = (len / 2 - 1) as i64;
    let col: i64 = (max_x / 2) as i64 - left;
    Cell { row: max_y / 2 - 1, col: col as i32 }
}

/// The middle of the surface, where the cursor stands once a prompt is shown.
pub fn input_anchor(max_y: i32, max_x: i32) -> (anchor: Cell)
    ensures
        anchor.row == half(max_y as int),
        anchor.col == half(max_x as int),
{
    Cell { row: max_y / 2, col: max_x / 2 }
}

/// Where the masks begin, given the cursor at the anchor: so far to the left
/// that a mask stands centred.
pub fn mask_origin(cursor: Cell) -> (origin: Cell)
    requires
        cursor.col - lead(MASK_LEN as nat) >= i32::MIN,
    ensures
        origin.row == cursor.row,
        origin.col == cursor.col - lead(MASK_LEN as nat),
{
    Cell { row: cursor.row, col: cursor.col - (MASK_LEN as i32 / 2 - 1) }
}

/// Where the cursor goes back to once a mask is printed, given the cursor
/// behind the mask: to the mask's first glyph, so that the next mask covers it.
pub fn mask_rewind(cursor: Cell) -> (origin: Cell)
    requires
        cursor.col - MASK_LEN >= i32::MIN,
    ensures
        origin.row == cursor.row,
        origin.col == cursor.col - MASK_LEN,
{
    Cell { row: cursor.row, col: cursor.col - MASK_LEN as i32 }
}

} // verus!
