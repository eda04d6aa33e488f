//! The centered bounding box of the symbol and the overlap test that
//! decides whether a screen coordinate falls inside it.

use vstd::prelude::*;

verus! {

/// Upper bound on every dimension the overlap test accepts; keeps the
/// offset arithmetic inside the `i32` range.
pub const DIM_LIMIT: i32 = 0x4000_0000;

/// Left (or top) edge of a symbol of size `symbol_dim` centered in a
/// matrix of size `matrix_dim`, by truncating halving of both sizes.
pub open spec fn spec_offset(matrix_dim: int, symbol_dim: int) -> int {
    matrix_dim / 2 - symbol_dim / 2
}

/// Whether `(x, y)` lies in the centered bounding box of a
/// `symbol_width` x `symbol_height` symbol inside a
/// `matrix_width` x `matrix_height` grid.
pub open spec fn spec_is_inside(
    x: int,
    y: int,
    symbol_width: int,
    symbol_height: int,
    matrix_width: int,
    matrix_height: int,
) -> bool {
    let offset_x = spec_offset(matrix_width, symbol_width);
    let offset_y = spec_offset(matrix_height, symbol_height);
    offset_x <= x < offset_x + symbol_width && offset_y <= y < offset_y + symbol_height
}

/// Bounding-box containment test for one screen coordinate.
///
/// The offsets may be negative when the symbol is larger than the grid;
/// the test still answers correctly for any `x` and `y`.
pub fn is_inside_symbol(
    x: i32,
    y: i32,
    symbol_width: i32,
    symbol_height: i32,
    matrix_width: i32,
    matrix_height: i32,
) -> (r: bool)
    requires
        0 <= symbol_width < DIM_LIMIT,
        0 <= symbol_height < DIM_LIMIT,
        0 <= matrix_width < DIM_LIMIT,
        0 <= matrix_height < DIM_LIMIT,
    ensures
        r == spec_is_inside(
            x as int,
            y as int,
            symbol_width as int,
            symbol_height as int,
            matrix_width as int,
            matrix_height as int,
        ),
{
    let offset_x = matrix_width / 2 - symbol_width / 2;
    let offset_y = matrix_height / 2 - symbol_height / 2;
    x >= offset_x && x < offset_x + symbol_width && y >= offset_y && y < offset_y + symbol_height
}

/// The bounding-box test is symmetric about the box edges: the first and
/// last columns of the box are inside, and the columns just before and
/// just after it are outside; likewise for rows.
pub proof fn lemma_overlap_box_symmetric(
    symbol_width: int,
    symbol_height: int,
    matrix_width: int,
    matrix_height: int,
)
    requires
        symbol_width > 0,
        symbol_height > 0,
    ensures
        ({
            let ox = spec_offset(matrix_width, symbol_width);
            let oy = spec_offset(matrix_height, symbol_height);
            &&& spec_is_inside(ox, oy, symbol_width, symbol_height, matrix_width, matrix_height)
            &&& spec_is_inside(
                ox + symbol_width - 1,
                oy + symbol_height - 1,
                symbol_width,
                symbol_height,
                matrix_width,
                matrix_height,
            )
            &&& !spec_is_inside(
                ox - 1,
                oy,
                symbol_width,
                symbol_height,
                matrix_width,
                matrix_height,
            )
            &&& !spec_is_inside(
                ox + symbol_width,
                oy,
                symbol_width,
                symbol_height,
                matrix_width,
                matrix_height,
            )
            &&& !spec_is_inside(
                ox,
                oy - 1,
                symbol_width,
                symbol_height,
                matrix_width,
                matrix_height,
            )
            &&& !spec_is_inside(
                ox,
                oy + symbol_height,
                symbol_width,
                symbol_height,
                matrix_width,
                matrix_height,
            )
        }),
{
}

} // verus!
