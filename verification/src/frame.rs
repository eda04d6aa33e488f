//! The per-frame plan: one draw operation for every cell of the terminal
//! grid, row-major, with the symbol's silhouette left blank and every
//! other cell filled with a random printable character.

use vstd::prelude::*;

use crate::geometry::spec_is_inside;
use crate::geometry::spec_offset;
use crate::geometry::is_inside_symbol;
use crate::geometry::DIM_LIMIT;
use crate::mask::Mask;
use crate::mask::mask_member;

verus! {

/// Code point of the first palette character.
pub const PALETTE_FIRST: u32 = 33;

/// Code point of the last palette character.
pub const PALETTE_LAST: u32 = 126;

/// The characters eligible for a rain cell: every printable, non-space
/// ASCII character, in code-point order.
pub fn palette() -> (r: Vec<char>)
    ensures
        r@.len() == PALETTE_LAST - PALETTE_FIRST + 1,
        forall|i: int| 0 <= i < r@.len() ==> (#[trigger] r@[i]) as u32 == PALETTE_FIRST + i,
{
    let mut r: Vec<char> = Vec::new();
    let mut b: u8 = 33;
    while b < 127
        invariant
            33 <= b <= 127,
            r@.len() == b - 33,
            forall|i: int| 0 <= i < r@.len() ==> (#[trigger] r@[i]) as u32 == 33 + i,
        decreases 127 - b,
    {
        r.push(b as char);
        b = b + 1;
    }
    r
}

/// Relies on rand::random_range: a uniform draw from the given range,
/// which for `0..n` is a value below `n`; the range may not be empty,
/// or the call panics.
#[verifier::external_body]
fn random_below(n: usize) -> (r: usize)
    requires
        n > 0,
    ensures
        r < n,
{
    rand::random_range(0..n)
}

/// One draw operation: print `ch` at terminal column `col` (already at
/// the doubled horizontal stride) and terminal row `row`.
#[derive(Clone, Copy, Debug, PartialEq, Eq)]
pub struct DrawOp {
    pub col: u16,
    pub row: u16,
    pub ch: char,
}

/// Whether the cell at `(x, y)` belongs to the silhouette: it lies in the
/// symbol's centered bounding box, and the box-relative coordinate is one
/// of the mask's.
pub open spec fn spec_blank_cell(
    x: int,
    y: int,
    symbol_width: int,
    symbol_height: int,
    matrix_width: int,
    matrix_height: int,
    mask: Seq<(i32, i32)>,
) -> bool {
    &&& spec_is_inside(x, y, symbol_width, symbol_height, matrix_width, matrix_height)
    &&& mask.contains(
        (
            (x - spec_offset(matrix_width, symbol_width)) as i32,
            (y - spec_offset(matrix_height, symbol_height)) as i32,
        ),
    )
}

/// The draw operation at flat index `i` of a frame plan addresses the
/// right cell and carries the right kind of character: a space exactly on
/// the silhouette, a palette character everywhere else.
pub open spec fn frame_op_ok(
    ops: Seq<DrawOp>,
    i: int,
    width: int,
    height: int,
    symbol_width: int,
    symbol_height: int,
    mask: Seq<(i32, i32)>,
) -> bool {
    let r = i / width;
    let c = i % width;
    let blank = spec_blank_cell(c, r, symbol_width, symbol_height, width, height, mask);
    &&& ops[i].row == r
    &&& ops[i].col == 2 * c
    &&& (blank ==> ops[i].ch == ' ')
    &&& (!blank ==> PALETTE_FIRST <= ops[i].ch as u32 <= PALETTE_LAST)
}

/// Row-major index of the cell in row `r`, column `c` of a grid
/// `width` columns wide.
pub open spec fn cell_index(r: int, c: int, width: int) -> int {
    r * width + c
}

/// A frame plan visits every grid cell exactly once: the draw operation
/// at each cell's row-major index addresses that cell, and no two draw
/// operations address the same cell.
pub proof fn lemma_frame_covers_grid_once(
    ops: Seq<DrawOp>,
    width: int,
    height: int,
    symbol_width: int,
    symbol_height: int,
    mask: Seq<(i32, i32)>,
)
    requires
        width > 0,
        ops.len() == width * height,
        forall|i: int|
            0 <= i < ops.len() ==> #[trigger] frame_op_ok(
                ops,
                i,
                width,
                height,
                symbol_width,
                symbol_height,
                mask,
            ),
    ensures
        forall|r: int, c: int|
            0 <= r < height && 0 <= c < width ==> (0 <= #[trigger] cell_index(r, c, width)
                < ops.len() && ops[cell_index(r, c, width)].row == r && ops[cell_index(
                r,
                c,
                width,
            )].col == 2 * c),
        forall|i: int, j: int|
            #![trigger ops[i], ops[j]]
            0 <= i < j < ops.len() ==> (ops[i].row != ops[j].row || ops[i].col != ops[j].col),
{
    assert forall|r: int, c: int| 0 <= r < height && 0 <= c < width implies (0 <= #[trigger]
    cell_index(r, c, width) < ops.len() && ops[cell_index(r, c, width)].row == r && ops[cell_index(
        r,
        c,
        width,
    )].col == 2 * c) by {
        let i = cell_index(r, c, width);
        vstd::arithmetic::mul::lemma_mul_nonnegative(r, width);
        vstd::arithmetic::mul::lemma_mul_is_commutative(r, width);
        vstd::arithmetic::mul::lemma_mul_is_distributive_add(width, r, 1);
        vstd::arithmetic::mul::lemma_mul_is_commutative(r + 1, width);
        vstd::arithmetic::mul::lemma_mul_inequality(r + 1, height, width);
        vstd::arithmetic::mul::lemma_mul_is_commutative(height, width);
        assert(0 <= i < ops.len());
        vstd::arithmetic::div_mod::lemma_fundamental_div_mod_converse(i, width, r, c);
        assert(frame_op_ok(ops, i, width, height, symbol_width, symbol_height, mask));
    }
    assert forall|i: int, j: int| 0 <= i < j < ops.len() implies (ops[i].row != ops[j].row
        || ops[i].col != ops[j].col) by {
        assert(frame_op_ok(ops, i, width, height, symbol_width, symbol_height, mask));
        assert(frame_op_ok(ops, j, width, height, symbol_width, symbol_height, mask));
        if ops[i].row == ops[j].row && ops[i].col == ops[j].col {
            vstd::arithmetic::div_mod::lemma_fundamental_div_mod(i, width);
            vstd::arithmetic::div_mod::lemma_fundamental_div_mod(j, width);
            assert(false);
        }
    }
}

/// Plan one frame: exactly one draw operation per grid cell, row-major,
/// top to bottom and left to right, at the doubled column stride.
pub fn render_frame(
    width: u16,
    height: u16,
    symbol_width: i32,
    symbol_height: i32,
    mask: &Mask,
) -> (ops: Vec<DrawOp>)
    requires
        width <= 32768,
        0 <= symbol_width < DIM_LIMIT,
        0 <= symbol_height < DIM_LIMIT,
    ensures
        ops@.len() == width as int * height as int,
        forall|i: int|
            0 <= i < ops@.len() ==> #[trigger] frame_op_ok(
                ops@,
                i,
                width as int,
                height as int,
                symbol_width as int,
                symbol_height as int,
                mask.coords@,
            ),
{
    let pal = palette();
    let w = width as i32;
    let h = height as i32;
    let offset_x = w / 2 - symbol_width / 2;
    let offset_y = h / 2 - symbol_height / 2;
    let mut ops: Vec<DrawOp> = Vec::new();
    let mut row: u16 = 0;
    while row < height
        invariant
            row <= height,
            width <= 32768,
            0 <= symbol_width < DIM_LIMIT,
            0 <= symbol_height < DIM_LIMIT,
            w == width as int,
            h == height as int,
            offset_x == spec_offset(width as int, symbol_width as int),
            offset_y == spec_offset(height as int, symbol_height as int),
            pal@.len() == PALETTE_LAST - PALETTE_FIRST + 1,
            forall|i: int| 0 <= i < pal@.len() ==> (#[trigger] pal@[i]) as u32 == PALETTE_FIRST + i,
            ops@.len() == width as int * row as int,
            forall|i: int|
                0 <= i < ops@.len() ==> #[trigger] frame_op_ok(
                    ops@,
                    i,
                    width as int,
                    height as int,
                    symbol_width as int,
                    symbol_height as int,
                    mask.coords@,
                ),
        decreases height - row,
    {
        let mut col: u16 = 0;
        while col < width
            invariant
                col <= width,
                row < height,
                width <= 32768,
                0 <= symbol_width < DIM_LIMIT,
                0 <= symbol_height < DIM_LIMIT,
                w == width as int,
                h == height as int,
                offset_x == spec_offset(width as int, symbol_width as int),
                offset_y == spec_offset(height as int, symbol_height as int),
                pal@.len() == PALETTE_LAST - PALETTE_FIRST + 1,
                forall|i: int|
                    0 <= i < pal@.len() ==> (#[trigger] pal@[i]) as u32 == PALETTE_FIRST + i,
                ops@.len() == width as int * row as int + col as int,
                forall|i: int|
                    0 <= i < ops@.len() ==> #[trigger] frame_op_ok(
                        ops@,
                        i,
                        width as int,
                        height as int,
                        symbol_width as int,
                        symbol_height as int,
                        mask.coords@,
                    ),
            decreases width - col,
        {
            let x = col as i32;
            let y = row as i32;
            let inside = is_inside_symbol(x, y, symbol_width, symbol_height, w, h);
            let blank = inside && mask_member(mask, x - offset_x, y - offset_y);
            assert(blank == spec_blank_cell(
                col as int,
                row as int,
                symbol_width as int,
                symbol_height as int,
                width as int,
                height as int,
                mask.coords@,
            ));
            let ch: char;
            if blank {
                ch = ' ';
            } else {
                let k = random_below(pal.len());
                ch = pal[k];
            }
            let op = DrawOp { col: col * 2, row, ch };
            let ghost old_ops = ops@;
            let ghost idx = ops@.len() as int;
            ops.push(op);
            proof {
                vstd::arithmetic::mul::lemma_mul_is_commutative(width as int, row as int);
                vstd::arithmetic::div_mod::lemma_fundamental_div_mod_converse(
                    idx,
                    width as int,
                    row as int,
                    col as int,
                );
                assert(ops@ == old_ops.push(op));
                vstd::seq::axiom_seq_push_index_same(old_ops, op, idx);
                assert(forall|i: int| 0 <= i < idx ==> old_ops.push(op)[i] == old_ops[i]);
                assert(frame_op_ok(
                    ops@,
                    idx,
                    width as int,
                    height as int,
                    symbol_width as int,
                    symbol_height as int,
                    mask.coords@,
                ));
                assert forall|i: int| 0 <= i < idx implies #[trigger] frame_op_ok(
                    ops@,
                    i,
                    width as int,
                    height as int,
                    symbol_width as int,
                    symbol_height as int,
                    mask.coords@,
                ) by {
                    assert(ops@[i] == old_ops[i]);
                    assert(frame_op_ok(
                        old_ops,
                        i,
                        width as int,
                        height as int,
                        symbol_width as int,
                        symbol_height as int,
                        mask.coords@,
                    ));
                }
            }
            col = col + 1;
        }
        row = row + 1;
        proof {
            vstd::arithmetic::mul::lemma_mul_is_distributive_add(
                width as int,
                row as int - 1,
                1,
            );
        }
    }
    ops
}

} // verus!
