//! Drawing one line of text from the coverage masks of its glyphs.

use vstd::prelude::*;
use crate::color::Color;
use crate::grid::{pixels_of, uniform, uniform_grid, PixelGrid, Pixels};

verus! {

/// One cell of a rasterized glyph.
#[derive(Debug, Clone, Copy, PartialEq, Eq, Structural)]
pub struct Coverage {
    /// Column within the glyph's bounding box.
    pub x: u32,
    /// Row within the glyph's bounding box.
    pub y: u32,
    /// The alpha of the cell: the text color's alpha scaled by how much of
    /// the cell the glyph covers.
    pub alpha: u8,
}

/// A rasterized glyph: where its bounding box sits on the line, and its cells.
#[derive(Debug)]
pub struct GlyphMask {
    /// Column of the bounding box's left edge; a negative one counts as 0.
    pub left: i32,
    /// Row of the bounding box's top edge; a negative one counts as 0.
    pub top: i32,
    /// The cells of the bounding box, in the order in which they are drawn.
    pub cells: Vec<Coverage>,
}

/// An edge of a bounding box as an offset on the line: negative edges are
/// moved to 0.
pub open spec fn edge(at: i32) -> int {
    if at > 0 {
        at as int
    } else {
        0
    }
}

/// The color of one covered cell: the text color with the cell's alpha. A
/// cell is never more opaque than the text: an alpha above the text color's
/// counts as the text color's.
pub open spec fn ink(color: Color, alpha: u8) -> Color {
    Color {
        red: color.red,
        green: color.green,
        blue: color.blue,
        alpha: if alpha <= color.alpha {
            alpha
        } else {
            color.alpha
        },
    }
}

/// No cell is more opaque than the text color, and an alpha that is the text
/// color's scaled down is kept as it is.
pub proof fn ink_is_bounded_by_the_text_color(color: Color, alpha: u8)
    ensures
        ink(color, alpha).alpha <= color.alpha,
        alpha <= color.alpha ==> ink(color, alpha).alpha == alpha,
        ink(color, color.alpha) == color,
{
}

/// `grid` after one cell of a glyph has been drawn. A cell that falls outside
/// the grid is dropped.
pub open spec fn stamped(
    grid: Pixels,
    color: Color,
    left: i32,
    top: i32,
    cell: Coverage,
) -> Pixels {
    let col = cell.x + edge(left);
    let row = cell.y + edge(top);
    if row < grid.len() && col < grid[row].len() {
        grid.update(row, grid[row].update(col, Some(ink(color, cell.alpha))))
    } else {
        grid
    }
}

/// `grid` after the first `count` cells of `glyph` have been drawn, each over
/// what was there before.
pub open spec fn with_cells(
    grid: Pixels,
    color: Color,
    glyph: GlyphMask,
    count: nat,
) -> Pixels
    decreases count,
{
    if count == 0 || count > glyph.cells@.len() {
        grid
    } else {
        stamped(
            with_cells(grid, color, glyph, (count - 1) as nat),
            color,
            glyph.left,
            glyph.top,
            glyph.cells@[count - 1],
        )
    }
}

/// `grid` after the first `count` of `glyphs` have been drawn.
pub open spec fn with_glyphs(
    grid: Pixels,
    color: Color,
    glyphs: Seq<GlyphMask>,
    count: nat,
) -> Pixels
    decreases count,
{
    if count == 0 || count > glyphs.len() {
        grid
    } else {
        let glyph = glyphs[count - 1];
        with_cells(with_glyphs(grid, color, glyphs, (count - 1) as nat), color, glyph, glyph.cells@.len())
    }
}

/// The grid of one line: `height` rows of `width` cells, empty but for the
/// cells of the glyphs.
pub open spec fn line_pixels(width: int, height: int, color: Color, glyphs: Seq<GlyphMask>) -> Pixels {
    with_glyphs(uniform(width, height, None), color, glyphs, glyphs.len())
}

/// Draws one line of text: a grid of `height` rows and `width` columns onto
/// which the cells of `glyphs` are drawn in `color`, in order.
pub fn render_line(color: Color, height: u32, width: usize, glyphs: &Vec<GlyphMask>) -> (grid: PixelGrid)
    ensures
        pixels_of(&grid) == line_pixels(width as int, height as int, color, glyphs@),
{
    let mut grid = uniform_grid(width, height as usize, None);
    let ghost blank = pixels_of(&grid);
    let mut g: usize = 0;
    while g < glyphs.len()
        invariant
            g <= glyphs@.len(),
            pixels_of(&grid) == with_glyphs(blank, color, glyphs@, g as nat),
        decreases glyphs@.len() - g,
    {
        let glyph = &glyphs[g];
        let ghost before = pixels_of(&grid);
        let left: u64 = if glyph.left > 0 {
            glyph.left as u64
        } else {
            0
        };
        let top: u64 = if glyph.top > 0 {
            glyph.top as u64
        } else {
            0
        };
        let mut c: usize = 0;
        while c < glyph.cells.len()
            invariant
                c <= glyph.cells@.len(),
                left == edge(glyph.left),
                top == edge(glyph.top),
                pixels_of(&grid) == with_cells(before, color, *glyph, c as nat),
            decreases glyph.cells@.len() - c,
        {
            let cell = glyph.cells[c];
            let col: u64 = cell.x as u64 + left;
            let row: u64 = cell.y as u64 + top;
            let ghost so_far = pixels_of(&grid);
            if row < grid.len() as u64 && col < grid[row as usize].len() as u64 {
                grid[row as usize][col as usize] = Some(
                    Color {
                        red: color.red,
                        green: color.green,
                        blue: color.blue,
                        alpha: if cell.alpha <= color.alpha {
                            cell.alpha
                        } else {
                            color.alpha
                        },
                    },
                );
            }
            assert(pixels_of(&grid) =~~= stamped(so_far, color, glyph.left, glyph.top, cell));
            c += 1;
        }
        g += 1;
    }
    grid
}

} // verus!
