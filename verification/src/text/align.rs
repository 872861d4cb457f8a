//! Horizontal alignment of a rendered line within the paragraph's width.

use vstd::prelude::*;
use crate::color::Color;
use crate::grid::{pixels_of, PixelGrid, Pixels};

verus! {

/// Where a line sits within the width of its paragraph.
#[derive(Debug, Clone, Copy, PartialEq, Eq, Structural)]
pub enum Alignment {
    Left,
    Center,
    Right,
}

impl Default for Alignment {
    fn default() -> (alignment: Alignment)
        ensures
            alignment == Alignment::Left,
    {
        Alignment::Left
    }
}

/// The column of the target row at which the first cell of a row of `len`
/// cells lands. It is negative where the row is wider than the target and
/// loses cells on the left. Centering rounds the offset down.
pub open spec fn align_offset(alignment: Alignment, width: int, len: int) -> int {
    match alignment {
        Alignment::Left => 0,
        Alignment::Center => (width - len) / 2,
        Alignment::Right => width - len,
    }
}

/// `row` placed in a row of `width` cells: what falls outside is clipped, what
/// is not covered is `None`.
pub open spec fn aligned_row(row: Seq<Option<Color>>, width: int, alignment: Alignment) -> Seq<
    Option<Color>,
> {
    let shift = align_offset(alignment, width, row.len() as int);
    Seq::new(
        width as nat,
        |col: int|
            if 0 <= col - shift < row.len() {
                row[col - shift]
            } else {
                None
            },
    )
}

/// Every row of `line` placed in a row of `width` cells.
pub open spec fn aligned(line: Pixels, width: int, alignment: Alignment) -> Pixels {
    Seq::new(line.len(), |r: int| aligned_row(line[r], width, alignment))
}

/// Places one row in a row of `width` cells.
pub fn align_row(row: &Vec<Option<Color>>, width: usize, alignment: Alignment) -> (out: Vec<
    Option<Color>,
>)
    ensures
        out@ == aligned_row(row@, width as int, alignment),
{
    let len = row.len();
    // Cells of `None` in front of the row, and cells of the row that are cut
    // off in front: at most one of the two is not zero.
    let (pad, skip): (usize, usize) = if len <= width {
        match alignment {
            Alignment::Left => (0, 0),
            Alignment::Center => ((width - len) / 2, 0),
            Alignment::Right => (width - len, 0),
        }
    } else {
        match alignment {
            Alignment::Left => (0, 0),
            Alignment::Center => (0, (len - width) / 2 + (len - width) % 2),
            Alignment::Right => (0, len - width),
        }
    };
    let ghost shift = align_offset(alignment, width as int, len as int);
    assert(shift == pad - skip);
    let mut out: Vec<Option<Color>> = Vec::new();
    let mut col: usize = 0;
    while col < width
        invariant
            col <= width,
            len == row@.len(),
            out@.len() == col,
            shift == pad - skip,
            shift == align_offset(alignment, width as int, len as int),
            pad == 0 || skip == 0,
            pad <= width,
            skip <= len,
            forall|j: int|
                0 <= j < col ==> #[trigger] out@[j] == aligned_row(row@, width as int, alignment)[j],
        decreases width - col,
    {
        let cell = if col < pad {
            None
        } else if col - pad < len - skip {
            row[col - pad + skip]
        } else {
            None
        };
        out.push(cell);
        col += 1;
    }
    assert(out@ =~= aligned_row(row@, width as int, alignment));
    out
}

/// Pads or clips every row of `line` to `width` cells according to
/// `alignment`.
pub fn align_line(line: &PixelGrid, width: usize, alignment: Alignment) -> (out: PixelGrid)
    ensures
        pixels_of(&out) == aligned(pixels_of(line), width as int, alignment),
{
    let mut out: PixelGrid = Vec::new();
    let mut r: usize = 0;
    while r < line.len()
        invariant
            r <= line@.len(),
            out@.len() == r,
            forall|i: int|
                0 <= i < r ==> (#[trigger] out@[i])@ == aligned_row(
                    line@[i]@,
                    width as int,
                    alignment,
                ),
        decreases line@.len() - r,
    {
        out.push(align_row(&line[r], width, alignment));
        r += 1;
    }
    assert(pixels_of(&out) =~= aligned(pixels_of(line), width as int, alignment));
    out
}

} // verus!
