//! Stacking rendered lines into the grid of a paragraph.

use vstd::prelude::*;
use crate::color::Color;
use crate::grid::{pixels_of, rows_have_width, uniform, PixelGrid, Pixels};
use crate::text::align::{align_line, aligned, Alignment};

verus! {

/// The length of the longest row among the first `count` lines, 0 where there
/// is no row at all.
pub open spec fn widest_row(lines: Seq<Pixels>, count: nat) -> nat
    decreases count,
{
    if count == 0 || count > lines.len() {
        0
    } else {
        let before = widest_row(lines, (count - 1) as nat);
        let here = longest(lines[count - 1], lines[count - 1].len());
        if here > before {
            here
        } else {
            before
        }
    }
}

/// The length of the longest of the first `count` rows of `line`.
pub open spec fn longest(line: Pixels, count: nat) -> nat
    decreases count,
{
    if count == 0 || count > line.len() {
        0
    } else {
        let before = longest(line, (count - 1) as nat);
        if line[count - 1].len() > before {
            line[count - 1].len()
        } else {
            before
        }
    }
}

/// The width of the paragraph: the limit where one is set, else the length of
/// the longest row of any line.
pub open spec fn paragraph_width(lines: Seq<Pixels>, max_width: Option<usize>) -> nat {
    match max_width {
        Some(limit) => limit as nat,
        None => widest_row(lines, lines.len()),
    }
}

/// The first `count` lines stacked: each aligned within `width` and followed
/// by `line_gap` empty rows.
pub open spec fn stacked(
    lines: Seq<Pixels>,
    count: nat,
    width: int,
    line_gap: int,
    alignment: Alignment,
) -> Pixels
    decreases count,
{
    if count == 0 || count > lines.len() {
        Seq::empty()
    } else {
        stacked(lines, (count - 1) as nat, width, line_gap, alignment) + aligned(
            lines[count - 1],
            width,
            alignment,
        ) + uniform(width, line_gap, None)
    }
}

/// The models of a list of rendered lines.
pub open spec fn lines_of(lines: &Vec<PixelGrid>) -> Seq<Pixels> {
    Seq::new(lines@.len(), |i: int| pixels_of(&lines@[i]))
}

/// The grid of a paragraph whose lines have been rendered.
pub open spec fn paragraph(
    lines: Seq<Pixels>,
    line_gap: int,
    max_width: Option<usize>,
    alignment: Alignment,
) -> Pixels {
    stacked(lines, lines.len(), paragraph_width(lines, max_width) as int, line_gap, alignment)
}

/// Every row of a stack of lines is as wide as the paragraph.
pub proof fn stacked_rows_have_width(
    lines: Seq<Pixels>,
    count: nat,
    width: nat,
    line_gap: int,
    alignment: Alignment,
)
    ensures
        rows_have_width(stacked(lines, count, width as int, line_gap, alignment), width as int),
    decreases count,
{
    if count == 0 || count > lines.len() {
    } else {
        stacked_rows_have_width(lines, (count - 1) as nat, width, line_gap, alignment);
    }
}

fn longest_row(line: &PixelGrid) -> (len: usize)
    ensures
        len == longest(pixels_of(line), line@.len()),
{
    let mut len: usize = 0;
    let mut r: usize = 0;
    while r < line.len()
        invariant
            r <= line@.len(),
            len == longest(pixels_of(line), r as nat),
        decreases line@.len() - r,
    {
        if line[r].len() > len {
            len = line[r].len();
        }
        r += 1;
    }
    len
}

/// Stacks the rendered lines of a paragraph, top to bottom, into one grid.
/// Every line is aligned within the paragraph's width and followed by
/// `line_gap` rows in which nothing is drawn.
pub fn assemble(
    lines: &Vec<PixelGrid>,
    line_gap: u32,
    max_width: Option<usize>,
    alignment: Alignment,
) -> (grid: PixelGrid)
    ensures
        pixels_of(&grid) == paragraph(lines_of(lines), line_gap as int, max_width, alignment),
        rows_have_width(pixels_of(&grid), paragraph_width(lines_of(lines), max_width) as int),
{
    let ghost model = lines_of(lines);
    let mut widest: usize = 0;
    let mut i: usize = 0;
    while i < lines.len()
        invariant
            i <= lines@.len(),
            model == lines_of(lines),
            widest == widest_row(model, i as nat),
        decreases lines@.len() - i,
    {
        let here = longest_row(&lines[i]);
        if here > widest {
            widest = here;
        }
        i += 1;
    }
    let width = match max_width {
        Some(limit) => limit,
        None => widest,
    };
    assert(width == paragraph_width(model, max_width));
    let mut grid: PixelGrid = Vec::new();
    let mut k: usize = 0;
    while k < lines.len()
        invariant
            k <= lines@.len(),
            model == lines_of(lines),
            pixels_of(&grid) == stacked(model, k as nat, width as int, line_gap as int, alignment),
        decreases lines@.len() - k,
    {
        let ghost before = pixels_of(&grid);
        let mut block = align_line(&lines[k], width, alignment);
        let ghost middle = pixels_of(&block);
        grid.append(&mut block);
        assert(pixels_of(&grid) =~= before + middle);
        let mut g: u32 = 0;
        while g < line_gap
            invariant
                g <= line_gap,
                pixels_of(&grid) == before + middle + uniform(width as int, g as int, None),
            decreases line_gap - g,
        {
            let ghost so_far = pixels_of(&grid);
            let mut row: Vec<Option<Color>> = Vec::new();
            let mut c: usize = 0;
            while c < width
                invariant
                    c <= width,
                    row@.len() == c,
                    forall|j: int| 0 <= j < c ==> #[trigger] row@[j] == None::<Color>,
                decreases width - c,
            {
                row.push(None);
                c += 1;
            }
            assert(row@ =~= Seq::new(width as nat, |c: int| None::<Color>));
            grid.push(row);
            assert(pixels_of(&grid) =~= so_far.push(row@));
            assert(pixels_of(&grid) =~= before + middle + uniform(
                width as int,
                g as int + 1,
                None,
            ));
            g += 1;
        }
        k += 1;
    }
    proof {
        stacked_rows_have_width(model, model.len(), width as nat, line_gap as int, alignment);
    }
    grid
}

} // verus!
