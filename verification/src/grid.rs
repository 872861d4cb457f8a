//! Pixel grids and the blending of one grid over another.

use vstd::prelude::*;
use crate::color::{scale_channel, Color};

verus! {

/// What a shape renders to: rows of cells, `None` where nothing is drawn.
pub type PixelGrid = Vec<Vec<Option<Color>>>;

/// The mathematical model of a [`PixelGrid`].
pub type Pixels = Seq<Seq<Option<Color>>>;

/// The model of an executable grid.
pub open spec fn pixels_of(grid: &PixelGrid) -> Pixels {
    Seq::new(grid@.len(), |r: int| grid@[r]@)
}

/// Every row of `pixels` is `width` cells long.
pub open spec fn rows_have_width(pixels: Pixels, width: int) -> bool {
    forall|r: int| 0 <= r < pixels.len() ==> (#[trigger] pixels[r]).len() == width
}

/// All rows of `pixels` have the same length.
pub open spec fn rectangular(pixels: Pixels) -> bool {
    forall|r: int, s: int|
        0 <= r < pixels.len() && 0 <= s < pixels.len() ==> (#[trigger] pixels[r]).len() == (
        #[trigger] pixels[s]).len()
}

/// A `width` by `height` grid that holds `cell` everywhere.
pub open spec fn uniform(width: int, height: int, cell: Option<Color>) -> Pixels {
    Seq::new(height as nat, |r: int| Seq::new(width as nat, |c: int| cell))
}

/// A color with partial transparency as it looks over black: red, green and
/// blue scaled by `alpha / 255`, alpha forced to 255. An opaque color is
/// unchanged.
pub open spec fn flatten(color: Color) -> Color {
    if color.alpha == 255 {
        color
    } else {
        Color {
            red: scale_channel(color.red, color.alpha),
            green: scale_channel(color.green, color.alpha),
            blue: scale_channel(color.blue, color.alpha),
            alpha: 255,
        }
    }
}

/// `src * alpha / 255 + dst * (255 - alpha) / 255` as one fraction, rounded
/// down.
pub open spec fn mix_channel(src: u8, dst: u8, alpha: u8) -> u8 {
    ((src as int * alpha as int + dst as int * (255 - alpha as int)) / 255) as u8
}

/// One blend step: `src` drawn over `dst`. The backdrop is flattened first,
/// each channel is mixed with the source's alpha as the opacity, and the
/// result is opaque.
pub open spec fn blend(src: Color, dst: Color) -> Color {
    let back = flatten(dst);
    Color {
        red: mix_channel(src.red, back.red, src.alpha),
        green: mix_channel(src.green, back.green, src.alpha),
        blue: mix_channel(src.blue, back.blue, src.alpha),
        alpha: 255,
    }
}

/// A source cell drawn over a destination cell. An absent source leaves the
/// destination untouched; an absent destination counts as transparent black.
pub open spec fn cell_over(src: Option<Color>, dst: Option<Color>) -> Option<Color> {
    match src {
        None => dst,
        Some(color) => Some(
            blend(
                color,
                match dst {
                    Some(back) => back,
                    None => Color { red: 0, green: 0, blue: 0, alpha: 0 },
                },
            ),
        ),
    }
}

/// Whether the canvas cell at (`row`, `col`) lies under `layer` placed with its
/// top left corner at (`x`, `y`).
pub open spec fn covers(layer: Pixels, x: int, y: int, row: int, col: int) -> bool {
    0 <= row - y < layer.len() && 0 <= col - x < layer[row - y].len()
}

/// `canvas` after `layer` has been drawn onto it with its top left corner at
/// (`x`, `y`). Cells of the layer that fall outside the canvas are dropped.
pub open spec fn paint(
    canvas: Pixels,
    layer: Pixels,
    x: int,
    y: int,
) -> Pixels {
    Seq::new(
        canvas.len(),
        |row: int|
            Seq::new(
                canvas[row].len(),
                |col: int|
                    if covers(layer, x, y, row, col) {
                        cell_over(layer[row - y][col - x], canvas[row][col])
                    } else {
                        canvas[row][col]
                    },
            ),
    )
}

fn mix(src: u8, dst: u8, alpha: u8) -> (result: u8)
    ensures
        result == mix_channel(src, dst, alpha),
{
    let rest: u32 = 255 - alpha as u32;
    assert(src as int * alpha as int + dst as int * (255 - alpha as int) <= 255 * 255)
        by (nonlinear_arith)
        requires
            src <= 255,
            dst <= 255,
            0 <= alpha <= 255,
    ;
    assert(0 <= src as int * alpha as int <= 255 * 255) by (nonlinear_arith)
        requires
            src <= 255,
            alpha <= 255,
    ;
    assert(0 <= dst as int * (255 - alpha as int) <= 255 * 255) by (nonlinear_arith)
        requires
            dst <= 255,
            0 <= alpha <= 255,
    ;
    let sum: u32 = src as u32 * alpha as u32 + dst as u32 * rest;
    (sum / 255) as u8
}

/// Draws `src` over `dst` in one blend step.
pub fn blend_colors(src: Color, dst: Color) -> (result: Color)
    ensures
        result == blend(src, dst),
{
    let back = if dst.alpha == 255 {
        dst
    } else {
        dst.scaled(dst.alpha)
    };
    Color {
        red: mix(src.red, back.red, src.alpha),
        green: mix(src.green, back.green, src.alpha),
        blue: mix(src.blue, back.blue, src.alpha),
        alpha: 255,
    }
}

/// Builds a `width` by `height` grid that holds `cell` everywhere.
pub fn uniform_grid(width: usize, height: usize, cell: Option<Color>) -> (grid: PixelGrid)
    ensures
        pixels_of(&grid) == uniform(width as int, height as int, cell),
{
    let mut grid: PixelGrid = Vec::new();
    let mut r: usize = 0;
    while r < height
        invariant
            r <= height,
            grid@.len() == r,
            forall|i: int| 0 <= i < r ==> (#[trigger] grid@[i])@ == Seq::new(width as nat, |c: int| cell),
        decreases height - r,
    {
        let mut row: Vec<Option<Color>> = Vec::new();
        let mut c: usize = 0;
        while c < width
            invariant
                c <= width,
                row@.len() == c,
                forall|i: int| 0 <= i < c ==> #[trigger] row@[i] == cell,
            decreases width - c,
        {
            row.push(cell);
            c += 1;
        }
        assert(row@ =~= Seq::new(width as nat, |c: int| cell));
        grid.push(row);
        r += 1;
    }
    assert(pixels_of(&grid) =~= uniform(width as int, height as int, cell));
    grid
}

/// The canvas while a layer is being drawn: the layer's rows above `rows`,
/// and in row `rows` its cells left of `cols`, are already on it.
pub open spec fn painted_so_far(
    canvas: Pixels,
    layer: Pixels,
    x: int,
    y: int,
    rows: int,
    cols: int,
    row: int,
    col: int,
) -> Option<Color> {
    if covers(layer, x, y, row, col) && (row - y < rows || (row - y == rows && col - x < cols)) {
        cell_over(layer[row - y][col - x], canvas[row][col])
    } else {
        canvas[row][col]
    }
}

/// Draws `layer` onto `canvas` with its top left corner at (`x`, `y`),
/// dropping what falls outside the canvas.
pub fn paint_onto(
    canvas: &mut PixelGrid,
    layer: &PixelGrid,
    x: usize,
    y: usize,
)
    ensures
        pixels_of(final(canvas)) == paint(
            pixels_of(old(canvas)),
            pixels_of(layer),
            x as int,
            y as int,
        ),
{
    let ghost before = pixels_of(canvas);
    let ghost top = pixels_of(layer);
    if y < canvas.len() {
        let room = canvas.len() - y;
        let rows = if layer.len() < room {
            layer.len()
        } else {
            room
        };
        let mut ly: usize = 0;
        while ly < rows
            invariant
                ly <= rows,
                rows <= layer@.len(),
                y + rows <= canvas@.len(),
                y + rows <= usize::MAX,
                top == pixels_of(layer),
                canvas@.len() == before.len(),
                forall|r: int| 0 <= r < before.len() ==> (#[trigger] canvas@[r])@.len() == before[r].len(),
                forall|r: int, c: int|
                    0 <= r < before.len() && 0 <= c < before[r].len() ==> (#[trigger] canvas@[r]@[c])
                        == painted_so_far(before, top, x as int, y as int, ly as int, 0, r, c),
            decreases rows - ly,
        {
            let ry = y + ly;
            if x < canvas[ry].len() {
                let span = canvas[ry].len() - x;
                let cols = if layer[ly].len() < span {
                    layer[ly].len()
                } else {
                    span
                };
                let mut lx: usize = 0;
                while lx < cols
                    invariant
                        lx <= cols,
                        ly < rows,
                        rows <= layer@.len(),
                        y + rows <= canvas@.len(),
                        ry == y + ly,
                        cols <= layer@[ly as int]@.len(),
                        x + cols <= before[ry as int].len(),
                        x + cols <= usize::MAX,
                        top == pixels_of(layer),
                        canvas@.len() == before.len(),
                        forall|r: int|
                            0 <= r < before.len() ==> (#[trigger] canvas@[r])@.len() == before[r].len(),
                        forall|r: int, c: int|
                            0 <= r < before.len() && 0 <= c < before[r].len() ==> (
                            #[trigger] canvas@[r]@[c]) == painted_so_far(
                                before,
                                top,
                                x as int,
                                y as int,
                                ly as int,
                                lx as int,
                                r,
                                c,
                            ),
                    decreases cols - lx,
                {
                    let rx = x + lx;
                    match layer[ly][lx] {
                        Some(color) => {
                            let under = match canvas[ry][rx] {
                                Some(back) => back,
                                None => Color { red: 0, green: 0, blue: 0, alpha: 0 },
                            };
                            canvas[ry][rx] = Some(blend_colors(color, under));
                        },
                        None => {},
                    }
                    lx += 1;
                }
            }
            ly += 1;
        }
    }
    assert(pixels_of(canvas) =~~= paint(before, top, x as int, y as int));
}

} // verus!
