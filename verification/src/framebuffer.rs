//! The pixels of a 32-bit display surface, and drawing onto them.

use vstd::prelude::*;
use vstd::arithmetic::div_mod::lemma_fundamental_div_mod_converse;
use crate::color::Color;
use crate::compositor::Compositor;
use crate::grid::{pixels_of, PixelGrid, Pixels};
use crate::shape::{PositionedShape, Shape};
use crate::sys::{fb_bitfield, fb_var_screeninfo};

verus! {

/// The buffer that stands for the screen: one 32-bit word per pixel, row
/// after row, in the screen's own pixel format.
#[derive(Debug)]
pub struct Framebuffer {
    /// The pixels, `xres` of them per row.
    pub screen: Vec<u32>,
    /// The screen's size and pixel format.
    pub screen_info: fb_var_screeninfo,
}

/// Whether a channel's place within a pixel can be used: a channel has at most
/// eight bits, and its offset lies within the word.
pub open spec fn usable_field(field: fb_bitfield) -> bool {
    field.length <= 8 && field.offset < 32
}

/// Whether all four channels of a pixel format can be used.
pub open spec fn usable_format(info: fb_var_screeninfo) -> bool {
    &&& usable_field(info.red)
    &&& usable_field(info.green)
    &&& usable_field(info.blue)
    &&& usable_field(info.transp)
}

/// One channel in its place: the value's most significant `length` bits,
/// moved left by `offset`.
pub open spec fn placed(value: u8, field: fb_bitfield) -> u32 {
    ((value as u32) >> ((8 - field.length) as u32)) << field.offset
}

/// A color as one pixel of the screen.
pub open spec fn packed(color: Color, info: fb_var_screeninfo) -> u32 {
    placed(color.red, info.red) | placed(color.green, info.green) | placed(color.blue, info.blue)
        | placed(color.alpha, info.transp)
}

/// The screen after the cells of `pixels` above row `rows`, and in row `rows`
/// left of column `cols`, have been drawn with the grid's corner at
/// (`x`, `y`): the word at `index`.
pub open spec fn drawn_so_far(
    screen: Seq<u32>,
    info: fb_var_screeninfo,
    pixels: Pixels,
    x: int,
    y: int,
    rows: int,
    cols: int,
    index: int,
) -> u32 {
    let row = index / (info.xres as int) - y;
    let col = index % (info.xres as int) - x;
    if info.xres > 0 && 0 <= row < pixels.len() && 0 <= col < pixels[row].len() && (row < rows || (
    row == rows && col < cols)) && pixels[row][col] is Some {
        packed(pixels[row][col]->Some_0, info)
    } else {
        screen[index]
    }
}

/// The screen after `pixels` has been drawn with its corner at (`x`, `y`):
/// every cell that holds a color has become a pixel, whatever its alpha.
pub open spec fn drawn(
    screen: Seq<u32>,
    info: fb_var_screeninfo,
    pixels: Pixels,
    x: int,
    y: int,
) -> Seq<u32> {
    Seq::new(
        screen.len(),
        |index: int| drawn_so_far(screen, info, pixels, x, y, pixels.len() as int, 0, index),
    )
}

/// Whether every cell of `pixels` that holds a color falls onto the screen
/// when the grid's corner is at (`x`, `y`).
pub open spec fn fits(info: fb_var_screeninfo, pixels: Pixels, x: int, y: int) -> bool {
    forall|row: int, col: int|
        0 <= row < pixels.len() && 0 <= col < pixels[row].len() && (#[trigger] pixels[row][col])
            is Some ==> x + col < info.xres && y + row < info.yres
}

fn place(value: u8, field: &fb_bitfield) -> (word: u32)
    requires
        usable_field(*field),
    ensures
        word == placed(value, *field),
{
    ((value as u32) >> (8 - field.length)) << field.offset
}

impl Framebuffer {
    /// Whether the buffer has one word for every pixel of the screen and the
    /// pixel format can be used.
    pub open spec fn well_formed(&self) -> bool {
        &&& self.screen@.len() == self.screen_info.xres * self.screen_info.yres
        &&& usable_format(self.screen_info)
    }

    /// A buffer of black pixels for the screen that `screen_info` describes.
    /// `None` where a pixel does not have 32 bits or a channel's place cannot
    /// be used.
    pub fn new(screen_info: fb_var_screeninfo) -> (framebuffer: Option<Framebuffer>)
        ensures
            match framebuffer {
                Some(framebuffer) => {
                    &&& screen_info.bits_per_pixel == 32
                    &&& usable_format(screen_info)
                    &&& framebuffer.screen_info == screen_info
                    &&& framebuffer.screen@ == Seq::new(
                        (screen_info.xres * screen_info.yres) as nat,
                        |i: int| 0u32,
                    )
                    &&& framebuffer.well_formed()
                },
                None => screen_info.bits_per_pixel != 32 || !usable_format(screen_info),
            },
    {
        if screen_info.bits_per_pixel != 32 || !(screen_info.red.length <= 8
            && screen_info.red.offset < 32 && screen_info.green.length <= 8
            && screen_info.green.offset < 32 && screen_info.blue.length <= 8
            && screen_info.blue.offset < 32 && screen_info.transp.length <= 8
            && screen_info.transp.offset < 32) {
            return None;
        }
        let mut screen: Vec<u32> = Vec::new();
        let mut row: u32 = 0;
        while row < screen_info.yres
            invariant
                row <= screen_info.yres,
                screen@.len() == row * screen_info.xres,
                forall|i: int| 0 <= i < screen@.len() ==> #[trigger] screen@[i] == 0u32,
            decreases screen_info.yres - row,
        {
            let mut col: u32 = 0;
            while col < screen_info.xres
                invariant
                    col <= screen_info.xres,
                    screen@.len() == row * screen_info.xres + col,
                    forall|i: int| 0 <= i < screen@.len() ==> #[trigger] screen@[i] == 0u32,
                decreases screen_info.xres - col,
            {
                screen.push(0);
                col += 1;
            }
            assert((row + 1) * screen_info.xres == row * screen_info.xres + screen_info.xres)
                by (nonlinear_arith);
            row += 1;
        }
        assert(screen@ =~= Seq::new((screen_info.xres * screen_info.yres) as nat, |i: int| 0u32))
            by {
            assert(screen_info.yres * screen_info.xres == screen_info.xres * screen_info.yres)
                by (nonlinear_arith);
        }
        Some(Framebuffer { screen, screen_info })
    }

    /// Sets the pixel at (`x`, `y`) to `color`, packed into the screen's
    /// format. Alpha is stored where the format has a place for it and is not
    /// used for blending.
    pub fn set_pixel(&mut self, x: u32, y: u32, color: Color)
        requires
            old(self).well_formed(),
            x < old(self).screen_info.xres,
            y < old(self).screen_info.yres,
        ensures
            final(self).screen_info == old(self).screen_info,
            final(self).screen@ == old(self).screen@.update(
                y * old(self).screen_info.xres + x,
                packed(color, old(self).screen_info),
            ),
            final(self).well_formed(),
    {
        assert(y * self.screen_info.xres + x < self.screen_info.xres * self.screen_info.yres)
            by (nonlinear_arith)
            requires
                x < self.screen_info.xres,
                y < self.screen_info.yres,
        ;
        assert(0 <= y * self.screen_info.xres <= self.screen_info.xres * self.screen_info.yres)
            by (nonlinear_arith)
            requires
                0 <= y < self.screen_info.yres,
                0 <= self.screen_info.xres,
        ;
        assert(self.screen@.len() == self.screen.len());
        let index = y as usize * self.screen_info.xres as usize + x as usize;
        let word = place(color.red, &self.screen_info.red) | place(
            color.green,
            &self.screen_info.green,
        ) | place(color.blue, &self.screen_info.blue) | place(color.alpha, &self.screen_info.transp);
        self.screen[index] = word;
    }

    /// Draws `grid` with its top left corner at (`x`, `y`). Cells that hold
    /// no color leave the screen as it is.
    pub fn draw_grid(&mut self, x: u32, y: u32, grid: &PixelGrid)
        requires
            old(self).well_formed(),
            fits(old(self).screen_info, pixels_of(grid), x as int, y as int),
        ensures
            final(self).screen_info == old(self).screen_info,
            final(self).screen@ == drawn(
                old(self).screen@,
                old(self).screen_info,
                pixels_of(grid),
                x as int,
                y as int,
            ),
            final(self).well_formed(),
    {
        let ghost pixels = pixels_of(grid);
        let ghost before = self.screen@;
        let ghost info = self.screen_info;
        let mut row: usize = 0;
        while row < grid.len()
            invariant
                row <= grid@.len(),
                pixels == pixels_of(grid),
                self.screen_info == info,
                self.well_formed(),
                self.screen@.len() == before.len(),
                fits(info, pixels, x as int, y as int),
                forall|i: int|
                    0 <= i < before.len() ==> #[trigger] self.screen@[i] == drawn_so_far(
                        before,
                        info,
                        pixels,
                        x as int,
                        y as int,
                        row as int,
                        0,
                        i,
                    ),
            decreases grid@.len() - row,
        {
            let mut col: usize = 0;
            while col < grid[row].len()
                invariant
                    row < grid@.len(),
                    col <= grid@[row as int]@.len(),
                    pixels == pixels_of(grid),
                    self.screen_info == info,
                    self.well_formed(),
                    self.screen@.len() == before.len(),
                    fits(info, pixels, x as int, y as int),
                    forall|i: int|
                        0 <= i < before.len() ==> #[trigger] self.screen@[i] == drawn_so_far(
                            before,
                            info,
                            pixels,
                            x as int,
                            y as int,
                            row as int,
                            col as int,
                            i,
                        ),
                decreases grid@[row as int]@.len() - col,
            {
                match grid[row][col] {
                    Some(color) => {
                        assert(pixels[row as int][col as int] is Some);
                        let px = x + col as u32;
                        let py = y + row as u32;
                        let ghost so_far = self.screen@;
                        self.set_pixel(px, py, color);
                        proof {
                            let at = py * info.xres + px;
                            assert(0 <= at < info.xres * info.yres && info.xres * py == py
                                * info.xres) by (nonlinear_arith)
                                requires
                                    at == py * info.xres + px,
                                    0 <= px < info.xres,
                                    0 <= py < info.yres,
                            ;
                            lemma_fundamental_div_mod_converse(
                                at,
                                info.xres as int,
                                py as int,
                                px as int,
                            );
                            assert forall|i: int| 0 <= i < before.len() implies #[trigger] self.screen@[i]
                                == drawn_so_far(
                                before,
                                info,
                                pixels,
                                x as int,
                                y as int,
                                row as int,
                                col as int + 1,
                                i,
                            ) by {
                                if i != at {
                                    assert(self.screen@[i] == so_far[i]);
                                    if i / (info.xres as int) == py && i % (info.xres as int) == px {
                                        vstd::arithmetic::div_mod::lemma_fundamental_div_mod(
                                            i,
                                            info.xres as int,
                                        );
                                        assert(false);
                                    }
                                }
                            }
                        }
                    },
                    None => {},
                }
                col += 1;
            }
            row += 1;
        }
        assert(self.screen@ =~= drawn(before, info, pixels, x as int, y as int));
    }

    /// Draws `shape` with its top left corner at (`x`, `y`). Cells in which
    /// the shape draws nothing leave the screen as it is.
    pub fn draw<T: Shape>(&mut self, x: u32, y: u32, shape: &T)
        requires
            old(self).well_formed(),
            fits(old(self).screen_info, shape.pixels(), x as int, y as int),
        ensures
            final(self).screen_info == old(self).screen_info,
            final(self).screen@ == drawn(
                old(self).screen@,
                old(self).screen_info,
                shape.pixels(),
                x as int,
                y as int,
            ),
            final(self).well_formed(),
    {
        let grid = shape.render();
        self.draw_grid(x, y, &grid);
    }

    /// Whether the buffer is [`Framebuffer::well_formed`].
    pub fn is_well_formed(&self) -> (ok: bool)
        ensures
            ok == self.well_formed(),
    {
        let info = &self.screen_info;
        assert(0 <= info.xres * info.yres <= 0xffff_ffff * 0xffff_ffff) by (nonlinear_arith)
            requires
                0 <= info.xres <= 0xffff_ffff,
                0 <= info.yres <= 0xffff_ffff,
        ;
        let pixels: u64 = info.xres as u64 * info.yres as u64;
        self.screen.len() as u64 == pixels && info.red.length <= 8 && info.red.offset < 32
            && info.green.length <= 8 && info.green.offset < 32 && info.blue.length <= 8
            && info.blue.offset < 32 && info.transp.length <= 8 && info.transp.offset < 32
    }

    /// Whether `grid` can be drawn with its corner at (`x`, `y`): the buffer
    /// is well-formed and every cell that holds a color falls onto the screen.
    pub fn can_draw(&self, x: u32, y: u32, grid: &PixelGrid) -> (ok: bool)
        ensures
            ok == (self.well_formed() && fits(self.screen_info, pixels_of(grid), x as int, y as int)),
    {
        if !self.is_well_formed() {
            return false;
        }
        let ghost pixels = pixels_of(grid);
        let xres = self.screen_info.xres as u64;
        let yres = self.screen_info.yres as u64;
        let mut row: usize = 0;
        while row < grid.len()
            invariant
                row <= grid@.len(),
                pixels == pixels_of(grid),
                xres == self.screen_info.xres,
                yres == self.screen_info.yres,
                forall|r: int, c: int|
                    0 <= r < row && 0 <= c < pixels[r].len() && (#[trigger] pixels[r][c]) is Some
                        ==> x + c < xres && y + r < yres,
            decreases grid@.len() - row,
        {
            let mut col: usize = 0;
            while col < grid[row].len()
                invariant
                    row < grid@.len(),
                    col <= grid@[row as int]@.len(),
                    pixels == pixels_of(grid),
                    xres == self.screen_info.xres,
                    yres == self.screen_info.yres,
                    forall|r: int, c: int|
                        0 <= r < row && 0 <= c < pixels[r].len() && (#[trigger] pixels[r][c])
                            is Some ==> x + c < xres && y + r < yres,
                    forall|c: int|
                        0 <= c < col && (#[trigger] pixels[row as int][c]) is Some ==> x + c < xres
                            && y + row < yres,
                decreases grid@[row as int]@.len() - col,
            {
                if grid[row][col].is_some() {
                    if col as u64 >= xres || x as u64 + col as u64 >= xres || row as u64 >= yres
                        || y as u64 + row as u64 >= yres {
                        assert(pixels[row as int][col as int] is Some);
                        return false;
                    }
                }
                col += 1;
            }
            row += 1;
        }
        true
    }

    /// Sets the pixel at (`x`, `y`) if it lies on the screen and the buffer is
    /// well-formed; else changes nothing. Returns whether the pixel was set.
    pub fn try_set_pixel(&mut self, x: u32, y: u32, color: Color) -> (done: bool)
        ensures
            done == (old(self).well_formed() && x < old(self).screen_info.xres && y < old(self).screen_info.yres),
            final(self).screen_info == old(self).screen_info,
            final(self).screen@ == if done {
                old(self).screen@.update(
                    y * old(self).screen_info.xres + x,
                    packed(color, old(self).screen_info),
                )
            } else {
                old(self).screen@
            },
    {
        if self.is_well_formed() && x < self.screen_info.xres && y < self.screen_info.yres {
            self.set_pixel(x, y, color);
            true
        } else {
            false
        }
    }

    /// Draws `shape` with its top left corner at (`x`, `y`) if every cell in
    /// which it draws falls onto the screen and the buffer is well-formed;
    /// else changes nothing. Returns whether the shape was drawn.
    pub fn try_draw<T: Shape>(&mut self, x: u32, y: u32, shape: &T) -> (done: bool)
        ensures
            done == (old(self).well_formed() && fits(
                old(self).screen_info,
                shape.pixels(),
                x as int,
                y as int,
            )),
            final(self).screen_info == old(self).screen_info,
            final(self).screen@ == if done {
                drawn(old(self).screen@, old(self).screen_info, shape.pixels(), x as int, y as int)
            } else {
                old(self).screen@
            },
    {
        let grid = shape.render();
        if self.can_draw(x, y, &grid) {
            self.draw_grid(x, y, &grid);
            true
        } else {
            false
        }
    }

    /// An empty compositor as large as the screen.
    pub fn compositor(&self, background: Color) -> (compositor: Compositor)
        ensures
            compositor.width == self.screen_info.xres,
            compositor.height == self.screen_info.yres,
            compositor.background == background,
            compositor.shapes@ == Seq::<(String, PositionedShape)>::empty(),
    {
        Compositor::new(self.screen_info.xres as usize, self.screen_info.yres as usize, background)
    }
}

} // verus!
