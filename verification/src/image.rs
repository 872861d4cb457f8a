//! Decoded images as shapes. Decoding itself is left to the caller.

use vstd::prelude::*;
use crate::color::Color;
use crate::error::Error;
use crate::grid::{pixels_of, PixelGrid, Pixels};
use crate::shape::{Shape, ShapeKind};

verus! {

/// A decoded image: rows of pixels, four bytes each, in the order red, green,
/// blue, alpha.
#[derive(Debug)]
pub struct Image {
    /// Pixels per row.
    pub width: u32,
    /// Number of rows.
    pub height: u32,
    /// The pixels, row after row.
    pub data: Vec<u8>,
}

/// The cell of an image at (`x`, `y`): nothing where alpha is zero, and
/// nothing where `data` is too short to hold the pixel.
pub open spec fn image_cell(width: int, data: Seq<u8>, x: int, y: int) -> Option<Color> {
    let at = 4 * (y * width + x);
    if at + 4 <= data.len() && data[at + 3] != 0 {
        Some(Color { red: data[at], green: data[at + 1], blue: data[at + 2], alpha: data[at + 3] })
    } else {
        None
    }
}

/// The grid of an image.
pub open spec fn image_pixels(image: Image) -> Pixels {
    Seq::new(
        image.height as nat,
        |y: int|
            Seq::new(image.width as nat, |x: int| image_cell(image.width as int, image.data@, x, y)),
    )
}

impl Image {
    /// Whether `data` holds exactly the pixels of the image, four bytes each.
    pub open spec fn well_formed(&self) -> bool {
        self.data@.len() == 4 * self.width * self.height
    }

    /// An image of the given size over `data`.
    pub fn from_rgba(width: u32, height: u32, data: Vec<u8>) -> (image: Image)
        ensures
            image == (Image { width, height, data }),
    {
        Image { width, height, data }
    }

    /// Takes what an image decoder gave: width, height and pixels become an
    /// image, and the decoder's error becomes a bad-image error that holds it.
    /// Decoding itself is left to the caller.
    pub fn from_decoded(decoded: Result<(u32, u32, Vec<u8>), image::ImageError>) -> (result: Result<
        Image,
        Error,
    >)
        ensures
            match decoded {
                Ok((width, height, data)) => result == Ok::<Image, Error>(
                    Image { width, height, data },
                ),
                Err(error) => result == Err::<Image, Error>(Error::BadImage(error)),
            },
    {
        match decoded {
            Ok((width, height, data)) => Ok(Image { width, height, data }),
            Err(error) => Err(Error::BadImage(error)),
        }
    }
}

/// A well-formed image has data for every one of its pixels: a cell is empty
/// only where the pixel's alpha is zero.
pub proof fn well_formed_image_holds_every_pixel(image: Image, x: int, y: int)
    requires
        image.well_formed(),
        0 <= x < image.width,
        0 <= y < image.height,
    ensures
        0 <= 4 * (y * image.width + x),
        4 * (y * image.width + x) + 4 <= image.data@.len(),
        image_cell(image.width as int, image.data@, x, y) is None <==> image.data@[4 * (y
            * image.width + x) + 3] == 0,
{
    let pixel = y * image.width + x;
    assert(0 <= pixel && 4 * pixel + 4 <= 4 * image.width * image.height) by (nonlinear_arith)
        requires
            pixel == y * image.width + x,
            0 <= x < image.width,
            0 <= y < image.height,
    ;
}

impl Shape for Image {
    open spec fn pixels(&self) -> Pixels {
        image_pixels(*self)
    }

    fn render(&self) -> (grid: PixelGrid) {
        let pixels: u64 = (self.data.len() / 4) as u64;
        let mut grid: PixelGrid = Vec::new();
        let mut y: u32 = 0;
        while y < self.height
            invariant
                y <= self.height,
                grid@.len() == y,
                pixels == self.data@.len() / 4,
                self.data@.len() <= usize::MAX,
                forall|r: int| 0 <= r < y ==> (#[trigger] grid@[r])@ == image_pixels(*self)[r],
            decreases self.height - y,
        {
            let mut row: Vec<Option<Color>> = Vec::new();
            let mut x: u32 = 0;
            while x < self.width
                invariant
                    x <= self.width,
                    y < self.height,
                    row@.len() == x,
                    pixels == self.data@.len() / 4,
                    self.data@.len() <= usize::MAX,
                    forall|c: int|
                        0 <= c < x ==> #[trigger] row@[c] == image_cell(
                            self.width as int,
                            self.data@,
                            c,
                            y as int,
                        ),
                decreases self.width - x,
            {
                assert(y as int * self.width as int + x as int <= 0xffff_ffff * 0xffff_ffff
                    + 0xffff_ffff) by (nonlinear_arith)
                    requires
                        0 <= y <= 0xffff_ffff,
                        0 <= self.width <= 0xffff_ffff,
                        0 <= x <= 0xffff_ffff,
                ;
                assert(0 <= y as int * self.width as int) by (nonlinear_arith)
                    requires
                        0 <= y,
                        0 <= self.width,
                ;
                let index: u64 = y as u64 * self.width as u64 + x as u64;
                let cell = if index < pixels {
                    assert(4 * (self.data@.len() / 4) <= self.data@.len());
                    assert(index * 4 + 4 <= self.data@.len());
                    let at = (index * 4) as usize;
                    if self.data[at + 3] != 0 {
                        Some(
                            Color {
                                red: self.data[at],
                                green: self.data[at + 1],
                                blue: self.data[at + 2],
                                alpha: self.data[at + 3],
                            },
                        )
                    } else {
                        None
                    }
                } else {
                    None
                };
                row.push(cell);
                x += 1;
            }
            assert(row@ =~= image_pixels(*self)[y as int]);
            grid.push(row);
            y += 1;
        }
        assert(pixels_of(&grid) =~= image_pixels(*self));
        grid
    }

    open spec fn kind(self) -> ShapeKind {
        ShapeKind::Image(self)
    }

    fn into_kind(self) -> (kind: ShapeKind) {
        assert(Self::of_kind(ShapeKind::Image(self)) == Some(self));
        ShapeKind::Image(self)
    }

    open spec fn of_kind(kind: ShapeKind) -> Option<Self> {
        match kind {
            ShapeKind::Image(image) => Some(image),
            _ => None,
        }
    }

    fn peek(kind: &ShapeKind) -> (inner: Option<&Self>) {
        match kind {
            ShapeKind::Image(image) => Some(image),
            _ => None,
        }
    }

    fn peek_mut(kind: &mut ShapeKind) -> (inner: Option<&mut Self>) {
        match kind {
            ShapeKind::Image(image) => Some(image),
            _ => None,
        }
    }
}

} // verus!
