//! Grids that were rendered elsewhere, as shapes.

use vstd::prelude::*;
use crate::grid::{pixels_of, PixelGrid, Pixels};
use crate::shape::{Shape, ShapeKind};
use crate::text::align::{align_line, aligned, Alignment};

verus! {

/// A grid of pixels that is drawn as it is: the way for a rendered paragraph,
/// or for anything drawn outside this library, onto a compositor.
#[derive(Debug)]
pub struct Bitmap {
    /// Cells per row. A row of another length is padded with `None` or cut
    /// off at its end when the bitmap is rendered.
    pub width: usize,
    /// The rows, top to bottom.
    pub rows: PixelGrid,
}

impl Bitmap {
    /// A bitmap over `rows`, as wide as the first of them.
    pub fn new(rows: PixelGrid) -> (bitmap: Bitmap)
        ensures
            bitmap.rows == rows,
            bitmap.width == if rows@.len() > 0 {
                rows@[0]@.len()
            } else {
                0
            },
    {
        let width = if rows.len() > 0 {
            rows[0].len()
        } else {
            0
        };
        Bitmap { width, rows }
    }
}

/// A grid whose rows all have `width` cells stays as it is when its rows are
/// fitted to that width.
pub proof fn fitting_rows_are_kept(pixels: Pixels, width: int)
    requires
        forall|r: int| 0 <= r < pixels.len() ==> (#[trigger] pixels[r]).len() == width,
    ensures
        aligned(pixels, width, Alignment::Left) == pixels,
{
    let fitted = aligned(pixels, width, Alignment::Left);
    assert forall|r: int| 0 <= r < pixels.len() implies #[trigger] fitted[r] =~= pixels[r] by {}
    assert(fitted =~= pixels);
}

impl Shape for Bitmap {
    open spec fn pixels(&self) -> Pixels {
        aligned(pixels_of(&self.rows), self.width as int, Alignment::Left)
    }

    fn render(&self) -> (grid: PixelGrid) {
        align_line(&self.rows, self.width, Alignment::Left)
    }

    open spec fn kind(self) -> ShapeKind {
        ShapeKind::Bitmap(self)
    }

    fn into_kind(self) -> (kind: ShapeKind) {
        assert(Self::of_kind(ShapeKind::Bitmap(self)) == Some(self));
        ShapeKind::Bitmap(self)
    }

    open spec fn of_kind(kind: ShapeKind) -> Option<Self> {
        match kind {
            ShapeKind::Bitmap(bitmap) => Some(bitmap),
            _ => None,
        }
    }

    fn peek(kind: &ShapeKind) -> (inner: Option<&Self>) {
        match kind {
            ShapeKind::Bitmap(bitmap) => Some(bitmap),
            _ => None,
        }
    }

    fn peek_mut(kind: &mut ShapeKind) -> (inner: Option<&mut Self>) {
        match kind {
            ShapeKind::Bitmap(bitmap) => Some(bitmap),
            _ => None,
        }
    }
}

} // verus!
