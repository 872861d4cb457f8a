//! Shapes: anything that renders to a rectangular grid of pixels.

use vstd::prelude::*;
use vstd::string::StringExecFns;
use crate::compositor::{composed, render_layers, Compositor};
use crate::grid::{pixels_of, rectangular, uniform, PixelGrid, Pixels};
use crate::image::image_pixels;
use crate::text::align::aligned;

pub use crate::bitmap::Bitmap;
pub use crate::color::Color;
pub use crate::image::Image;
pub use crate::text::{Alignment, Caption, CaptionBuilder, FontBuilder};

verus! {

/// Something that can be drawn.
pub trait Shape: Sized {
    /// The grid that [`Shape::render`] produces: a function of the shape's
    /// fields alone.
    spec fn pixels(&self) -> Pixels;

    /// Renders the shape. Every row of the grid has the same length.
    fn render(&self) -> (grid: PixelGrid)
        ensures
            pixels_of(&grid) == self.pixels(),
            rectangular(self.pixels()),
    ;

    /// The shape as one of the kinds that a compositor stores.
    spec fn kind(self) -> ShapeKind;

    /// Wraps the shape into the kind that stands for it. The kind renders
    /// as the shape does, and gives the shape back when it is asked for a
    /// shape of this type.
    fn into_kind(self) -> (kind: ShapeKind)
        ensures
            kind == self.kind(),
            kind_pixels(kind) == self.pixels(),
            Self::of_kind(kind) == Some(self),
    ;

    /// The shape inside `kind`, if `kind` holds a shape of this type.
    spec fn of_kind(kind: ShapeKind) -> Option<Self>;

    /// A shared reference to the shape inside `kind`, if `kind` holds a shape
    /// of this type. The shape that is found is the one that `kind` stands
    /// for.
    fn peek(kind: &ShapeKind) -> (inner: Option<&Self>)
        ensures
            inner == match Self::of_kind(*kind) {
                Some(shape) => Some(&shape),
                None => None,
            },
            inner matches Some(shape) ==> (*shape).kind() == *kind,
    ;

    /// An exclusive reference to the shape inside `kind`, if `kind` holds a
    /// shape of this type. The shape that is found is the one that `kind`
    /// stands for, and what is written through the reference is written into
    /// `kind`: where nothing is written, `kind` stays as it was.
    fn peek_mut(kind: &mut ShapeKind) -> (inner: Option<&mut Self>)
        ensures
            match inner {
                Some(shape) => {
                    &&& Self::of_kind(*old(kind)) == Some(*shape)
                    &&& (*shape).kind() == *old(kind)
                    &&& *final(kind) == (*final(shape)).kind()
                },
                None => Self::of_kind(*old(kind)) is None && *final(kind) == *old(kind),
            },
    ;

    /// Places the shape with its top left corner at (`x`, `y`). The placed
    /// shape renders as the shape does, and holds it as a shape of this type.
    fn at(self, x: usize, y: usize) -> (placed: PositionedShape)
        ensures
            placed == (PositionedShape { x, y, shape: self.kind() }),
            kind_pixels(placed.shape) == self.pixels(),
            Self::of_kind(placed.shape) == Some(self),
    {
        PositionedShape { x, y, shape: self.into_kind() }
    }
}

/// The closed set of shapes that a compositor can hold.
#[derive(Debug)]
pub enum ShapeKind {
    Rectangle(Rectangle),
    Image(Image),
    Bitmap(Bitmap),
    Compositor(Compositor),
}

/// A shape together with the place of its top left corner on a canvas.
#[derive(Debug)]
pub struct PositionedShape {
    pub x: usize,
    pub y: usize,
    pub shape: ShapeKind,
}

/// A rectangle with an optional border and an optional filling.
#[derive(Debug)]
pub struct Rectangle {
    /// Width in pixels, border included.
    pub width: usize,
    /// Height in pixels, border included.
    pub height: usize,
    /// Width of the border; 0 for none.
    pub border_width: usize,
    /// Color of the border; `None` leaves it undrawn.
    pub border_color: Option<Color>,
    /// Color of the inside; `None` leaves it undrawn.
    pub fill_color: Option<Color>,
}

/// Collects the fields of a [`Rectangle`]. Width and height must be given;
/// the border is one pixel wide unless set otherwise, and border and filling
/// are undrawn unless a color is set.
#[derive(Debug, Clone, Copy)]
pub struct RectangleBuilder {
    pub width: Option<usize>,
    pub height: Option<usize>,
    pub border_width: Option<usize>,
    pub border_color: Option<Color>,
    pub fill_color: Option<Color>,
}

/// What building gives for the fields collected so far: the rectangle, or the
/// complaint about the first of width and height that is missing.
pub open spec fn built_rectangle(builder: RectangleBuilder) -> Result<Rectangle, Seq<char>> {
    if builder.width is None {
        Err("`width` must be initialized"@)
    } else if builder.height is None {
        Err("`height` must be initialized"@)
    } else {
        Ok(
            Rectangle {
                width: builder.width->0,
                height: builder.height->0,
                border_width: match builder.border_width {
                    Some(border_width) => border_width,
                    None => 1,
                },
                border_color: builder.border_color,
                fill_color: builder.fill_color,
            },
        )
    }
}

impl Default for RectangleBuilder {
    fn default() -> (builder: RectangleBuilder)
        ensures
            builder == (RectangleBuilder {
                width: None,
                height: None,
                border_width: None,
                border_color: None,
                fill_color: None,
            }),
    {
        RectangleBuilder {
            width: None,
            height: None,
            border_width: None,
            border_color: None,
            fill_color: None,
        }
    }
}

impl RectangleBuilder {
    /// Sets the width, border included.
    pub fn width(&mut self, value: usize) -> (this: &mut RectangleBuilder)
        ensures
            *this == (RectangleBuilder { width: Some(value), ..*old(self) }),
            *final(self) == *final(this),
    {
        self.width = Some(value);
        self
    }

    /// Sets the height, border included.
    pub fn height(&mut self, value: usize) -> (this: &mut RectangleBuilder)
        ensures
            *this == (RectangleBuilder { height: Some(value), ..*old(self) }),
            *final(self) == *final(this),
    {
        self.height = Some(value);
        self
    }

    /// Sets the width of the border; 0 disables it.
    pub fn border_width(&mut self, value: usize) -> (this: &mut RectangleBuilder)
        ensures
            *this == (RectangleBuilder { border_width: Some(value), ..*old(self) }),
            *final(self) == *final(this),
    {
        self.border_width = Some(value);
        self
    }

    /// Sets the color of the border.
    pub fn border_color(&mut self, value: Color) -> (this: &mut RectangleBuilder)
        ensures
            *this == (RectangleBuilder { border_color: Some(value), ..*old(self) }),
            *final(self) == *final(this),
    {
        self.border_color = Some(value);
        self
    }

    /// Sets the color of the filling.
    pub fn fill_color(&mut self, value: Color) -> (this: &mut RectangleBuilder)
        ensures
            *this == (RectangleBuilder { fill_color: Some(value), ..*old(self) }),
            *final(self) == *final(this),
    {
        self.fill_color = Some(value);
        self
    }

    /// Builds the rectangle, or says which of width and height is missing.
    pub fn build(&self) -> (result: Result<Rectangle, String>)
        ensures
            match built_rectangle(*self) {
                Ok(rectangle) => result == Ok::<Rectangle, String>(rectangle),
                Err(complaint) => result matches Err(text) && text@ == complaint,
            },
    {
        let width = match self.width {
            Some(width) => width,
            None => {
                return Err(String::from_str("`width` must be initialized"));
            },
        };
        let height = match self.height {
            Some(height) => height,
            None => {
                return Err(String::from_str("`height` must be initialized"));
            },
        };
        let border_width = match self.border_width {
            Some(border_width) => border_width,
            None => 1,
        };
        Ok(
            Rectangle {
                width,
                height,
                border_width,
                border_color: self.border_color,
                fill_color: self.fill_color,
            },
        )
    }
}

impl Rectangle {
    /// A builder with nothing set.
    pub fn builder() -> (builder: RectangleBuilder)
        ensures
            builder == (RectangleBuilder {
                width: None,
                height: None,
                border_width: None,
                border_color: None,
                fill_color: None,
            }),
    {
        RectangleBuilder::default()
    }
}

/// Whether the cell at (`x`, `y`) lies within `border_width` of an edge.
pub open spec fn on_border(rectangle: Rectangle, x: int, y: int) -> bool {
    ||| x < rectangle.border_width
    ||| x + rectangle.border_width >= rectangle.width
    ||| y < rectangle.border_width
    ||| y + rectangle.border_width >= rectangle.height
}

/// The cell of a rectangle at (`x`, `y`).
pub open spec fn rectangle_cell(rectangle: Rectangle, x: int, y: int) -> Option<Color> {
    if on_border(rectangle, x, y) {
        rectangle.border_color
    } else {
        rectangle.fill_color
    }
}

/// The grid of a rectangle.
pub open spec fn rectangle_pixels(rectangle: Rectangle) -> Pixels {
    Seq::new(
        rectangle.height as nat,
        |y: int| Seq::new(rectangle.width as nat, |x: int| rectangle_cell(rectangle, x, y)),
    )
}

/// The grid of any stored shape.
pub open spec fn kind_pixels(kind: ShapeKind) -> Pixels
    decreases kind,
{
    match kind {
        ShapeKind::Rectangle(rectangle) => rectangle_pixels(rectangle),
        ShapeKind::Image(image) => image_pixels(image),
        ShapeKind::Bitmap(bitmap) => aligned(
            pixels_of(&bitmap.rows),
            bitmap.width as int,
            Alignment::Left,
        ),
        ShapeKind::Compositor(compositor) => composed(compositor, compositor.shapes@.len()),
    }
}

impl Shape for Rectangle {
    open spec fn pixels(&self) -> Pixels {
        rectangle_pixels(*self)
    }

    fn render(&self) -> (grid: PixelGrid) {
        let inner_width = if self.border_width <= self.width {
            self.width - self.border_width
        } else {
            0
        };
        let inner_height = if self.border_width <= self.height {
            self.height - self.border_width
        } else {
            0
        };
        let mut grid: PixelGrid = Vec::new();
        let mut y: usize = 0;
        while y < self.height
            invariant
                y <= self.height,
                grid@.len() == y,
                inner_width == if self.border_width <= self.width {
                    self.width - self.border_width
                } else {
                    0
                },
                inner_height == if self.border_width <= self.height {
                    self.height - self.border_width
                } else {
                    0
                },
                forall|r: int| 0 <= r < y ==> (#[trigger] grid@[r])@ == rectangle_pixels(*self)[r],
            decreases self.height - y,
        {
            let mut row: Vec<Option<Color>> = Vec::new();
            let mut x: usize = 0;
            while x < self.width
                invariant
                    x <= self.width,
                    y < self.height,
                    row@.len() == x,
                    inner_width == if self.border_width <= self.width {
                        self.width - self.border_width
                    } else {
                        0
                    },
                    inner_height == if self.border_width <= self.height {
                        self.height - self.border_width
                    } else {
                        0
                    },
                    forall|c: int| 0 <= c < x ==> #[trigger] row@[c] == rectangle_cell(*self, c, y as int),
                decreases self.width - x,
            {
                let border = x < self.border_width || x >= inner_width || y < self.border_width || y
                    >= inner_height;
                assert(border == on_border(*self, x as int, y as int));
                row.push(if border { self.border_color } else { self.fill_color });
                x += 1;
            }
            assert(row@ =~= rectangle_pixels(*self)[y as int]);
            grid.push(row);
            y += 1;
        }
        assert(pixels_of(&grid) =~= rectangle_pixels(*self));
        grid
    }

    open spec fn kind(self) -> ShapeKind {
        ShapeKind::Rectangle(self)
    }

    fn into_kind(self) -> (kind: ShapeKind) {
        assert(Self::of_kind(ShapeKind::Rectangle(self)) == Some(self));
        ShapeKind::Rectangle(self)
    }

    open spec fn of_kind(kind: ShapeKind) -> Option<Self> {
        match kind {
            ShapeKind::Rectangle(rectangle) => Some(rectangle),
            _ => None,
        }
    }

    fn peek(kind: &ShapeKind) -> (inner: Option<&Self>) {
        match kind {
            ShapeKind::Rectangle(rectangle) => Some(rectangle),
            _ => None,
        }
    }

    fn peek_mut(kind: &mut ShapeKind) -> (inner: Option<&mut Self>) {
        match kind {
            ShapeKind::Rectangle(rectangle) => Some(rectangle),
            _ => None,
        }
    }
}

impl ShapeKind {
    /// Renders whichever shape this is.
    pub fn render(&self) -> (grid: PixelGrid)
        ensures
            pixels_of(&grid) == kind_pixels(*self),
        decreases *self,
    {
        match self {
            ShapeKind::Rectangle(rectangle) => rectangle.render(),
            ShapeKind::Image(image) => image.render(),
            ShapeKind::Bitmap(bitmap) => bitmap.render(),
            ShapeKind::Compositor(compositor) => render_layers(compositor, compositor.shapes.len()),
        }
    }
}

impl PositionedShape {
    /// Places `shape` with its top left corner at (`x`, `y`).
    pub fn new<T: Shape>(x: usize, y: usize, shape: T) -> (placed: PositionedShape)
        ensures
            placed == (PositionedShape { x, y, shape: shape.kind() }),
            kind_pixels(placed.shape) == shape.pixels(),
            T::of_kind(placed.shape) == Some(shape),
    {
        PositionedShape { x, y, shape: shape.into_kind() }
    }

    /// A shared reference to the shape inside, if it is a `T`.
    pub fn inner<T: Shape>(&self) -> (inner: Option<&T>)
        ensures
            inner == match T::of_kind(self.shape) {
                Some(shape) => Some(&shape),
                None => None,
            },
            inner matches Some(shape) ==> (*shape).kind() == self.shape,
    {
        T::peek(&self.shape)
    }

    /// An exclusive reference to the shape inside, if it is a `T`.
    pub fn inner_mut<T: Shape>(&mut self) -> (inner: Option<&mut T>)
        ensures
            final(self).x == old(self).x,
            final(self).y == old(self).y,
            match inner {
                Some(shape) => {
                    &&& T::of_kind(old(self).shape) == Some(*shape)
                    &&& (*shape).kind() == old(self).shape
                    &&& final(self).shape == (*final(shape)).kind()
                },
                None => T::of_kind(old(self).shape) is None && final(self).shape == old(self).shape,
            },
    {
        T::peek_mut(&mut self.shape)
    }
}

/// A rectangle without a border renders to a uniform grid of its fill color,
/// of the rectangle's width and height.
pub proof fn borderless_rectangle_is_uniform(rectangle: Rectangle)
    requires
        rectangle.border_width == 0,
    ensures
        rectangle.pixels() == uniform(
            rectangle.width as int,
            rectangle.height as int,
            rectangle.fill_color,
        ),
{
    let grid = rectangle.pixels();
    let flat = uniform(rectangle.width as int, rectangle.height as int, rectangle.fill_color);
    assert forall|y: int| 0 <= y < grid.len() implies #[trigger] grid[y] =~= flat[y] by {
        assert forall|x: int| 0 <= x < grid[y].len() implies #[trigger] grid[y][x] == flat[y][x] by {
            assert(!on_border(rectangle, x, y));
        }
    }
    assert(grid =~= flat);
}

} // verus!
