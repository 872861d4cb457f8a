//! The compositor: named, positioned shapes flattened into one grid.

use vstd::prelude::*;
use vstd::string::StringExecFns;
use crate::color::Color;
use crate::grid::{
    blend,
    covers,
    flatten,
    mix_channel,
    paint,
    paint_onto,
    pixels_of,
    rectangular,
    rows_have_width,
    uniform,
    uniform_grid,
    PixelGrid,
    Pixels,
};
use crate::shape::{kind_pixels, PositionedShape, Shape, ShapeKind};

verus! {

/// A shape that holds other shapes and draws them in the order in which they
/// were added, later ones on top.
#[derive(Debug)]
pub struct Compositor {
    /// Width of the canvas in pixels.
    pub width: usize,
    /// Height of the canvas in pixels.
    pub height: usize,
    /// Color of the canvas before anything is drawn.
    pub background: Color,
    /// The names and shapes held, oldest first.
    pub shapes: Vec<(String, PositionedShape)>,
}

impl Compositor {
    /// An empty compositor of the given size and background.
    pub fn new(width: usize, height: usize, background: Color) -> (compositor: Compositor)
        ensures
            compositor.width == width,
            compositor.height == height,
            compositor.background == background,
            compositor.shapes@ == Seq::<(String, PositionedShape)>::empty(),
    {
        Compositor { width, height, background, shapes: Vec::new() }
    }

    /// A builder with nothing set.
    pub fn builder() -> (builder: CompositorBuilder)
        ensures
            builder == (CompositorBuilder { width: None, height: None, background: None }),
    {
        CompositorBuilder::default()
    }
}

/// Collects the fields of a [`Compositor`]: width, height and background must
/// all be given. The compositor starts without shapes.
#[derive(Debug, Clone, Copy)]
pub struct CompositorBuilder {
    pub width: Option<usize>,
    pub height: Option<usize>,
    pub background: Option<Color>,
}

/// The complaint about the first field that is missing, if one is.
pub open spec fn missing_field(builder: CompositorBuilder) -> Option<Seq<char>> {
    if builder.width is None {
        Some("`width` must be initialized"@)
    } else if builder.height is None {
        Some("`height` must be initialized"@)
    } else if builder.background is None {
        Some("`background` must be initialized"@)
    } else {
        None
    }
}

impl Default for CompositorBuilder {
    fn default() -> (builder: CompositorBuilder)
        ensures
            builder == (CompositorBuilder { width: None, height: None, background: None }),
    {
        CompositorBuilder { width: None, height: None, background: None }
    }
}

impl CompositorBuilder {
    /// Sets the width of the canvas.
    pub fn width(&mut self, value: usize) -> (this: &mut CompositorBuilder)
        ensures
            *this == (CompositorBuilder { width: Some(value), ..*old(self) }),
            *final(self) == *final(this),
    {
        self.width = Some(value);
        self
    }

    /// Sets the height of the canvas.
    pub fn height(&mut self, value: usize) -> (this: &mut CompositorBuilder)
        ensures
            *this == (CompositorBuilder { height: Some(value), ..*old(self) }),
            *final(self) == *final(this),
    {
        self.height = Some(value);
        self
    }

    /// Sets the background color.
    pub fn background(&mut self, value: Color) -> (this: &mut CompositorBuilder)
        ensures
            *this == (CompositorBuilder { background: Some(value), ..*old(self) }),
            *final(self) == *final(this),
    {
        self.background = Some(value);
        self
    }

    /// Builds an empty compositor, or says which field is missing.
    pub fn build(&self) -> (result: Result<Compositor, String>)
        ensures
            match missing_field(*self) {
                None => result matches Ok(compositor) && compositor.width == self.width->0
                    && compositor.height == self.height->0 && compositor.background
                    == self.background->0 && compositor.shapes@ == Seq::<
                    (String, PositionedShape),
                >::empty(),
                Some(complaint) => result matches Err(text) && text@ == complaint,
            },
    {
        let width = match self.width {
            Some(width) => width,
            None => {
                return Err(String::from_str("`width` must be initialized"));
            },
        };
        let height = match self.height {
            Some(height) => height,
            None => {
                return Err(String::from_str("`height` must be initialized"));
            },
        };
        let background = match self.background {
            Some(background) => background,
            None => {
                return Err(String::from_str("`background` must be initialized"));
            },
        };
        Ok(Compositor::new(width, height, background))
    }
}

/// The canvas of `compositor` after its first `count` shapes have been drawn.
pub open spec fn composed(compositor: Compositor, count: nat) -> Pixels
    decreases compositor, count,
{
    if count == 0 || count > compositor.shapes@.len() {
        uniform(compositor.width as int, compositor.height as int, Some(compositor.background))
    } else {
        let placed = compositor.shapes@[count - 1].1;
        paint(
            composed(compositor, (count - 1) as nat),
            kind_pixels(placed.shape),
            placed.x as int,
            placed.y as int,
        )
    }
}

/// Renders the canvas of `compositor` with its first `count` shapes drawn.
pub fn render_layers(compositor: &Compositor, count: usize) -> (grid: PixelGrid)
    requires
        count <= compositor.shapes@.len(),
    ensures
        pixels_of(&grid) == composed(*compositor, count as nat),
    decreases *compositor, count,
{
    let mut grid = uniform_grid(compositor.width, compositor.height, Some(compositor.background));
    let mut i: usize = 0;
    while i < count
        invariant
            i <= count,
            count <= compositor.shapes@.len(),
            pixels_of(&grid) == composed(*compositor, i as nat),
        decreases count - i,
    {
        let placed = &compositor.shapes[i].1;
        let layer = placed.shape.render();
        paint_onto(&mut grid, &layer, placed.x, placed.y);
        i += 1;
    }
    grid
}

/// Whether `index` is the place of the oldest entry called `name`.
pub open spec fn is_first_named(
    entries: Seq<(String, PositionedShape)>,
    name: Seq<char>,
    index: int,
) -> bool {
    &&& 0 <= index < entries.len()
    &&& entries[index].0@ == name
    &&& forall|j: int| 0 <= j < index ==> (#[trigger] entries[j]).0@ != name
}

/// Whether no entry is called `name`.
pub open spec fn none_named(entries: Seq<(String, PositionedShape)>, name: Seq<char>) -> bool {
    forall|j: int| 0 <= j < entries.len() ==> (#[trigger] entries[j]).0@ != name
}

impl Compositor {
    /// Adds `shape` under `name`, on top of everything added before. Names
    /// need not be unique.
    pub fn add(&mut self, name: &str, shape: PositionedShape) -> (this: &mut Compositor)
        ensures
            this.width == old(self).width,
            this.height == old(self).height,
            this.background == old(self).background,
            this.shapes@.len() == old(self).shapes@.len() + 1,
            this.shapes@.drop_last() == old(self).shapes@,
            this.shapes@.last().0@ == name@,
            this.shapes@.last().1 == shape,
            *final(self) == *final(this),
    {
        self.shapes.push((name.to_owned(), shape));
        assert(self.shapes@.drop_last() =~= old(self).shapes@);
        self
    }

    /// The oldest shape called `name`, with its place, or `None` if there is
    /// no such shape. What is written through the reference is written into
    /// the compositor.
    pub fn get_positioned(&mut self, name: &str) -> (found: Option<&mut PositionedShape>)
        ensures
            final(self).width == old(self).width,
            final(self).height == old(self).height,
            final(self).background == old(self).background,
            match found {
                Some(placed) => exists|i: int|
                    #![trigger old(self).shapes@[i]]
                    {
                        &&& is_first_named(old(self).shapes@, name@, i)
                        &&& *placed == old(self).shapes@[i].1
                        &&& final(self).shapes@ == old(self).shapes@.update(
                            i,
                            (old(self).shapes@[i].0, *final(placed)),
                        )
                    },
                None => none_named(old(self).shapes@, name@) && final(self).shapes@ == old(self).shapes@,
            },
    {
        let wanted = name.to_owned();
        let mut i: usize = 0;
        while i < self.shapes.len()
            invariant
                i <= self.shapes@.len(),
                *self == *old(self),
                wanted@ == name@,
                forall|j: int| 0 <= j < i ==> (#[trigger] self.shapes@[j]).0@ != name@,
            decreases self.shapes@.len() - i,
        {
            if self.shapes[i].0 == wanted {
                assert(is_first_named(old(self).shapes@, name@, i as int));
                return Some(&mut self.shapes[i].1);
            }
            i += 1;
        }
        None
    }

    /// The oldest shape called `name`, if it is a `T`. A shape of another type
    /// under that name gives `None`, as a missing name does. What is written
    /// through the reference is written into the compositor; where nothing is
    /// written, the compositor stays as it was.
    pub fn get<T: Shape>(&mut self, name: &str) -> (found: Option<&mut T>)
        ensures
            final(self).width == old(self).width,
            final(self).height == old(self).height,
            final(self).background == old(self).background,
            match found {
                Some(shape) => exists|i: int|
                    #![trigger old(self).shapes@[i]]
                    {
                        &&& is_first_named(old(self).shapes@, name@, i)
                        &&& T::of_kind(old(self).shapes@[i].1.shape) == Some(*shape)
                        &&& (*shape).kind() == old(self).shapes@[i].1.shape
                        &&& final(self).shapes@ == old(self).shapes@.update(
                            i,
                            (
                                old(self).shapes@[i].0,
                                PositionedShape {
                                    x: old(self).shapes@[i].1.x,
                                    y: old(self).shapes@[i].1.y,
                                    shape: (*final(shape)).kind(),
                                },
                            ),
                        )
                    },
                None => final(self).shapes@ == old(self).shapes@ && (none_named(
                    old(self).shapes@,
                    name@,
                ) || exists|i: int|
                    #![trigger old(self).shapes@[i]]
                    is_first_named(old(self).shapes@, name@, i) && T::of_kind(
                        old(self).shapes@[i].1.shape,
                    ) is None),
            },
    {
        match self.get_positioned(name) {
            Some(placed) => placed.inner_mut::<T>(),
            None => None,
        }
    }
}

impl Shape for Compositor {
    open spec fn pixels(&self) -> Pixels {
        composed(*self, self.shapes@.len())
    }

    fn render(&self) -> (grid: PixelGrid) {
        proof {
            composed_has_canvas_size(*self, self.shapes@.len());
        }
        render_layers(self, self.shapes.len())
    }

    open spec fn kind(self) -> ShapeKind {
        ShapeKind::Compositor(self)
    }

    fn into_kind(self) -> (kind: ShapeKind) {
        assert(Self::of_kind(ShapeKind::Compositor(self)) == Some(self));
        ShapeKind::Compositor(self)
    }

    open spec fn of_kind(kind: ShapeKind) -> Option<Self> {
        match kind {
            ShapeKind::Compositor(compositor) => Some(compositor),
            _ => None,
        }
    }

    fn peek(kind: &ShapeKind) -> (inner: Option<&Self>) {
        match kind {
            ShapeKind::Compositor(compositor) => Some(compositor),
            _ => None,
        }
    }

    fn peek_mut(kind: &mut ShapeKind) -> (inner: Option<&mut Self>) {
        match kind {
            ShapeKind::Compositor(compositor) => Some(compositor),
            _ => None,
        }
    }
}

/// However many shapes are drawn, the canvas keeps the compositor's width and
/// height.
pub proof fn composed_has_canvas_size(compositor: Compositor, count: nat)
    ensures
        composed(compositor, count).len() == compositor.height,
        rows_have_width(composed(compositor, count), compositor.width as int),
        rectangular(composed(compositor, count)),
    decreases count,
{
    if count == 0 || count > compositor.shapes@.len() {
    } else {
        composed_has_canvas_size(compositor, (count - 1) as nat);
    }
}

/// Whether `pixels` is a `width` by `height` grid in which every cell holds a
/// fully opaque color.
pub open spec fn opaque_sheet(pixels: Pixels, width: int, height: int) -> bool {
    &&& pixels.len() == height
    &&& rows_have_width(pixels, width)
    &&& forall|r: int, c: int|
        0 <= r < height && 0 <= c < width ==> (#[trigger] pixels[r][c]) is Some
            && pixels[r][c]->Some_0.alpha == 255
}

/// A shape that is opaque everywhere and as large as the canvas, drawn last
/// and at the origin, hides all that lies below it: the compositor renders to
/// the very grid that the shape renders to, whatever the background and the
/// shapes underneath.
pub proof fn opaque_cover_shows_alone(compositor: Compositor)
    requires
        compositor.shapes@.len() > 0,
        compositor.shapes@.last().1.x == 0,
        compositor.shapes@.last().1.y == 0,
        opaque_sheet(
            kind_pixels(compositor.shapes@.last().1.shape),
            compositor.width as int,
            compositor.height as int,
        ),
    ensures
        compositor.pixels() == kind_pixels(compositor.shapes@.last().1.shape),
{
    let count = compositor.shapes@.len();
    let below = composed(compositor, (count - 1) as nat);
    let cover = kind_pixels(compositor.shapes@.last().1.shape);
    composed_has_canvas_size(compositor, (count - 1) as nat);
    let top = paint(below, cover, 0, 0);
    assert(compositor.pixels() == top);
    assert forall|r: int| 0 <= r < top.len() implies #[trigger] top[r] =~= cover[r] by {
        assert forall|c: int| 0 <= c < top[r].len() implies #[trigger] top[r][c] == cover[r][c] by {
            assert(covers(cover, 0, 0, r, c));
            let src = cover[r][c]->Some_0;
            let under = match below[r][c] {
                Some(back) => back,
                None => Color { red: 0, green: 0, blue: 0, alpha: 0 },
            };
            assert(blend(src, under) == src) by {
                opaque_source_wins(src, under);
            }
        }
    }
    assert(top =~= cover);
}

/// An opaque color drawn over any other stays as it is.
pub proof fn opaque_source_wins(src: Color, dst: Color)
    requires
        src.alpha == 255,
    ensures
        blend(src, dst) == src,
{
    let back = flatten(dst);
    assert(mix_channel(src.red, back.red, 255) == src.red);
    assert(mix_channel(src.green, back.green, 255) == src.green);
    assert(mix_channel(src.blue, back.blue, 255) == src.blue);
}

/// A shape whose corner lies right of the canvas or below it leaves no trace:
/// drawing it changes nothing. A compositor that holds only such a shape
/// renders as an empty one does, to its background alone.
pub proof fn shape_off_canvas_changes_nothing(compositor: Compositor, count: nat)
    requires
        0 < count <= compositor.shapes@.len(),
        compositor.shapes@[count - 1].1.x >= compositor.width || compositor.shapes@[count - 1].1.y
            >= compositor.height,
    ensures
        composed(compositor, count) == composed(compositor, (count - 1) as nat),
        count == 1 ==> composed(compositor, count) == uniform(
            compositor.width as int,
            compositor.height as int,
            Some(compositor.background),
        ),
{
    let below = composed(compositor, (count - 1) as nat);
    let placed = compositor.shapes@[count - 1].1;
    composed_has_canvas_size(compositor, (count - 1) as nat);
    let top = paint(below, kind_pixels(placed.shape), placed.x as int, placed.y as int);
    assert forall|r: int| 0 <= r < top.len() implies #[trigger] top[r] =~= below[r] by {
        assert forall|c: int| 0 <= c < top[r].len() implies #[trigger] top[r][c] == below[r][c] by {
            assert(!covers(kind_pixels(placed.shape), placed.x as int, placed.y as int, r, c));
        }
    }
    assert(top =~= below);
}

/// Of two shapes added under one name, a lookup by that name finds the one
/// added first and never the one added second; and a name that was found
/// before the two were added is still found at the same place.
pub proof fn first_of_a_name_wins(
    entries: Seq<(String, PositionedShape)>,
    first: (String, PositionedShape),
    second: (String, PositionedShape),
    name: Seq<char>,
)
    requires
        first.0@ == name,
        second.0@ == name,
    ensures
        forall|i: int|
            is_first_named(entries.push(first).push(second), name, i) ==> i <= entries.len(),
        none_named(entries, name) ==> is_first_named(
            entries.push(first).push(second),
            name,
            entries.len() as int,
        ),
        forall|i: int|
            is_first_named(entries, name, i) ==> is_first_named(
                entries.push(first).push(second),
                name,
                i,
            ),
{
    let both = entries.push(first).push(second);
    assert(both[entries.len() as int] == first);
    assert forall|i: int| is_first_named(both, name, i) implies i <= entries.len() by {
        if i > entries.len() {
            assert(both[entries.len() as int].0@ == name);
        }
    }
    if none_named(entries, name) {
        assert forall|j: int| 0 <= j < entries.len() implies (#[trigger] both[j]).0@ != name by {
            assert(both[j] == entries[j]);
        }
    }
    assert forall|i: int| is_first_named(entries, name, i) implies is_first_named(both, name, i) by {
        assert(both[i] == entries[i]);
        assert forall|j: int| 0 <= j < i implies (#[trigger] both[j]).0@ != name by {
            assert(both[j] == entries[j]);
        }
    }
}

} // verus!
