//! A software compositing and text-layout engine for raw framebuffers.
//!
//! Shapes render themselves into rectangular grids of optional colors, a
//! [`Compositor`] stacks named, positioned shapes into one grid by sequential
//! alpha blending, and the text module breaks a paragraph into lines and
//! assembles the rasterized lines into an aligned grid. A [`Framebuffer`]
//! packs a finished grid into the pixel format of a 32-bit display surface.
//!
//! Every function carries a contract that Verus proves; the few calls into
//! other crates stand behind small trusted wrappers whose doc comments say
//! what is assumed of them.
//!
//! A scene is put together like this:
//! ```ignore
//! use linfb::shape::{Color, Rectangle, Shape};
//! use linfb::Compositor;
//!
//! let mut compositor = Compositor::new(640, 480, (255, 255, 255).into());
//! compositor
//!     .add("rect1", Rectangle::builder()
//!         .width(100)
//!         .height(100)
//!         .fill_color(Color::hex("#ff000099")?)
//!         .build()?
//!         .at(100, 100))
//!     .add("rect2", Rectangle::builder()
//!         .width(100)
//!         .height(100)
//!         .fill_color(Color::hex("#00ff0099")?)
//!         .build()?
//!         .at(150, 150));
//! // A compositor is a shape: it renders to a grid, and a framebuffer draws it.
//! let grid = compositor.render();
//! ```
//!
//! Text needs a font, which this library does not read. The caller measures
//! and rasterizes with the font of its choice and hands the numbers to
//! [`text::Caption::render`]; the grid that comes back goes onto a compositor
//! as a [`shape::Bitmap`].
//!
//! Image files are decoded by the caller as well: [`shape::Image::from_decoded`]
//! takes what the decoder gave, pixels or error.

pub mod bitmap;
pub mod color;
pub mod compositor;
pub mod error;
pub mod framebuffer;
pub mod grid;
pub mod image;
pub mod shape;
pub mod sys;
pub mod text;

pub use compositor::{Compositor, CompositorBuilder};
pub use error::{Error, Result};
pub use framebuffer::Framebuffer;
