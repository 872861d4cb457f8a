//! A caption: a text with the settings by which it is laid out.

use vstd::prelude::*;
use vstd::string::StringExecFns;
use vstd::utf8::{encode_utf8, is_char_boundary};
use crate::color::Color;
use crate::grid::{pixels_of, rectangular, rows_have_width, PixelGrid, Pixels};
use crate::text::align::{align_line, aligned, Alignment};
use crate::text::assemble::{assemble, lines_of, paragraph, paragraph_width};
use crate::text::breaks::{
    after_cuts,
    at_char_boundaries,
    collect_line_breaks,
    in_sequence,
    in_text_order,
    kinds,
    mandatory_offsets,
    run_reads_prefix,
    stretches,
    unicode_line_breaks,
    without_limit_only_mandatory_breaks,
    Breaking,
    LineBreaker,
    Opportunity,
};
use crate::text::line::{line_pixels, render_line, GlyphMask};

verus! {

/// A single- or multi-line text. Lines are wrapped softly where `max_width`
/// is set.
#[derive(Debug)]
pub struct Caption {
    /// The text.
    pub text: String,
    /// Font size in pixels: the height of one line.
    pub size: u32,
    /// Color of the text.
    pub color: Color,
    /// The width at which lines are wrapped; `None` disables wrapping.
    pub max_width: Option<usize>,
    /// How lines are aligned.
    pub alignment: Alignment,
}

/// Collects the fields of a [`Caption`]. Text and size must be given; the
/// color is black, wrapping is off and lines are aligned left unless set
/// otherwise.
#[derive(Debug)]
pub struct CaptionBuilder {
    pub text: Option<String>,
    pub size: Option<u32>,
    pub color: Option<Color>,
    pub max_width: Option<usize>,
    pub alignment: Option<Alignment>,
}

impl Default for CaptionBuilder {
    fn default() -> (builder: CaptionBuilder)
        ensures
            builder == (CaptionBuilder {
                text: None,
                size: None,
                color: None,
                max_width: None,
                alignment: None,
            }),
    {
        CaptionBuilder { text: None, size: None, color: None, max_width: None, alignment: None }
    }
}

impl CaptionBuilder {
    /// Sets the text.
    pub fn text(&mut self, value: String) -> (this: &mut CaptionBuilder)
        ensures
            *this == (CaptionBuilder { text: Some(value), ..*old(self) }),
            *final(self) == *final(this),
    {
        self.text = Some(value);
        self
    }

    /// Sets the font size in pixels.
    pub fn size(&mut self, value: u32) -> (this: &mut CaptionBuilder)
        ensures
            *this == (CaptionBuilder { size: Some(value), ..*old(self) }),
            *final(self) == *final(this),
    {
        self.size = Some(value);
        self
    }

    /// Sets the color of the text.
    pub fn color(&mut self, value: Color) -> (this: &mut CaptionBuilder)
        ensures
            *this == (CaptionBuilder { color: Some(value), ..*old(self) }),
            *final(self) == *final(this),
    {
        self.color = Some(value);
        self
    }

    /// Sets the width at which lines are wrapped.
    pub fn max_width(&mut self, value: usize) -> (this: &mut CaptionBuilder)
        ensures
            *this == (CaptionBuilder { max_width: Some(value), ..*old(self) }),
            *final(self) == *final(this),
    {
        self.max_width = Some(value);
        self
    }

    /// Sets the alignment of the lines.
    pub fn alignment(&mut self, value: Alignment) -> (this: &mut CaptionBuilder)
        ensures
            *this == (CaptionBuilder { alignment: Some(value), ..*old(self) }),
            *final(self) == *final(this),
    {
        self.alignment = Some(value);
        self
    }

    /// Builds the caption, or says which of text and size is missing.
    pub fn build(&self) -> (result: Result<Caption, String>)
        ensures
            match result {
                Ok(caption) => {
                    &&& self.text matches Some(text) && caption.text@ == text@
                    &&& self.size == Some(caption.size)
                    &&& caption.color == match self.color {
                        Some(color) => color,
                        None => Color { red: 0, green: 0, blue: 0, alpha: 255 },
                    }
                    &&& caption.max_width == self.max_width
                    &&& caption.alignment == match self.alignment {
                        Some(alignment) => alignment,
                        None => Alignment::Left,
                    }
                },
                Err(complaint) => if self.text is None {
                    complaint@ == "`text` must be initialized"@
                } else {
                    self.size is None && complaint@ == "`size` must be initialized"@
                },
            },
    {
        let text = match &self.text {
            Some(text) => String::from_str(text.as_str()),
            None => {
                return Err(String::from_str("`text` must be initialized"));
            },
        };
        let size = match self.size {
            Some(size) => size,
            None => {
                return Err(String::from_str("`size` must be initialized"));
            },
        };
        let color = match self.color {
            Some(color) => color,
            None => Color { red: 0, green: 0, blue: 0, alpha: 255 },
        };
        let alignment = match self.alignment {
            Some(alignment) => alignment,
            None => Alignment::Left,
        };
        Ok(Caption { text, size, color, max_width: self.max_width, alignment })
    }
}

/// Whether `events` are the opportunities `breaks`, each with a width that
/// `measure` gave for the stretch from the start of the line that was current
/// at the time up to the opportunity. Where nothing had to be measured, the
/// width is 0.
pub open spec fn measured_with<F: Fn(usize, usize) -> usize>(
    bytes: Seq<u8>,
    max_width: Option<usize>,
    breaks: Seq<(usize, bool)>,
    events: Seq<Opportunity>,
    measure: F,
) -> bool {
    &&& events.len() == breaks.len()
    &&& forall|i: int|
        0 <= i < events.len() ==> {
            let state = Breaking::start(bytes, max_width).run(events, i as nat);
            &&& (#[trigger] events[i]).offset == breaks[i].0
            &&& events[i].mandatory == breaks[i].1
            &&& if max_width is Some && state.accepts(events[i].offset) {
                measure.ensures((state.segment_start, events[i].offset), events[i].width)
            } else {
                events[i].width == 0
            }
        }
}

/// The lines of a text that is not wrapped: the stretches between consecutive
/// mandatory breaks, then the rest of the text behind the last of them, if
/// anything is left.
pub open spec fn unlimited_lines(breaks: Seq<(usize, bool)>, len: nat) -> Seq<(usize, usize)> {
    let cuts = mandatory_offsets(breaks);
    if after_cuts(cuts) < len {
        stretches(cuts).push((after_cuts(cuts), len as usize))
    } else {
        stretches(cuts)
    }
}

/// Whether `from` and `to` mark a piece of the text: both are character
/// boundaries of `bytes`, and `from` does not lie behind `to`.
pub open spec fn piece_of_text(bytes: Seq<u8>, from: usize, to: usize) -> bool {
    &&& from <= to <= bytes.len()
    &&& is_char_boundary(bytes, from as int)
    &&& is_char_boundary(bytes, to as int)
}

/// Whether `rasters` are what `rasterize` gave for each of `lines`: the width
/// of the line in columns and the masks of its glyphs.
pub open spec fn rasterized_with<R: Fn(usize, usize) -> (usize, Vec<GlyphMask>)>(
    lines: Seq<(usize, usize)>,
    rasters: Seq<(usize, Vec<GlyphMask>)>,
    rasterize: R,
) -> bool {
    &&& rasters.len() == lines.len()
    &&& forall|k: int|
        0 <= k < lines.len() ==> rasterize.ensures((lines[k].0, lines[k].1), #[trigger] rasters[k])
}

/// The grids of the lines drawn from `rasters`, each `size` rows high.
pub open spec fn drawn_lines(rasters: Seq<(usize, Vec<GlyphMask>)>, size: u32, color: Color) -> Seq<Pixels> {
    Seq::new(
        rasters.len(),
        |k: int| line_pixels(rasters[k].0 as int, size as int, color, rasters[k].1@),
    )
}

impl Caption {
    /// A builder with nothing set.
    pub fn builder() -> (builder: CaptionBuilder)
        ensures
            builder == (CaptionBuilder {
                text: None,
                size: None,
                color: None,
                max_width: None,
                alignment: None,
            }),
    {
        CaptionBuilder::default()
    }

    /// The break opportunities of the text, in text order: the byte offset of
    /// each and whether a line must end there.
    pub fn line_breaks(&self) -> (breaks: Vec<(usize, bool)>)
        ensures
            breaks@ == unicode_line_breaks(self.text@),
            in_text_order(breaks@, encode_utf8(self.text@).len()),
            at_char_boundaries(breaks@, encode_utf8(self.text@)),
    {
        collect_line_breaks(self.text.as_str())
    }

    /// A line breaker at the start of the text, wrapping at `max_width`.
    pub fn breaker(&self) -> (breaker: LineBreaker<'_>)
        ensures
            breaker@ == Breaking::start(encode_utf8(self.text@), self.max_width),
            breaker@.well_formed(),
            breaker@.on_boundaries(),
    {
        LineBreaker::new(self.text.as_str(), self.max_width)
    }

    /// Breaks the text into lines, given as byte ranges. `measure` is asked
    /// for the width of a piece of the text; it is asked only where a limit is
    /// set, once for each break opportunity, from the start of the current
    /// line up to the opportunity. The lines are what a [`LineBreaker`] makes
    /// of the opportunities with these widths: they lie within the text, one
    /// behind the other, and start and end between characters. An empty text
    /// has no lines, and a text that ends in a mandatory break has none behind
    /// that break.
    pub fn split_text<F: Fn(usize, usize) -> usize>(&self, measure: F) -> (lines: Vec<(usize, usize)>)
        requires
            forall|from: usize, to: usize|
                piece_of_text(encode_utf8(self.text@), from, to) ==> #[trigger] measure.requires(
                    (from, to),
                ),
        ensures
            exists|events: Seq<Opportunity>|
                {
                    &&& measured_with(
                        encode_utf8(self.text@),
                        self.max_width,
                        unicode_line_breaks(self.text@),
                        events,
                        measure,
                    )
                    &&& lines@ == Breaking::start(encode_utf8(self.text@), self.max_width).run(
                        events,
                        events.len(),
                    ).all_lines()
                },
            forall|k: int|
                0 <= k < lines@.len() ==> piece_of_text(
                    encode_utf8(self.text@),
                    (#[trigger] lines@[k]).0,
                    lines@[k].1,
                ),
            in_sequence(lines@),
            self.text@.len() == 0 ==> lines@.len() == 0,
            self.max_width is None ==> lines@ == unlimited_lines(
                unicode_line_breaks(self.text@),
                encode_utf8(self.text@).len(),
            ),
    {
        let breaks = self.line_breaks();
        let mut breaker = self.breaker();
        let ghost bytes = encode_utf8(self.text@);
        let ghost start = Breaking::start(bytes, self.max_width);
        let ghost mut events: Seq<Opportunity> = Seq::empty();
        let mut i: usize = 0;
        while i < breaks.len()
            invariant
                i <= breaks@.len(),
                breaks@ == unicode_line_breaks(self.text@),
                in_text_order(breaks@, bytes.len()),
                at_char_boundaries(breaks@, bytes),
                bytes == encode_utf8(self.text@),
                start == Breaking::start(bytes, self.max_width),
                events.len() == i,
                breaker@ == start.run(events, i as nat),
                breaker@.well_formed(),
                breaker@.on_boundaries(),
                breaker@.bytes == bytes,
                breaker@.max_width == self.max_width,
                measured_with(bytes, self.max_width, breaks@.take(i as int), events, measure),
                forall|from: usize, to: usize|
                    piece_of_text(bytes, from, to) ==> #[trigger] measure.requires((from, to)),
            decreases breaks@.len() - i,
        {
            let (offset, mandatory) = breaks[i];
            let width = match breaker.span_to_measure(offset) {
                Some((from, to)) => measure(from, to),
                None => 0,
            };
            let ghost before = breaker@;
            let ghost earlier = events;
            let ghost event = Opportunity { offset, mandatory, width };
            breaker.advance(offset, mandatory, width);
            proof {
                events = earlier.push(event);
                run_reads_prefix(start, earlier, events, i as nat);
                assert(breaks@.take(i + 1).len() == i + 1);
                assert forall|j: int| 0 <= j < events.len() implies {
                    let state = start.run(events, j as nat);
                    &&& (#[trigger] events[j]).offset == breaks@.take(i + 1)[j].0
                    &&& events[j].mandatory == breaks@.take(i + 1)[j].1
                    &&& if self.max_width is Some && state.accepts(events[j].offset) {
                        measure.ensures((state.segment_start, events[j].offset), events[j].width)
                    } else {
                        events[j].width == 0
                    }
                } by {
                    run_reads_prefix(start, earlier, events, j as nat);
                    if j < i {
                        assert(events[j] == earlier[j]);
                        assert(breaks@.take(i + 1)[j] == breaks@.take(i as int)[j]);
                    }
                }
            }
            i += 1;
        }
        assert(breaks@.take(i as int) =~= breaks@);
        proof {
            if self.max_width is None {
                assert(kinds(events) =~= breaks@);
                without_limit_only_mandatory_breaks(bytes, events);
            }
            if self.text@.len() == 0 {
                assert(bytes.len() == 0);
                if breaks@.len() > 0 {
                    assert(0 < breaks@[0].0 <= bytes.len());
                }
            }
        }
        breaker.finish()
    }

    /// Renders the caption. The font's part is done by the two functions:
    /// `measure` gives the width of a piece of the text, and `rasterize`
    /// gives, for a piece of the text, the width of its line in columns and
    /// the masks of its glyphs. The text is broken into lines as
    /// [`Caption::split_text`] does, each line is drawn as
    /// [`Caption::render_line`] does, and the lines are stacked as
    /// [`Caption::assemble`] does, with `line_gap` empty rows after each. An
    /// empty text has no lines and renders to a grid without rows.
    pub fn render<M, R>(&self, line_gap: u32, measure: M, rasterize: R) -> (grid: PixelGrid) where
        M: Fn(usize, usize) -> usize,
        R: Fn(usize, usize) -> (usize, Vec<GlyphMask>),

        requires
            forall|from: usize, to: usize|
                piece_of_text(encode_utf8(self.text@), from, to) ==> #[trigger] measure.requires(
                    (from, to),
                ),
            forall|from: usize, to: usize|
                piece_of_text(encode_utf8(self.text@), from, to) ==> #[trigger] rasterize.requires(
                    (from, to),
                ),
        ensures
            exists|events: Seq<Opportunity>, rasters: Seq<(usize, Vec<GlyphMask>)>|
                {
                    &&& measured_with(
                        encode_utf8(self.text@),
                        self.max_width,
                        unicode_line_breaks(self.text@),
                        events,
                        measure,
                    )
                    &&& rasterized_with(
                        Breaking::start(encode_utf8(self.text@), self.max_width).run(
                            events,
                            events.len(),
                        ).all_lines(),
                        rasters,
                        rasterize,
                    )
                    &&& pixels_of(&grid) == paragraph(
                        drawn_lines(rasters, self.size, self.color),
                        line_gap as int,
                        self.max_width,
                        self.alignment,
                    )
                },
            rectangular(pixels_of(&grid)),
            self.text@.len() == 0 ==> grid@.len() == 0,
    {
        let ranges = self.split_text(measure);
        let ghost bytes = encode_utf8(self.text@);
        let ghost events = choose|events: Seq<Opportunity>|
            {
                &&& measured_with(
                    bytes,
                    self.max_width,
                    unicode_line_breaks(self.text@),
                    events,
                    measure,
                )
                &&& ranges@ == Breaking::start(bytes, self.max_width).run(
                    events,
                    events.len(),
                ).all_lines()
            };
        let ghost mut rasters: Seq<(usize, Vec<GlyphMask>)> = Seq::empty();
        let mut lines: Vec<PixelGrid> = Vec::new();
        let mut k: usize = 0;
        while k < ranges.len()
            invariant
                k <= ranges@.len(),
                bytes == encode_utf8(self.text@),
                rasters.len() == k,
                lines@.len() == k,
                rasterized_with(ranges@.take(k as int), rasters, rasterize),
                lines_of(&lines) == drawn_lines(rasters, self.size, self.color),
                forall|j: int|
                    0 <= j < ranges@.len() ==> piece_of_text(
                        bytes,
                        (#[trigger] ranges@[j]).0,
                        ranges@[j].1,
                    ),
                forall|from: usize, to: usize|
                    piece_of_text(bytes, from, to) ==> #[trigger] rasterize.requires((from, to)),
            decreases ranges@.len() - k,
        {
            let (from, to) = ranges[k];
            let (width, glyphs) = rasterize(from, to);
            let line = self.render_line(width, &glyphs);
            let ghost earlier = rasters;
            let ghost drawn = lines_of(&lines);
            lines.push(line);
            proof {
                rasters = earlier.push((width, glyphs));
                assert forall|j: int| 0 <= j < ranges@.take(k + 1).len() implies rasterize.ensures(
                    (ranges@.take(k + 1)[j].0, ranges@.take(k + 1)[j].1),
                    #[trigger] rasters[j],
                ) by {
                    if j < k {
                        assert(rasters[j] == earlier[j]);
                        assert(ranges@.take(k + 1)[j] == ranges@.take(k as int)[j]);
                    }
                }
                assert(lines_of(&lines) =~= drawn.push(pixels_of(&lines@[k as int])));
                assert(lines_of(&lines) =~= drawn_lines(rasters, self.size, self.color));
            }
            k += 1;
        }
        assert(ranges@.take(k as int) =~= ranges@);
        let grid = self.assemble(&lines, line_gap);
        assert(self.text@.len() == 0 ==> pixels_of(&grid).len() == 0);
        grid
    }

    /// Draws one line of `width` columns from the masks of its glyphs, in the
    /// caption's color and as high as the font size.
    pub fn render_line(&self, width: usize, glyphs: &Vec<GlyphMask>) -> (grid: PixelGrid)
        ensures
            pixels_of(&grid) == line_pixels(width as int, self.size as int, self.color, glyphs@),
    {
        render_line(self.color, self.size, width, glyphs)
    }

    /// Pads or clips a rendered line to `width` columns by the caption's
    /// alignment.
    pub fn align_line(&self, line: &PixelGrid, width: usize) -> (grid: PixelGrid)
        ensures
            pixels_of(&grid) == aligned(pixels_of(line), width as int, self.alignment),
    {
        align_line(line, width, self.alignment)
    }

    /// Stacks the rendered lines into the caption's grid: as wide as
    /// `max_width` where it is set, else as the widest line, each line aligned
    /// and followed by `line_gap` empty rows.
    pub fn assemble(&self, lines: &Vec<PixelGrid>, line_gap: u32) -> (grid: PixelGrid)
        ensures
            pixels_of(&grid) == paragraph(
                lines_of(lines),
                line_gap as int,
                self.max_width,
                self.alignment,
            ),
            rows_have_width(
                pixels_of(&grid),
                paragraph_width(lines_of(lines), self.max_width) as int,
            ),
    {
        assemble(lines, line_gap, self.max_width, self.alignment)
    }
}

} // verus!
