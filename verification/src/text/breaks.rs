//! Line breaking: which stretches of a text become the lines of a paragraph.
//!
//! The break opportunities of a text come from the Unicode line breaking
//! algorithm. A [`LineBreaker`] is then fed one opportunity at a time, each
//! with the measured width of the text since the start of the current line,
//! and decides where lines end.

use vstd::prelude::*;
use vstd::string::StringSliceAdditionalSpecFns;
use vstd::utf8::{
    codepoint_width_2,
    codepoint_width_3,
    encode_utf8_valid_utf8,
    is_char_boundary,
    is_char_boundary_iff_not_is_continuation_byte,
    is_char_boundary_start_end_of_seq,
    is_continuation_byte,
    is_leading_byte_width_2,
    is_leading_byte_width_3,
    valid_utf8,
};
use xi_unicode::LineBreakIterator;

verus! {

/// The break opportunities that the Unicode line breaking algorithm (UAX 14)
/// finds in a text, in text order: the byte offset of each, and whether the
/// break is mandatory. It stands for what `xi_unicode::LineBreakIterator`
/// yields for the text.
pub uninterp spec fn unicode_line_breaks(text: Seq<char>) -> Seq<(usize, bool)>;

/// Whether `breaks` come in text order within a text of `len` bytes: no
/// offset is 0 or lies beyond the text, and each lies behind the one before.
pub open spec fn in_text_order(breaks: Seq<(usize, bool)>, len: nat) -> bool {
    &&& forall|i: int| 0 <= i < breaks.len() ==> 0 < (#[trigger] breaks[i]).0 <= len
    &&& forall|i: int, j: int|
        0 <= i < j < breaks.len() ==> (#[trigger] breaks[i]).0 < (#[trigger] breaks[j]).0
}

/// Whether every offset of `breaks` is a character boundary of `bytes`.
pub open spec fn at_char_boundaries(breaks: Seq<(usize, bool)>, bytes: Seq<u8>) -> bool {
    forall|i: int| 0 <= i < breaks.len() ==> is_char_boundary(bytes, (#[trigger] breaks[i]).0 as int)
}

/// Runs `xi_unicode::LineBreakIterator` over `text` to its end and collects
/// what it yields. The iterator reads nothing but the text, so the result is
/// given a name. Of the result it is assumed that the offsets rise, stay
/// within the text and lie between its characters: the iterator never breaks
/// at the start of a text, walks it forward one whole character at a time,
/// reports a break in front of the character it has reached, and reports its
/// last break at the text's end.
#[verifier::external_body]
pub(crate) fn collect_line_breaks(text: &str) -> (breaks: Vec<(usize, bool)>)
    ensures
        breaks@ == unicode_line_breaks(text@),
        in_text_order(breaks@, text.spec_bytes().len()),
        at_char_boundaries(breaks@, text.spec_bytes()),
{
    LineBreakIterator::new(text).collect()
}

/// Whether a Unicode scalar value has the White_Space property.
pub open spec fn is_white_space(scalar: u32) -> bool {
    ||| 0x09 <= scalar <= 0x0D
    ||| scalar == 0x20
    ||| scalar == 0x85
    ||| scalar == 0xA0
    ||| scalar == 0x1680
    ||| 0x2000 <= scalar <= 0x200A
    ||| scalar == 0x2028
    ||| scalar == 0x2029
    ||| scalar == 0x202F
    ||| scalar == 0x205F
    ||| scalar == 0x3000
}

/// The length in bytes of the white space character whose UTF-8 encoding ends
/// right before `end`, or 0 if no white space character ends there. No white
/// space character takes more than three bytes.
pub open spec fn space_before(bytes: Seq<u8>, end: int) -> int {
    if 1 <= end <= bytes.len() && bytes[end - 1] < 0x80 {
        if is_white_space(bytes[end - 1] as u32) {
            1
        } else {
            0
        }
    } else if 2 <= end <= bytes.len() && is_leading_byte_width_2(bytes[end - 2])
        && is_continuation_byte(bytes[end - 1]) {
        if is_white_space(codepoint_width_2(bytes[end - 2], bytes[end - 1])) {
            2
        } else {
            0
        }
    } else if 3 <= end <= bytes.len() && is_leading_byte_width_3(bytes[end - 3])
        && is_continuation_byte(bytes[end - 2]) && is_continuation_byte(bytes[end - 1]) {
        if is_white_space(codepoint_width_3(bytes[end - 3], bytes[end - 2], bytes[end - 1])) {
            3
        } else {
            0
        }
    } else {
        0
    }
}

/// Where a line that starts at `start` ends when it is broken at the
/// opportunity `at`: in front of the white space character that precedes the
/// opportunity, if there is one and it belongs to the line; else at the
/// opportunity.
pub open spec fn trimmed(bytes: Seq<u8>, start: int, at: int) -> int {
    let space = space_before(bytes, at);
    if space > 0 && at - space >= start {
        at - space
    } else {
        at
    }
}

/// Whether a measured width exceeds the limit, if there is one.
pub open spec fn too_wide(max_width: Option<usize>, width: usize) -> bool {
    match max_width {
        Some(limit) => width > limit,
        None => false,
    }
}

/// The state of line breaking over one text.
pub struct Breaking {
    /// The text as UTF-8.
    pub bytes: Seq<u8>,
    /// The width that a line should not exceed, if any.
    pub max_width: Option<usize>,
    /// Where the text that belongs to no finished line starts.
    pub segment_start: usize,
    /// The most recent opportunity seen.
    pub last_break: Option<usize>,
    /// The finished lines, each from its first byte to behind its last.
    pub lines: Seq<(usize, usize)>,
}

/// One break opportunity as it is handed to a [`LineBreaker`].
pub struct Opportunity {
    /// The byte offset of the opportunity.
    pub offset: usize,
    /// Whether a line must end here.
    pub mandatory: bool,
    /// The measured width of the text from the start of the current line up to
    /// the opportunity; ignored where no limit is set.
    pub width: usize,
}

impl Breaking {
    /// The state before any opportunity has been seen.
    pub open spec fn start(bytes: Seq<u8>, max_width: Option<usize>) -> Breaking {
        Breaking { bytes, max_width, segment_start: 0, last_break: None, lines: Seq::empty() }
    }

    /// Whether `offset` can be the next opportunity: it lies within the text
    /// and not in front of the last one.
    pub open spec fn accepts(self, offset: usize) -> bool {
        &&& offset <= self.bytes.len()
        &&& self.segment_start <= offset
        &&& self.last_break matches Some(last) ==> last <= offset
    }

    /// The state after an overflow has been dealt with: where the text since
    /// the start of the line is too wide and an earlier opportunity is known,
    /// the line ends at that opportunity and the next one starts there.
    pub open spec fn wrapped(self, width: usize) -> Breaking {
        if too_wide(self.max_width, width) && self.last_break is Some {
            let at = self.last_break->0;
            Breaking {
                segment_start: at,
                lines: self.lines.push(
                    (
                        self.segment_start,
                        trimmed(self.bytes, self.segment_start as int, at as int) as usize,
                    ),
                ),
                ..self
            }
        } else {
            self
        }
    }

    /// The state after an opportunity that [`Breaking::accepts`] admits: first
    /// an overflow is dealt with, then a mandatory break ends the line at the
    /// opportunity, and the opportunity becomes the last one seen.
    pub open spec fn stepped(self, offset: usize, mandatory: bool, width: usize) -> Breaking {
        let wrapped = self.wrapped(width);
        if mandatory {
            Breaking {
                segment_start: offset,
                last_break: Some(offset),
                lines: wrapped.lines.push((wrapped.segment_start, offset)),
                ..wrapped
            }
        } else {
            Breaking { last_break: Some(offset), ..wrapped }
        }
    }

    /// The state after one opportunity: one that is not accepted changes
    /// nothing.
    pub open spec fn fed(self, opportunity: Opportunity) -> Breaking {
        if self.accepts(opportunity.offset) {
            self.stepped(opportunity.offset, opportunity.mandatory, opportunity.width)
        } else {
            self
        }
    }

    /// The state after the first `count` of `opportunities`.
    pub open spec fn run(self, opportunities: Seq<Opportunity>, count: nat) -> Breaking
        decreases count,
    {
        if count == 0 || count > opportunities.len() {
            self
        } else {
            self.run(opportunities, (count - 1) as nat).fed(opportunities[count - 1])
        }
    }

    /// All lines once the text has ended: the finished ones, then the rest of
    /// the text if anything is left of it. Where nothing is left there is no
    /// further line: a mandatory break at the very end of a text ends its last
    /// line and starts none, so that a text which ends in a newline gets no
    /// blank line below it, and the empty text has no line at all.
    pub open spec fn all_lines(self) -> Seq<(usize, usize)> {
        if self.segment_start < self.bytes.len() {
            self.lines.push((self.segment_start, self.bytes.len() as usize))
        } else {
            self.lines
        }
    }

    /// What holds of every state that a [`LineBreaker`] gets into: the lines
    /// lie in order within the text, in front of the start of the current
    /// line.
    pub open spec fn well_formed(self) -> bool {
        &&& self.segment_start <= self.bytes.len() <= usize::MAX
        &&& self.last_break matches Some(last) ==> self.segment_start <= last <= self.bytes.len()
        &&& forall|k: int|
            0 <= k < self.lines.len() ==> (#[trigger] self.lines[k]).0 <= self.lines[k].1
                <= self.segment_start
        &&& in_sequence(self.lines)
    }

    /// Whether the state cuts the text between characters only: the start of
    /// the current line, the last opportunity and both ends of every finished
    /// line are character boundaries.
    pub open spec fn on_boundaries(self) -> bool {
        &&& is_char_boundary(self.bytes, self.segment_start as int)
        &&& self.last_break matches Some(last) ==> is_char_boundary(self.bytes, last as int)
        &&& between_characters(self.bytes, self.lines)
    }
}

/// Whether `lines` follow one another without overlap: none starts in front of
/// the end of an earlier one.
pub open spec fn in_sequence(lines: Seq<(usize, usize)>) -> bool {
    forall|j: int, k: int|
        0 <= j < k < lines.len() ==> (#[trigger] lines[j]).1 <= (#[trigger] lines[k]).0
}

/// Whether every line starts and ends on a character boundary of `bytes`.
pub open spec fn between_characters(bytes: Seq<u8>, lines: Seq<(usize, usize)>) -> bool {
    forall|k: int|
        0 <= k < lines.len() ==> is_char_boundary(bytes, (#[trigger] lines[k]).0 as int)
            && is_char_boundary(bytes, lines[k].1 as int)
}

/// In front of a white space character that ends on a character boundary lies
/// a character boundary: a line that is trimmed still ends between
/// characters.
pub proof fn trimmed_end_is_boundary(bytes: Seq<u8>, start: int, at: int)
    requires
        valid_utf8(bytes),
        is_char_boundary(bytes, at),
    ensures
        is_char_boundary(bytes, trimmed(bytes, start, at)),
{
    let space = space_before(bytes, at);
    if space > 0 && at - space >= start {
        is_char_boundary_iff_not_is_continuation_byte(bytes, at - space);
    }
}

/// One opportunity on a character boundary keeps a state that cuts between
/// characters only.
pub proof fn fed_stays_on_boundaries(state: Breaking, opportunity: Opportunity)
    requires
        valid_utf8(state.bytes),
        state.on_boundaries(),
        is_char_boundary(state.bytes, opportunity.offset as int),
    ensures
        state.fed(opportunity).on_boundaries(),
{
    if state.accepts(opportunity.offset) {
        let wrapped = state.wrapped(opportunity.width);
        if too_wide(state.max_width, opportunity.width) && state.last_break is Some {
            let at = state.last_break->0;
            trimmed_end_is_boundary(state.bytes, state.segment_start as int, at as int);
            assert(trimmed(state.bytes, state.segment_start as int, at as int) <= at);
            assert forall|k: int| 0 <= k < wrapped.lines.len() implies is_char_boundary(
                state.bytes,
                (#[trigger] wrapped.lines[k]).0 as int,
            ) && is_char_boundary(state.bytes, wrapped.lines[k].1 as int) by {
                if k < state.lines.len() {
                    assert(wrapped.lines[k] == state.lines[k]);
                }
            }
        }
        assert(wrapped.on_boundaries());
        let after = state.fed(opportunity);
        assert forall|k: int| 0 <= k < after.lines.len() implies is_char_boundary(
            state.bytes,
            (#[trigger] after.lines[k]).0 as int,
        ) && is_char_boundary(state.bytes, after.lines[k].1 as int) by {
            if k < wrapped.lines.len() {
                assert(after.lines[k] == wrapped.lines[k]);
            }
        }
    }
}

/// Breaks one text into lines, one opportunity at a time.
pub struct LineBreaker<'a> {
    text: &'a str,
    max_width: Option<usize>,
    segment_start: usize,
    last_break: Option<usize>,
    lines: Vec<(usize, usize)>,
}

fn space_len_before(bytes: &[u8], end: usize) -> (len: usize)
    ensures
        len == space_before(bytes@, end as int),
        len <= 3,
        len <= end,
{
    if 1 <= end && end <= bytes.len() && bytes[end - 1] < 0x80 {
        let scalar = bytes[end - 1] as u32;
        if white_space(scalar) {
            1
        } else {
            0
        }
    } else if 2 <= end && end <= bytes.len() && 0xc0 <= bytes[end - 2] && bytes[end - 2] <= 0xdf
        && 0x80 <= bytes[end - 1] && bytes[end - 1] <= 0xbf {
        let scalar = (((bytes[end - 2] & 0x1F) as u32) << 6) | ((bytes[end - 1] & 0x3f) as u32);
        if white_space(scalar) {
            2
        } else {
            0
        }
    } else if 3 <= end && end <= bytes.len() && 0xe0 <= bytes[end - 3] && bytes[end - 3] <= 0xef
        && 0x80 <= bytes[end - 2] && bytes[end - 2] <= 0xbf && 0x80 <= bytes[end - 1] && bytes[end
        - 1] <= 0xbf {
        let scalar = (((bytes[end - 3] & 0x0F) as u32) << 12) | (((bytes[end - 2] & 0x3f) as u32)
            << 6) | ((bytes[end - 1] & 0x3f) as u32);
        if white_space(scalar) {
            3
        } else {
            0
        }
    } else {
        0
    }
}

fn white_space(scalar: u32) -> (result: bool)
    ensures
        result == is_white_space(scalar),
{
    (0x09 <= scalar && scalar <= 0x0D) || scalar == 0x20 || scalar == 0x85 || scalar == 0xA0
        || scalar == 0x1680 || (0x2000 <= scalar && scalar <= 0x200A) || scalar == 0x2028 || scalar
        == 0x2029 || scalar == 0x202F || scalar == 0x205F || scalar == 0x3000
}

impl<'a> View for LineBreaker<'a> {
    type V = Breaking;

    closed spec fn view(&self) -> Breaking {
        Breaking {
            bytes: self.text.spec_bytes(),
            max_width: self.max_width,
            segment_start: self.segment_start,
            last_break: self.last_break,
            lines: self.lines@,
        }
    }
}

impl<'a> LineBreaker<'a> {
    /// A breaker at the start of `text`, with an optional limit on the width
    /// of a line.
    pub fn new(text: &'a str, max_width: Option<usize>) -> (breaker: LineBreaker<'a>)
        ensures
            breaker@ == Breaking::start(text.spec_bytes(), max_width),
            breaker@.well_formed(),
            breaker@.on_boundaries(),
    {
        let len = text.as_bytes().len();
        assert(text.spec_bytes().len() == len);
        proof {
            encode_utf8_valid_utf8(text@);
            is_char_boundary_start_end_of_seq(text.spec_bytes());
        }
        LineBreaker { text, max_width, segment_start: 0, last_break: None, lines: Vec::new() }
    }

    /// The stretch of text whose width decides what happens at the
    /// opportunity `offset`: from the start of the current line up to the
    /// opportunity. `None` where no measuring is needed, because no limit is
    /// set or the opportunity will not be accepted.
    pub fn span_to_measure(&self, offset: usize) -> (span: Option<(usize, usize)>)
        ensures
            span == if self@.max_width is Some && self@.accepts(offset) {
                Some((self@.segment_start, offset))
            } else {
                None
            },
            span matches Some((from, to)) ==> from <= to <= self@.bytes.len(),
    {
        if self.max_width.is_some() && self.admits(offset) {
            Some((self.segment_start, offset))
        } else {
            None
        }
    }

    fn admits(&self, offset: usize) -> (result: bool)
        ensures
            result == self@.accepts(offset),
    {
        offset <= self.text.as_bytes().len() && self.segment_start <= offset && match self.last_break {
            Some(last) => last <= offset,
            None => true,
        }
    }

    /// Takes the next opportunity: `offset` with its kind and the measured
    /// width of the text since the start of the current line. Returns whether
    /// the opportunity was accepted; one that lies outside the text or in
    /// front of the last one is not, and changes nothing. Lines stay in order
    /// within the text, and an opportunity between two characters keeps every
    /// cut between characters.
    pub fn advance(&mut self, offset: usize, mandatory: bool, width: usize) -> (accepted: bool)
        ensures
            accepted == old(self)@.accepts(offset),
            final(self)@ == old(self)@.fed(Opportunity { offset, mandatory, width }),
            old(self)@.well_formed() ==> final(self)@.well_formed(),
            old(self)@.on_boundaries() && is_char_boundary(old(self)@.bytes, offset as int)
                ==> final(self)@.on_boundaries(),
    {
        proof {
            encode_utf8_valid_utf8(self.text@);
            if self@.on_boundaries() && is_char_boundary(self@.bytes, offset as int) {
                fed_stays_on_boundaries(self@, Opportunity { offset, mandatory, width });
            }
        }
        if !self.admits(offset) {
            return false;
        }
        let ghost before = self@;
        let over = match self.max_width {
            Some(limit) => width > limit,
            None => false,
        };
        if over {
            if let Some(at) = self.last_break {
                let space = space_len_before(self.text.as_bytes(), at);
                let end = if space > 0 && at - space >= self.segment_start {
                    at - space
                } else {
                    at
                };
                self.lines.push((self.segment_start, end));
                self.segment_start = at;
            }
        }
        assert(self@ =~= before.wrapped(width));
        if mandatory {
            self.lines.push((self.segment_start, offset));
            self.last_break = Some(offset);
            self.segment_start = offset;
        } else {
            self.last_break = Some(offset);
        }
        assert(self@ =~= before.stepped(offset, mandatory, width));
        true
    }

    /// Ends the text: returns all lines as byte ranges, the finished ones and
    /// then the rest of the text, if anything is left of it; an empty rest is
    /// no line. The ranges lie within the text, one behind the other, and
    /// between characters where all cuts were made there.
    pub fn finish(self) -> (lines: Vec<(usize, usize)>)
        ensures
            lines@ == self@.all_lines(),
            self@.well_formed() ==> in_sequence(lines@) && forall|k: int|
                0 <= k < lines@.len() ==> (#[trigger] lines@[k]).0 <= lines@[k].1
                    <= self@.bytes.len(),
            self@.on_boundaries() ==> between_characters(self@.bytes, lines@),
    {
        let ghost model = self@;
        let end = self.text.as_bytes().len();
        let start = self.segment_start;
        let mut lines = self.lines;
        if start < end {
            lines.push((start, end));
        }
        proof {
            encode_utf8_valid_utf8(self.text@);
            is_char_boundary_start_end_of_seq(model.bytes);
            assert(lines@ =~= model.all_lines());
            assert forall|k: int|
                model.well_formed() && 0 <= k < lines@.len() implies (#[trigger] lines@[k]).0
                <= lines@[k].1 <= model.bytes.len() by {
                if k < model.lines.len() {
                    assert(lines@[k] == model.lines[k]);
                }
            }
            assert forall|j: int, k: int|
                model.well_formed() && 0 <= j < k < lines@.len() implies (#[trigger] lines@[j]).1
                <= (#[trigger] lines@[k]).0 by {
                assert(lines@[j] == model.lines[j]);
                if k < model.lines.len() {
                    assert(lines@[k] == model.lines[k]);
                }
            }
            assert forall|k: int|
                model.on_boundaries() && 0 <= k < lines@.len() implies is_char_boundary(
                model.bytes,
                (#[trigger] lines@[k]).0 as int,
            ) && is_char_boundary(model.bytes, lines@[k].1 as int) by {
                if k < model.lines.len() {
                    assert(lines@[k] == model.lines[k]);
                }
            }
        }
        lines
    }
}

/// Whatever the opportunities and widths, the lines of a run lie in order
/// within the text: a run from the start of a text never leaves the states
/// that are [`Breaking::well_formed`].
pub proof fn run_stays_well_formed(
    bytes: Seq<u8>,
    max_width: Option<usize>,
    opportunities: Seq<Opportunity>,
    count: nat,
)
    requires
        bytes.len() <= usize::MAX,
    ensures
        Breaking::start(bytes, max_width).run(opportunities, count).well_formed(),
        Breaking::start(bytes, max_width).run(opportunities, count).bytes == bytes,
    decreases count,
{
    if count == 0 || count > opportunities.len() {
    } else {
        run_stays_well_formed(bytes, max_width, opportunities, (count - 1) as nat);
        let before = Breaking::start(bytes, max_width).run(opportunities, (count - 1) as nat);
        let next = opportunities[count - 1];
        if before.accepts(next.offset) {
            let wrapped = before.wrapped(next.width);
            assert(wrapped.well_formed());
            assert(wrapped.segment_start <= next.offset);
        }
    }
}

/// A run over the first `count` opportunities does not depend on those that
/// follow.
pub proof fn run_reads_prefix(
    start: Breaking,
    shorter: Seq<Opportunity>,
    longer: Seq<Opportunity>,
    count: nat,
)
    requires
        count <= shorter.len() <= longer.len(),
        forall|i: int| 0 <= i < shorter.len() ==> shorter[i] == longer[i],
    ensures
        start.run(shorter, count) == start.run(longer, count),
    decreases count,
{
    if count > 0 {
        run_reads_prefix(start, shorter, longer, (count - 1) as nat);
    }
}

/// Whether the opportunities come as a text yields them: no offset lies
/// beyond the text, and none lies in front of an earlier one.
pub open spec fn in_order(bytes: Seq<u8>, opportunities: Seq<Opportunity>) -> bool {
    &&& forall|i: int|
        0 <= i < opportunities.len() ==> (#[trigger] opportunities[i]).offset <= bytes.len()
    &&& forall|i: int, j: int|
        0 <= i <= j < opportunities.len() ==> (#[trigger] opportunities[i]).offset <= (
        #[trigger] opportunities[j]).offset
}

/// The opportunities without their widths: the offset of each and whether it
/// is mandatory.
pub open spec fn kinds(opportunities: Seq<Opportunity>) -> Seq<(usize, bool)> {
    opportunities.map_values(|o: Opportunity| (o.offset, o.mandatory))
}

/// The offsets of the mandatory ones among `breaks`, in order.
pub open spec fn mandatory_offsets(breaks: Seq<(usize, bool)>) -> Seq<usize> {
    breaks.filter(|b: (usize, bool)| b.1).map_values(|b: (usize, bool)| b.0)
}

/// The stretches into which `cuts` divide a text: from the start to the first
/// cut, then from each cut to the next.
pub open spec fn stretches(cuts: Seq<usize>) -> Seq<(usize, usize)> {
    Seq::new(
        cuts.len(),
        |k: int|
            (
                if k == 0 {
                    0usize
                } else {
                    cuts[k - 1]
                },
                cuts[k],
            ),
    )
}

/// Where the rest of the text starts once `cuts` have been made.
pub open spec fn after_cuts(cuts: Seq<usize>) -> usize {
    if cuts.len() == 0 {
        0
    } else {
        cuts.last()
    }
}

proof fn unlimited_run(bytes: Seq<u8>, opportunities: Seq<Opportunity>, count: nat)
    requires
        in_order(bytes, opportunities),
        count <= opportunities.len(),
    ensures
        ({
            let state = Breaking::start(bytes, None).run(opportunities, count);
            let cuts = mandatory_offsets(kinds(opportunities.take(count as int)));
            &&& state.lines == stretches(cuts)
            &&& state.segment_start == after_cuts(cuts)
            &&& state.bytes == bytes
            &&& state.max_width == None::<usize>
            &&& state.last_break == if count == 0 {
                None
            } else {
                Some(opportunities[count - 1].offset)
            }
            &&& state.segment_start <= bytes.len()
            &&& count > 0 ==> state.segment_start <= opportunities[count - 1].offset
        }),
    decreases count,
{
    let mandatory = |b: (usize, bool)| b.1;
    if count == 0 {
        assert(kinds(opportunities.take(0)) =~= Seq::<(usize, bool)>::empty());
        assert(kinds(opportunities.take(0)).filter(mandatory) =~= Seq::<(usize, bool)>::empty())
            by {
            reveal(Seq::filter);
        }
        assert(mandatory_offsets(kinds(opportunities.take(0))) =~= Seq::<usize>::empty());
        assert(stretches(Seq::<usize>::empty()) =~= Seq::<(usize, usize)>::empty());
    } else {
        unlimited_run(bytes, opportunities, (count - 1) as nat);
        let before = Breaking::start(bytes, None).run(opportunities, (count - 1) as nat);
        let next = opportunities[count - 1];
        let shorter = kinds(opportunities.take(count - 1));
        let longer = kinds(opportunities.take(count as int));
        assert(longer.drop_last() =~= shorter);
        assert(longer.last() == (next.offset, next.mandatory));
        assert(longer.filter(mandatory) == if next.mandatory {
            shorter.filter(mandatory).push((next.offset, next.mandatory))
        } else {
            shorter.filter(mandatory)
        }) by {
            reveal(Seq::filter);
        }
        let old_cuts = mandatory_offsets(shorter);
        let cuts = mandatory_offsets(longer);
        if count >= 2 {
            assert(opportunities[count - 2].offset <= next.offset);
        }
        assert(before.accepts(next.offset));
        if next.mandatory {
            assert(cuts =~= old_cuts.push(next.offset));
            assert(stretches(cuts) =~= stretches(old_cuts).push((after_cuts(old_cuts), next.offset)));
        } else {
            assert(cuts =~= old_cuts);
        }
    }
}

/// With no limit on the width, lines end at the mandatory opportunities and
/// nowhere else: the finished lines are the stretches between consecutive
/// mandatory opportunities, whatever the other opportunities and the measured
/// widths are, and the rest of the text starts behind the last of them.
pub proof fn without_limit_only_mandatory_breaks(bytes: Seq<u8>, opportunities: Seq<Opportunity>)
    requires
        in_order(bytes, opportunities),
    ensures
        Breaking::start(bytes, None).run(opportunities, opportunities.len()).lines == stretches(
            mandatory_offsets(kinds(opportunities)),
        ),
        Breaking::start(bytes, None).run(opportunities, opportunities.len()).segment_start
            == after_cuts(mandatory_offsets(kinds(opportunities))),
{
    unlimited_run(bytes, opportunities, opportunities.len());
    assert(opportunities.take(opportunities.len() as int) =~= opportunities);
}

/// Whether `offset` is that of one of the first `count` opportunities.
pub open spec fn at_opportunity(opportunities: Seq<Opportunity>, count: nat, offset: usize) -> bool {
    exists|i: int|
        0 <= i < count && i < opportunities.len() && (#[trigger] opportunities[i]).offset == offset
}

/// Whether `offset` lies in front of the white space character that precedes
/// one of the first `count` opportunities.
pub open spec fn before_space_at_opportunity(
    bytes: Seq<u8>,
    opportunities: Seq<Opportunity>,
    count: nat,
    offset: usize,
) -> bool {
    exists|i: int|
        0 <= i < count && i < opportunities.len() && offset == (#[trigger] opportunities[i]).offset
            - space_before(bytes, opportunities[i].offset as int)
}

/// Whether a line starts and ends where a line may: it starts at the start of
/// the text or at an opportunity, and ends at an opportunity or in front of the
/// white space that precedes one.
pub open spec fn breaks_at_opportunities(
    bytes: Seq<u8>,
    opportunities: Seq<Opportunity>,
    count: nat,
    line: (usize, usize),
) -> bool {
    &&& line.0 == 0 || at_opportunity(opportunities, count, line.0)
    &&& at_opportunity(opportunities, count, line.1) || before_space_at_opportunity(
        bytes,
        opportunities,
        count,
        line.1,
    )
}

proof fn limited_run(
    bytes: Seq<u8>,
    max_width: Option<usize>,
    opportunities: Seq<Opportunity>,
    count: nat,
)
    requires
        count <= opportunities.len(),
    ensures
        ({
            let state = Breaking::start(bytes, max_width).run(opportunities, count);
            &&& state.bytes == bytes
            &&& state.max_width == max_width
            &&& state.segment_start == 0 || at_opportunity(
                opportunities,
                count,
                state.segment_start,
            )
            &&& state.last_break matches Some(last) ==> at_opportunity(opportunities, count, last)
            &&& forall|k: int|
                0 <= k < state.lines.len() ==> breaks_at_opportunities(
                    bytes,
                    opportunities,
                    count,
                    #[trigger] state.lines[k],
                )
        }),
    decreases count,
{
    if count > 0 {
        limited_run(bytes, max_width, opportunities, (count - 1) as nat);
        let before = Breaking::start(bytes, max_width).run(opportunities, (count - 1) as nat);
        let next = opportunities[count - 1];
        let after = before.fed(next);
        let fewer = (count - 1) as nat;
        assert forall|offset: usize| at_opportunity(opportunities, fewer, offset) implies at_opportunity(
            opportunities,
            count,
            offset,
        ) by {
            let i = choose|i: int|
                0 <= i < fewer && i < opportunities.len() && (#[trigger] opportunities[i]).offset
                    == offset;
            assert(opportunities[i].offset == offset);
        }
        assert forall|offset: usize|
            before_space_at_opportunity(
                bytes,
                opportunities,
                fewer,
                offset,
            ) implies before_space_at_opportunity(bytes, opportunities, count, offset) by {
            let i = choose|i: int|
                0 <= i < fewer && i < opportunities.len() && offset == (
                #[trigger] opportunities[i]).offset - space_before(
                    bytes,
                    opportunities[i].offset as int,
                );
            assert(offset == opportunities[i].offset - space_before(
                bytes,
                opportunities[i].offset as int,
            ));
        }
        assert(at_opportunity(opportunities, count, next.offset)) by {
            assert(opportunities[count - 1].offset == next.offset);
        }
        if before.accepts(next.offset) {
            let wrapped = before.wrapped(next.width);
            if too_wide(max_width, next.width) && before.last_break is Some {
                let at = before.last_break->0;
                let end = trimmed(bytes, before.segment_start as int, at as int) as usize;
                let i = choose|i: int|
                    0 <= i < fewer && i < opportunities.len() && (#[trigger] opportunities[i]).offset
                        == at;
                if end != at {
                    assert(end == opportunities[i].offset - space_before(
                        bytes,
                        opportunities[i].offset as int,
                    ));
                    assert(before_space_at_opportunity(bytes, opportunities, count, end));
                }
                assert(breaks_at_opportunities(
                    bytes,
                    opportunities,
                    count,
                    (before.segment_start, end),
                ));
            }
            assert forall|k: int| 0 <= k < wrapped.lines.len() implies breaks_at_opportunities(
                bytes,
                opportunities,
                count,
                #[trigger] wrapped.lines[k],
            ) by {
                if k < before.lines.len() {
                    assert(wrapped.lines[k] == before.lines[k]);
                }
            }
            assert forall|k: int| 0 <= k < after.lines.len() implies breaks_at_opportunities(
                bytes,
                opportunities,
                count,
                #[trigger] after.lines[k],
            ) by {
                if k < wrapped.lines.len() {
                    assert(after.lines[k] == wrapped.lines[k]);
                }
            }
        } else {
            assert forall|k: int| 0 <= k < after.lines.len() implies breaks_at_opportunities(
                bytes,
                opportunities,
                count,
                #[trigger] after.lines[k],
            ) by {
                assert(after.lines[k] == before.lines[k]);
            }
        }
    }
}

/// Whatever the limit and the measured widths, a text is never broken inside
/// a word: every line, the last one included, starts at the start of the text
/// or at a break opportunity, and every finished line ends at a break
/// opportunity or in front of the white space that precedes one.
pub proof fn lines_break_only_at_opportunities(
    bytes: Seq<u8>,
    max_width: Option<usize>,
    opportunities: Seq<Opportunity>,
)
    ensures
        ({
            let state = Breaking::start(bytes, max_width).run(opportunities, opportunities.len());
            &&& forall|k: int|
                0 <= k < state.lines.len() ==> breaks_at_opportunities(
                    bytes,
                    opportunities,
                    opportunities.len(),
                    #[trigger] state.lines[k],
                )
            &&& state.segment_start == 0 || at_opportunity(
                opportunities,
                opportunities.len(),
                state.segment_start,
            )
        }),
{
    limited_run(bytes, max_width, opportunities, opportunities.len());
}

} // verus!
