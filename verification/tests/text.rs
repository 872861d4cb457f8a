use linfb::shape::{Alignment, Caption, Color, FontBuilder};
use linfb::text::align::{align_line, align_row};
use linfb::text::assemble::assemble;
use linfb::text::breaks::LineBreaker;
use linfb::text::line::{render_line, Coverage, GlyphMask};

const A: Option<Color> = Some(Color { red: 1, green: 0, blue: 0, alpha: 255 });
const B: Option<Color> = Some(Color { red: 2, green: 0, blue: 0, alpha: 255 });
const C: Option<Color> = Some(Color { red: 3, green: 0, blue: 0, alpha: 255 });
const D: Option<Color> = Some(Color { red: 4, green: 0, blue: 0, alpha: 255 });
const E: Option<Color> = Some(Color { red: 5, green: 0, blue: 0, alpha: 255 });
const N: Option<Color> = None;

fn caption(text: &str, max_width: Option<usize>) -> Caption {
    Caption {
        text: text.to_string(),
        size: 2,
        color: Color { red: 10, green: 20, blue: 30, alpha: 200 },
        max_width,
        alignment: Alignment::Left,
    }
}

fn ten_per_byte(from: usize, to: usize) -> usize {
    10 * (to - from)
}

fn never(_from: usize, _to: usize) -> usize {
    panic!("nothing is measured where no limit is set")
}

fn slices<'a>(text: &'a str, lines: &[(usize, usize)]) -> Vec<&'a str> {
    lines.iter().map(|&(from, to)| &text[from..to]).collect()
}

#[test]
fn line_breaks_follow_the_unicode_algorithm() {
    assert_eq!(caption("hello world", None).line_breaks(), vec![(6, false), (11, false)]);
    assert_eq!(caption("a\nb", None).line_breaks(), vec![(2, true), (3, false)]);
    assert_eq!(caption("Hello\nWorld", None).line_breaks(), vec![(6, true), (11, false)]);
    assert_eq!(caption("abc\r", None).line_breaks(), vec![(4, true)]);
    assert_eq!(caption("a-b", None).line_breaks(), vec![(2, false), (3, false)]);
    assert_eq!(caption("", None).line_breaks(), vec![]);
}

#[test]
fn without_limit_only_newlines_split() {
    let text = "Hello\nWorld";
    let lines = caption(text, None).split_text(never);
    assert_eq!(lines, vec![(0, 6), (6, 11)]);
    assert_eq!(slices(text, &lines), vec!["Hello\n", "World"]);
}

#[test]
fn without_limit_spaces_never_split() {
    let text = "one two three four five six seven";
    assert_eq!(caption(text, None).split_text(never), vec![(0, text.len())]);
    let text = "one two\nthree four\n";
    let lines = caption(text, None).split_text(never);
    assert_eq!(slices(text, &lines), vec!["one two\n", "three four\n"]);
}

#[test]
fn text_that_ends_in_a_newline_has_no_line_behind_it() {
    assert_eq!(caption("abc\n", None).split_text(never), vec![(0, 4)]);
    assert_eq!(caption("\n", None).split_text(never), vec![(0, 1)]);
    assert_eq!(caption("\n\n", None).split_text(never), vec![(0, 1), (1, 2)]);
    assert_eq!(caption("abc def\n", Some(50)).split_text(ten_per_byte), vec![(0, 3), (4, 8)]);
}

#[test]
fn empty_text_has_no_lines() {
    assert_eq!(caption("", None).split_text(never), vec![]);
    assert_eq!(caption("", Some(5)).split_text(ten_per_byte), vec![]);
    assert_eq!(LineBreaker::new("", Some(5)).finish(), vec![]);
}

#[test]
fn too_wide_text_wraps_at_the_last_opportunity() {
    let text = "hello world foo";
    let lines = caption(text, Some(100)).split_text(ten_per_byte);
    assert_eq!(lines, vec![(0, 5), (6, 15)]);
    assert_eq!(slices(text, &lines), vec!["hello", "world foo"]);
}

#[test]
fn text_that_fits_is_not_wrapped() {
    let text = "hello world foo";
    assert_eq!(caption(text, Some(150)).split_text(ten_per_byte), vec![(0, 15)]);
    // The limit itself is not exceeded.
    assert_eq!(caption("hello world", Some(110)).split_text(ten_per_byte), vec![(0, 11)]);
    assert_eq!(caption("hello world", Some(109)).split_text(ten_per_byte), vec![(0, 5), (6, 11)]);
}

#[test]
fn words_wider_than_the_limit_are_not_split() {
    let text = "hello world foo";
    let lines = caption(text, Some(30)).split_text(ten_per_byte);
    assert_eq!(slices(text, &lines), vec!["hello", "world", "foo"]);
    let text = "incomprehensibilities";
    assert_eq!(caption(text, Some(1)).split_text(ten_per_byte), vec![(0, text.len())]);
    let text = "incomprehensibilities are";
    let lines = caption(text, Some(0)).split_text(ten_per_byte);
    assert_eq!(slices(text, &lines), vec!["incomprehensibilities", "are"]);
}

#[test]
fn wide_word_after_a_newline_leaves_an_empty_line() {
    let text = "a\nlongword x";
    let lines = caption(text, Some(50)).split_text(ten_per_byte);
    assert_eq!(lines, vec![(0, 2), (2, 2), (2, 10), (11, 12)]);
    assert_eq!(slices(text, &lines), vec!["a\n", "", "longword", "x"]);
}

#[test]
fn overflow_and_newline_at_one_opportunity_close_two_lines() {
    let text = "aaaa bbbb\ncc";
    let lines = caption(text, Some(60)).split_text(ten_per_byte);
    assert_eq!(slices(text, &lines), vec!["aaaa", "bbbb\n", "cc"]);
}

#[test]
fn measure_is_asked_from_the_start_of_the_line() {
    let asked = std::cell::RefCell::new(Vec::new());
    let text = "hello world foo";
    let lines = caption(text, Some(100)).split_text(|from, to| {
        asked.borrow_mut().push((from, to));
        10 * (to - from)
    });
    assert_eq!(lines, vec![(0, 5), (6, 15)]);
    assert_eq!(*asked.borrow(), vec![(0, 6), (0, 12), (6, 15)]);
}

#[test]
fn breaker_trims_white_space_of_any_length() {
    let text = "ab\u{2003}cd";
    let mut breaker = LineBreaker::new(text, Some(10));
    assert!(breaker.advance(5, false, 5));
    assert!(breaker.advance(7, false, 20));
    assert_eq!(breaker.finish(), vec![(0, 2), (5, 7)]);

    let text = "ab\u{a0}cd";
    let mut breaker = LineBreaker::new(text, Some(10));
    assert!(breaker.advance(4, false, 5));
    assert!(breaker.advance(6, false, 20));
    assert_eq!(breaker.finish(), vec![(0, 2), (4, 6)]);

    let text = "ab\u{3000}cd";
    let mut breaker = LineBreaker::new(text, Some(10));
    assert!(breaker.advance(5, false, 5));
    assert!(breaker.advance(7, false, 20));
    assert_eq!(breaker.finish(), vec![(0, 2), (5, 7)]);

    let text = "ab\tcd";
    let mut breaker = LineBreaker::new(text, Some(10));
    assert!(breaker.advance(3, false, 5));
    assert!(breaker.advance(5, false, 20));
    assert_eq!(breaker.finish(), vec![(0, 2), (3, 5)]);
}

#[test]
fn breaker_keeps_what_is_not_white_space() {
    let text = "ab\u{e9}cd";
    let mut breaker = LineBreaker::new(text, Some(10));
    assert!(breaker.advance(4, false, 5));
    assert!(breaker.advance(6, false, 20));
    assert_eq!(breaker.finish(), vec![(0, 4), (4, 6)]);

    let text = "ab-cd";
    let mut breaker = LineBreaker::new(text, Some(10));
    assert!(breaker.advance(3, false, 5));
    assert!(breaker.advance(5, false, 20));
    assert_eq!(breaker.finish(), vec![(0, 3), (3, 5)]);

    // U+2060 WORD JOINER is encoded like a space but for one byte.
    let text = "ab\u{2060}cd";
    let mut breaker = LineBreaker::new(text, Some(10));
    assert!(breaker.advance(5, false, 5));
    assert!(breaker.advance(7, false, 20));
    assert_eq!(breaker.finish(), vec![(0, 5), (5, 7)]);
}

#[test]
fn breaker_refuses_opportunities_out_of_order() {
    let mut breaker = LineBreaker::new("abc def", Some(10));
    assert!(!breaker.advance(8, true, 0));
    assert!(breaker.advance(4, false, 0));
    assert!(!breaker.advance(3, true, 0));
    assert!(breaker.advance(4, false, 0));
    assert!(breaker.advance(7, true, 0));
    assert!(!breaker.advance(6, false, 0));
    assert_eq!(breaker.finish(), vec![(0, 7)]);
}

#[test]
fn breaker_says_what_to_measure() {
    let unlimited = LineBreaker::new("abc def", None);
    assert_eq!(unlimited.span_to_measure(4), None);
    let mut limited = LineBreaker::new("abc def", Some(5));
    assert_eq!(limited.span_to_measure(4), Some((0, 4)));
    assert_eq!(limited.span_to_measure(8), None);
    assert!(limited.advance(4, true, 0));
    assert_eq!(limited.span_to_measure(7), Some((4, 7)));
    assert_eq!(limited.span_to_measure(3), None);
}

#[test]
fn caption_hands_out_a_breaker_for_its_text() {
    let caption = caption("abc def", Some(5));
    let mut breaker = caption.breaker();
    assert_eq!(breaker.span_to_measure(4), Some((0, 4)));
    assert!(breaker.advance(4, false, 3));
    assert!(breaker.advance(7, false, 6));
    assert_eq!(breaker.finish(), vec![(0, 3), (4, 7)]);
}

#[test]
fn rows_are_padded_by_alignment() {
    let row = vec![A, B, C];
    assert_eq!(align_row(&row, 5, Alignment::Left), vec![A, B, C, N, N]);
    assert_eq!(align_row(&row, 5, Alignment::Center), vec![N, A, B, C, N]);
    assert_eq!(align_row(&row, 5, Alignment::Right), vec![N, N, A, B, C]);
    assert_eq!(align_row(&row, 6, Alignment::Center), vec![N, A, B, C, N, N]);
    assert_eq!(align_row(&row, 3, Alignment::Center), vec![A, B, C]);
    assert_eq!(align_row(&vec![], 2, Alignment::Right), vec![N, N]);
}

#[test]
fn rows_are_clipped_by_alignment() {
    let row = vec![A, B, C, D, E];
    assert_eq!(align_row(&row, 2, Alignment::Left), vec![A, B]);
    assert_eq!(align_row(&row, 2, Alignment::Right), vec![D, E]);
    assert_eq!(align_row(&row, 2, Alignment::Center), vec![C, D]);
    assert_eq!(align_row(&row, 3, Alignment::Center), vec![B, C, D]);
    assert_eq!(align_row(&row, 0, Alignment::Center), vec![]);
    assert_eq!(align_row(&row, 4, Alignment::Center), vec![B, C, D, E]);
}

#[test]
fn lines_are_aligned_row_by_row() {
    let line = vec![vec![A, B], vec![C], vec![]];
    assert_eq!(
        align_line(&line, 3, Alignment::Right),
        vec![vec![N, A, B], vec![N, N, C], vec![N, N, N]]
    );
    assert_eq!(caption("", None).align_line(&line, 1), vec![vec![A], vec![C], vec![N]]);
}

#[test]
fn lines_are_stacked_with_gaps() {
    let lines = vec![vec![vec![A, B, C]], vec![vec![D]]];
    assert_eq!(
        assemble(&lines, 1, None, Alignment::Center),
        vec![vec![A, B, C], vec![N, N, N], vec![N, D, N], vec![N, N, N]]
    );
    assert_eq!(
        assemble(&lines, 2, Some(2), Alignment::Right),
        vec![vec![B, C], vec![N, N], vec![N, N], vec![N, D], vec![N, N], vec![N, N]]
    );
    assert_eq!(
        assemble(&lines, 0, Some(4), Alignment::Left),
        vec![vec![A, B, C, N], vec![D, N, N, N]]
    );
}

#[test]
fn paragraph_without_lines_or_width_is_empty() {
    assert_eq!(assemble(&vec![], 3, None, Alignment::Left), Vec::<Vec<Option<Color>>>::new());
    let blank_line = vec![vec![vec![], vec![]]];
    assert_eq!(
        assemble(&blank_line, 1, None, Alignment::Center),
        vec![Vec::<Option<Color>>::new(); 3]
    );
    assert_eq!(assemble(&blank_line, 0, Some(2), Alignment::Center), vec![vec![N, N]; 2]);
}

#[test]
fn line_is_drawn_from_glyph_masks() {
    let color = Color { red: 10, green: 20, blue: 30, alpha: 200 };
    let ink = |alpha: u8| Some(Color { red: 10, green: 20, blue: 30, alpha });
    let glyphs = vec![
        GlyphMask {
            left: 1,
            top: 0,
            cells: vec![
                Coverage { x: 0, y: 0, alpha: 255 },
                Coverage { x: 1, y: 0, alpha: 0 },
                Coverage { x: 0, y: 1, alpha: 128 },
                Coverage { x: 5, y: 0, alpha: 9 },
                Coverage { x: 0, y: 5, alpha: 9 },
                Coverage { x: u32::MAX, y: u32::MAX, alpha: 9 },
            ],
        },
        GlyphMask { left: -3, top: -1, cells: vec![Coverage { x: 0, y: 0, alpha: 77 }] },
    ];
    // The text has alpha 200, and no cell has more.
    assert_eq!(
        render_line(color, 2, 3, &glyphs),
        vec![vec![ink(77), ink(200), ink(0)], vec![N, ink(128), N]]
    );
}

#[test]
fn later_cells_overwrite_earlier_ones() {
    let color = Color { red: 10, green: 20, blue: 30, alpha: 200 };
    let glyphs = vec![
        GlyphMask { left: 0, top: 0, cells: vec![Coverage { x: 1, y: 0, alpha: 10 }] },
        GlyphMask {
            left: 1,
            top: 0,
            cells: vec![
                Coverage { x: 0, y: 0, alpha: 20 },
                Coverage { x: 0, y: 0, alpha: 255 },
            ],
        },
    ];
    assert_eq!(
        render_line(color, 1, 2, &glyphs),
        vec![vec![N, Some(Color { red: 10, green: 20, blue: 30, alpha: 200 })]]
    );
}

#[test]
fn line_without_glyphs_or_size_is_blank() {
    let color = Color { red: 10, green: 20, blue: 30, alpha: 200 };
    assert_eq!(render_line(color, 2, 3, &vec![]), vec![vec![N; 3]; 2]);
    let glyphs =
        vec![GlyphMask { left: 0, top: 0, cells: vec![Coverage { x: 0, y: 0, alpha: 1 }] }];
    assert_eq!(render_line(color, 0, 3, &glyphs), Vec::<Vec<Option<Color>>>::new());
    assert_eq!(render_line(color, 2, 0, &glyphs), vec![Vec::<Option<Color>>::new(); 2]);
}

#[test]
fn caption_renders_through_the_font_functions() {
    let mut caption = caption("ab cd\nefg", None);
    caption.alignment = Alignment::Right;
    caption.color.alpha = 255;
    let ink = |alpha: u8| Some(Color { red: 10, green: 20, blue: 30, alpha });
    let grid = caption.render(1, never, |from, to| {
        let mask = GlyphMask {
            left: 0,
            top: 0,
            cells: vec![
                Coverage { x: 0, y: 0, alpha: (to - from) as u8 },
                Coverage { x: 1, y: 1, alpha: 128 },
            ],
        };
        (to - from, vec![mask])
    });
    // Lines "ab cd\n" of six columns and "efg" of three, two rows each.
    assert_eq!(
        grid,
        vec![
            vec![ink(6), N, N, N, N, N],
            vec![N, ink(128), N, N, N, N],
            vec![N; 6],
            vec![N, N, N, ink(3), N, N],
            vec![N, N, N, N, ink(128), N],
            vec![N; 6],
        ]
    );
}

#[test]
fn caption_with_limit_renders_at_that_width() {
    let mut caption = caption("hello world foo", Some(4));
    caption.size = 1;
    caption.alignment = Alignment::Center;
    caption.color.alpha = 255;
    let ink = |alpha: u8| Some(Color { red: 10, green: 20, blue: 30, alpha });
    let grid = caption.render(0, ten_per_byte, |from, to| {
        let cells =
            (0..(to - from) as u32).map(|x| Coverage { x, y: 0, alpha: x as u8 }).collect();
        (to - from, vec![GlyphMask { left: 0, top: 0, cells }])
    });
    // Three lines, "hello", "world" and "foo": the first two lose a cell at
    // the left, the last is padded at the right.
    assert_eq!(
        grid,
        vec![
            vec![ink(1), ink(2), ink(3), ink(4)],
            vec![ink(1), ink(2), ink(3), ink(4)],
            vec![ink(0), ink(1), ink(2), N],
        ]
    );
}

#[test]
fn caption_of_empty_text_has_no_rows() {
    let grid = caption("", None).render(1, never, |_from, _to| (0, vec![]));
    assert_eq!(grid, Vec::<Vec<Option<Color>>>::new());
    let grid = caption("", Some(40)).render(1, ten_per_byte, |_from, _to| (0, vec![]));
    assert_eq!(grid, Vec::<Vec<Option<Color>>>::new());
}

#[test]
fn caption_that_ends_in_a_newline_has_no_rows_behind_it() {
    let mut caption = caption("ab\n", None);
    caption.size = 1;
    let grid = caption.render(2, never, |from, to| (to - from, vec![]));
    assert_eq!(grid, vec![vec![N; 3]; 3]);
}

#[test]
fn cells_are_no_more_opaque_than_the_text() {
    // The text color has alpha 200.
    let mut caption = caption("a", None);
    caption.size = 1;
    let grid = caption.render(0, never, |_from, _to| {
        let cells = vec![
            Coverage { x: 0, y: 0, alpha: 255 },
            Coverage { x: 1, y: 0, alpha: 201 },
            Coverage { x: 2, y: 0, alpha: 200 },
            Coverage { x: 3, y: 0, alpha: 100 },
            Coverage { x: 4, y: 0, alpha: 0 },
        ];
        (5, vec![GlyphMask { left: 0, top: 0, cells }])
    });
    let ink = |alpha: u8| Some(Color { red: 10, green: 20, blue: 30, alpha });
    assert_eq!(grid, vec![vec![ink(200), ink(200), ink(200), ink(100), ink(0)]]);
}

#[test]
fn lines_are_pieces_of_the_text_in_order() {
    let text = "na\u{ef}ve caf\u{e9}\u{2003}au lait\n\u{3000}fin";
    for limit in [None, Some(0), Some(30), Some(60), Some(1000)] {
        let lines = caption(text, limit).split_text(ten_per_byte);
        let mut behind = 0;
        for &(from, to) in &lines {
            assert!(behind <= from && from <= to && to <= text.len());
            assert!(text.is_char_boundary(from) && text.is_char_boundary(to));
            behind = to;
        }
    }
}

#[test]
fn caption_builder_fills_in_defaults() {
    let caption = Caption::builder().text("hi".to_string()).size(12).build().unwrap();
    assert_eq!(caption.text, "hi");
    assert_eq!(caption.size, 12);
    assert_eq!(caption.color, Color { red: 0, green: 0, blue: 0, alpha: 255 });
    assert_eq!(caption.max_width, None);
    assert_eq!(caption.alignment, Alignment::Left);
}

#[test]
fn caption_builder_takes_every_field() {
    let color = Color { red: 1, green: 2, blue: 3, alpha: 4 };
    let caption = Caption::builder()
        .text("hi".to_string())
        .size(12)
        .color(color)
        .max_width(650)
        .alignment(Alignment::Center)
        .build()
        .unwrap();
    assert_eq!(caption.color, color);
    assert_eq!(caption.max_width, Some(650));
    assert_eq!(caption.alignment, Alignment::Center);
}

#[test]
fn caption_builder_names_the_missing_field() {
    assert_eq!(Caption::builder().build().unwrap_err(), "`text` must be initialized");
    assert_eq!(Caption::builder().size(3).build().unwrap_err(), "`text` must be initialized");
    assert_eq!(
        Caption::builder().text(String::new()).build().unwrap_err(),
        "`size` must be initialized"
    );
}

#[test]
fn alignment_defaults_to_left() {
    assert_eq!(Alignment::default(), Alignment::Left);
}

#[test]
fn font_builder_collects_flags_and_family() {
    let plain = FontBuilder::default();
    assert!(!plain.italic && !plain.oblique && !plain.bold && !plain.monospace);
    assert_eq!(plain.family, "");
    let mut builder = FontBuilder::default();
    builder.family("monospace").bold().italic();
    assert!(builder.italic && builder.bold && !builder.oblique && !builder.monospace);
    assert_eq!(builder.family, "monospace");
    builder.oblique().monospace().family("serif");
    assert!(builder.italic && builder.bold && builder.oblique && builder.monospace);
    assert_eq!(builder.family, "serif");
}
