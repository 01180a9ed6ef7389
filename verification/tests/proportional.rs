use text_layout::geometry::{Offset, Point, Rect};
use text_layout::layout::{LayoutFit, TextLayout};
use text_layout::metrics::{fits_width, text_width, GlyphMetrics};
use text_layout::sink::TraceSink;
use text_layout::span::{LineBreaking, Span};
use text_layout::style::{Color, TextStyle};

/// A font with narrow and wide characters.
#[derive(Copy, Clone)]
struct Proportional;

fn width_of(ch: char) -> i16 {
    match ch {
        'i' | 'l' | '.' | ' ' => 1,
        'm' | 'w' => 5,
        '-' => 2,
        _ => 3,
    }
}

impl GlyphMetrics for Proportional {
    fn char_width_spec(&self, ch: char) -> i16 {
        width_of(ch)
    }

    fn line_height_spec(&self) -> i16 {
        8
    }

    fn text_height_spec(&self) -> i16 {
        6
    }

    fn lemma_char_width_not_negative(&self, _ch: char) {}

    fn lemma_line_height_positive(&self) {}

    fn char_width(&self, ch: char) -> i16 {
        width_of(ch)
    }

    fn line_height(&self) -> i16 {
        8
    }

    fn text_height(&self) -> i16 {
        6
    }
}

fn layout(width: i16, height: i16) -> TextLayout<Proportional> {
    TextLayout::new(TextStyle::new(
        Proportional,
        Color(0),
        Color(0),
        Color(0),
        Color(0),
    ))
    .with_bounds(Rect::new(Point::new(0, 0), Point::new(width, height)))
}

#[test]
fn widths_add_up_by_character() {
    assert_eq!(text_width(&Proportional, "will"), 5 + 1 + 1 + 1);
    assert_eq!(text_width(&Proportional, "mum"), 13);
    assert!(fits_width(&Proportional, "mum", 13));
    assert!(!fits_width(&Proportional, "mum", 12));
}

#[test]
fn narrow_characters_fill_the_line_further() {
    let narrow = Span::fit_horizontally(
        "illillillill",
        8,
        Proportional,
        LineBreaking::BreakWordsNoHyphen,
        None,
    );
    assert_eq!(narrow.length, 8);
    assert_eq!(narrow.advance, Offset::new(8, 8));
    let wide = Span::fit_horizontally(
        "mwmwmw",
        8,
        Proportional,
        LineBreaking::BreakWordsNoHyphen,
        None,
    );
    assert_eq!(wide.length, 1);
    assert_eq!(wide.advance, Offset::new(5, 8));
}

#[test]
fn hyphen_room_is_the_width_of_the_hyphen() {
    let span = Span::fit_horizontally(
        "abcdef",
        10,
        Proportional,
        LineBreaking::BreakAtWhitespace,
        None,
    );
    assert_eq!(span.length, 2);
    assert_eq!(span.advance, Offset::new(6, 8));
    assert!(span.insert_hyphen_before_line_break);
    let span = Span::fit_horizontally(
        "abcdef",
        11,
        Proportional,
        LineBreaking::BreakAtWhitespace,
        None,
    );
    assert_eq!(span.length, 3);
    assert_eq!(span.advance, Offset::new(9, 8));
}

#[test]
fn first_baseline_is_one_text_height_down() {
    let layout = layout(20, 40);
    assert_eq!(layout.initial_cursor(), Point::new(0, 6));
    let mut cursor = layout.initial_cursor();
    let mut sink = TraceSink::new();
    let fit = layout.layout_text("will it fit?", &mut cursor, &mut sink, false);
    assert_eq!(
        fit,
        LayoutFit::Fitting {
            processed_chars: 12,
            height: 6 + 8
        }
    );
    assert_eq!(cursor, Point::new(10, 14));
    assert_eq!(sink.into_string(), "will it\nfit?");
}

#[test]
fn last_line_keeps_two_dots_free() {
    let layout = layout(20, 13);
    let mut cursor = layout.initial_cursor();
    let mut sink = TraceSink::new();
    let fit = layout.layout_text("aaaaaa bb cc", &mut cursor, &mut sink, false);
    assert_eq!(
        fit,
        LayoutFit::OutOfBounds {
            processed_chars: 7,
            height: 6
        }
    );
    assert_eq!(sink.into_string(), "aaaaaa...");
    let mut cursor = layout.initial_cursor();
    let mut sink = TraceSink::new();
    let fit = layout.layout_text("aaaaaab bb cc", &mut cursor, &mut sink, false);
    assert_eq!(
        fit,
        LayoutFit::OutOfBounds {
            processed_chars: 6,
            height: 6
        }
    );
    assert_eq!(cursor, Point::new(18, 6));
    assert_eq!(sink.into_string(), "aaaaaa...");
}
