use text_layout::geometry::{Alignment, Point, Rect};
use text_layout::layout::{LayoutFit, TextLayout};
use text_layout::metrics::Fixed;
use text_layout::sink::{TextNoOp, TraceSink};
use text_layout::span::LineBreaking;
use text_layout::style::{Color, PageBreaking, TextStyle};

const FONT: Fixed = Fixed { width: 1, height: 1 };

fn style() -> TextStyle<Fixed> {
    TextStyle::new(FONT, Color(1), Color(2), Color(3), Color(4))
}

fn page(width: i16, height: i16) -> TextLayout<Fixed> {
    TextLayout::new(style()).with_bounds(Rect::new(Point::new(0, 0), Point::new(width, height)))
}

fn trace(layout: &TextLayout<Fixed>, text: &str, continues: bool) -> (LayoutFit, Point, String) {
    let mut cursor = layout.initial_cursor();
    let mut sink = TraceSink::new();
    let fit = layout.layout_text(text, &mut cursor, &mut sink, continues);
    (fit, cursor, sink.into_string())
}

fn fitting(processed_chars: usize, height: i16) -> LayoutFit {
    LayoutFit::Fitting {
        processed_chars,
        height,
    }
}

fn out_of_bounds(processed_chars: usize, height: i16) -> LayoutFit {
    LayoutFit::OutOfBounds {
        processed_chars,
        height,
    }
}

#[test]
fn new_layout_is_empty_and_starts_aligned() {
    let layout = TextLayout::new(style());
    assert_eq!(layout.bounds, Rect::zero());
    assert_eq!(layout.padding_top, 0);
    assert_eq!(layout.padding_bottom, 0);
    assert_eq!(layout.align, Alignment::Start);
    assert_eq!(layout.area(), Rect::zero());
}

#[test]
fn builders_set_one_field() {
    let bounds = Rect::new(Point::new(1, 2), Point::new(30, 40));
    let layout = TextLayout::new(style())
        .with_bounds(bounds)
        .with_align(Alignment::End);
    assert_eq!(layout.bounds, bounds);
    assert_eq!(layout.align, Alignment::End);
    assert_eq!(layout.padding_top, 0);
    let mut moved = layout;
    moved.fit(Rect::new(Point::new(5, 6), Point::new(7, 8)));
    assert_eq!(moved.area(), Rect::new(Point::new(5, 6), Point::new(7, 8)));
    assert_eq!(moved.align, Alignment::End);
}

#[test]
fn initial_cursor_is_one_text_height_and_the_padding_down() {
    let mut layout = TextLayout::new(TextStyle::new(
        Fixed { width: 2, height: 7 },
        Color(0),
        Color(0),
        Color(0),
        Color(0),
    ))
    .with_bounds(Rect::new(Point::new(3, 10), Point::new(50, 60)));
    assert_eq!(layout.initial_cursor(), Point::new(3, 17));
    layout.padding_top = 4;
    assert_eq!(layout.initial_cursor(), Point::new(3, 21));
    layout.padding_top = -20;
    assert_eq!(layout.initial_cursor(), Point::new(3, -3));
}

#[test]
fn bottom_y_is_clamped_to_the_top_of_the_bounds() {
    let mut layout = page(5, 10);
    assert_eq!(layout.bottom_y(), 10);
    layout.padding_bottom = 3;
    assert_eq!(layout.bottom_y(), 7);
    layout.padding_bottom = -3;
    assert_eq!(layout.bottom_y(), 13);
    layout.padding_bottom = 10;
    assert_eq!(layout.bottom_y(), 0);
    layout.padding_bottom = 20;
    assert_eq!(layout.bottom_y(), 0);
}

#[test]
fn layout_height_adds_paddings_text_height_and_descent() {
    let mut layout = page(5, 10);
    layout.padding_top = 2;
    layout.padding_bottom = 3;
    let height = layout.layout_height(Point::new(0, 3), Point::new(4, 7));
    assert_eq!(height, 2 + 1 + 4 + 3);
    assert_eq!(fitting(1, height).height(), 10);
    assert_eq!(out_of_bounds(1, -4).height(), -4);
}

#[test]
fn two_words_on_two_lines() {
    let layout = page(5, 10);
    let (fit, cursor, text) = trace(&layout, "hello world", false);
    assert_eq!(fit, fitting(11, 2));
    assert_eq!(cursor, Point::new(5, 2));
    assert_eq!(text, "hello\nworld");
}

#[test]
fn long_word_is_hyphenated() {
    let layout = page(5, 10);
    let (fit, cursor, text) = trace(&layout, "Down with the establishment!", false);
    assert_eq!(fit, fitting(28, 7));
    assert_eq!(cursor, Point::new(2, 7));
    assert_eq!(text, "Down\nwith\nthe\nesta-\nblis-\nhmen-\nt!");
}

#[test]
fn line_feed_breaks_and_is_not_rendered() {
    let layout = page(5, 10);
    let (fit, _, text) = trace(&layout, "hello\nworld", false);
    assert_eq!(fit, fitting(11, 2));
    assert_eq!(text, "hello\nworld");
    let (fit, cursor, text) = trace(&layout, "a\n\nb", false);
    assert_eq!(fit, fitting(4, 3));
    assert_eq!(cursor, Point::new(1, 3));
    assert_eq!(text, "a\n\nb");
}

#[test]
fn one_line_page_ends_with_ellipsis() {
    let layout = page(10, 1);
    let (fit, cursor, text) = trace(&layout, "hello world again", false);
    assert_eq!(fit, out_of_bounds(6, 1));
    assert_eq!(cursor, Point::new(5, 1));
    assert_eq!(text, "hello...");
}

#[test]
fn last_line_keeps_room_for_the_marker() {
    let layout = page(5, 1);
    let (fit, cursor, text) = trace(&layout, "hello world", false);
    assert_eq!(fit, out_of_bounds(3, 1));
    assert_eq!(cursor, Point::new(3, 1));
    assert_eq!(text, "hel...");
}

#[test]
fn cut_page_breaking_has_no_ellipsis() {
    let mut layout = page(5, 1);
    layout.style = layout.style.with_page_breaking(PageBreaking::Cut);
    let (fit, _, text) = trace(&layout, "hello world", false);
    assert_eq!(fit, out_of_bounds(3, 1));
    assert_eq!(text, "hel");
}

#[test]
fn page_may_end_with_all_text_consumed() {
    let layout = page(5, 1);
    let (fit, cursor, text) = trace(&layout, "a\n", false);
    assert_eq!(fit, out_of_bounds(2, 1));
    assert_eq!(cursor, Point::new(1, 1));
    assert_eq!(text, "a");
}

#[test]
fn text_that_ends_the_page_exactly_fits() {
    let layout = page(5, 2);
    let (fit, _, text) = trace(&layout, "hello world", false);
    assert_eq!(fit, fitting(11, 2));
    assert_eq!(text, "hello\nworld");
    let (fit, _, text) = trace(&layout, "hello world!", false);
    assert_eq!(fit, out_of_bounds(9, 2));
    assert_eq!(text, "hello\nwor...");
}

#[test]
fn no_room_for_one_line_processes_nothing() {
    let layout = page(5, 0);
    let (fit, cursor, text) = trace(&layout, "hello", false);
    assert_eq!(fit, out_of_bounds(0, 0));
    assert_eq!(cursor, Point::new(0, 1));
    assert_eq!(text, "");
    let (fit, _, text) = trace(&layout, "hello", true);
    assert_eq!(fit, out_of_bounds(0, 0));
    assert_eq!(text, "");
    let (fit, _, _) = trace(&layout, "", false);
    assert_eq!(fit, out_of_bounds(0, 0));
}

#[test]
fn empty_text_fits_with_the_height_of_one_line() {
    let mut layout = page(5, 10);
    let (fit, cursor, text) = trace(&layout, "", false);
    assert_eq!(fit, fitting(0, 1));
    assert_eq!(cursor, Point::new(0, 1));
    assert_eq!(text, "");
    layout.padding_top = 2;
    layout.padding_bottom = 3;
    assert_eq!(layout.fit_text("", false), fitting(0, 6));
}

#[test]
fn zero_width_breaks_lines_until_the_page_is_full() {
    let layout = page(0, 3);
    let (fit, cursor, text) = trace(&layout, "ab", false);
    assert_eq!(fit, out_of_bounds(0, 3));
    assert_eq!(cursor, Point::new(0, 3));
    assert_eq!(text, "\n\n...");
}

#[test]
fn continuation_marker_moves_the_first_line() {
    let layout = page(5, 10);
    let (fit, cursor, text) = trace(&layout, "abc", true);
    assert_eq!(fit, fitting(3, 1));
    assert_eq!(cursor, Point::new(5, 1));
    assert_eq!(text, "..abc");
    let (fit, cursor, text) = trace(&layout, "abcd efg", true);
    assert_eq!(fit, fitting(8, 3));
    assert_eq!(cursor, Point::new(3, 3));
    assert_eq!(text, "..ab-\ncd\nefg");
}

#[test]
fn paddings_count_in_the_height() {
    let mut layout = page(5, 10);
    layout.padding_top = 2;
    layout.padding_bottom = 3;
    assert_eq!(layout.initial_cursor(), Point::new(0, 3));
    let (fit, cursor, text) = trace(&layout, "hello world", false);
    assert_eq!(fit, fitting(11, 2 + 1 + 1 + 3));
    assert_eq!(cursor, Point::new(5, 4));
    assert_eq!(text, "hello\nworld");
}

#[test]
fn bottom_padding_takes_lines_away() {
    let mut layout = page(5, 10);
    layout.padding_bottom = 8;
    let (fit, _, text) = trace(&layout, "aa bb cc dd", false);
    assert_eq!(fit, fitting(11, 1 + 1 + 8));
    assert_eq!(text, "aa bb\ncc dd");
    let (fit, _, text) = trace(&layout, "aa bb cc dd ee", false);
    assert_eq!(fit, out_of_bounds(9, 1 + 1 + 8));
    assert_eq!(text, "aa bb\ncc...");
    layout.padding_bottom = 9;
    let (fit, _, text) = trace(&layout, "aa bb cc dd", false);
    assert_eq!(fit, out_of_bounds(3, 1 + 9));
    assert_eq!(text, "aa...");
}

#[test]
fn negative_padding_shifts_text_out_of_the_box() {
    let mut layout = page(5, 2);
    layout.padding_top = -1;
    layout.padding_bottom = -1;
    assert_eq!(layout.initial_cursor(), Point::new(0, 0));
    assert_eq!(layout.bottom_y(), 3);
    let (fit, cursor, text) = trace(&layout, "a b c d e f g", false);
    assert_eq!(fit, fitting(13, -1 + 1 + 2 - 1));
    assert_eq!(cursor, Point::new(1, 2));
    assert_eq!(text, "a b c\nd e f\ng");
}

#[test]
fn carriage_return_is_a_half_line() {
    let tall = Fixed { width: 1, height: 10 };
    let layout = TextLayout::new(TextStyle::new(tall, Color(0), Color(0), Color(0), Color(0)))
        .with_bounds(Rect::new(Point::new(0, 0), Point::new(5, 100)));
    let mut cursor = layout.initial_cursor();
    let mut sink = TraceSink::new();
    let fit = layout.layout_text("ab\rcd\nef", &mut cursor, &mut sink, false);
    assert_eq!(fit, fitting(8, 10 + 5 + 10));
    assert_eq!(cursor, Point::new(2, 25));
    assert_eq!(sink.as_str(), "ab\ncd\nef");
}

#[test]
fn carriage_return_of_no_height_goes_on_in_the_line() {
    let layout = page(5, 10);
    let (fit, cursor, text) = trace(&layout, "ab\rcd", false);
    assert_eq!(fit, fitting(5, 1));
    assert_eq!(cursor, Point::new(4, 1));
    assert_eq!(text, "abcd");
}

#[test]
fn cursor_is_threaded_through_two_calls() {
    let layout = page(5, 10);
    let mut cursor = layout.initial_cursor();
    let mut sink = TraceSink::new();
    let first = layout.layout_text("ab", &mut cursor, &mut sink, false);
    assert_eq!(first, fitting(2, 1));
    assert_eq!(cursor, Point::new(2, 1));
    let second = layout.layout_text("cd efg", &mut cursor, &mut sink, false);
    assert_eq!(second, fitting(6, 2));
    assert_eq!(cursor, Point::new(3, 2));
    assert_eq!(sink.into_string(), "abcd\nefg");
}

#[test]
fn pages_are_counted_by_measuring_from_where_the_last_ended() {
    let layout = page(10, 1);
    let text = "hello world again";
    let mut offset = 0;
    let mut pages = vec![];
    loop {
        let fit = layout.fit_text(&text[offset..], offset > 0);
        match fit {
            LayoutFit::Fitting { processed_chars, .. } => {
                pages.push(&text[offset..offset + processed_chars]);
                break;
            }
            LayoutFit::OutOfBounds { processed_chars, .. } => {
                assert!(processed_chars > 0);
                pages.push(&text[offset..offset + processed_chars]);
                offset += processed_chars;
            }
        }
    }
    assert_eq!(pages, vec!["hello ", "world ", "again"]);
}

#[test]
fn measuring_agrees_with_driving_the_no_op_sink() {
    let layout = page(7, 3);
    for text in ["", "a", "hello world", "Down with the establishment!", "a\n\n\n\nb"] {
        for continues in [false, true] {
            let mut cursor = layout.initial_cursor();
            let mut sink = TextNoOp;
            let driven = layout.layout_text(text, &mut cursor, &mut sink, continues);
            assert_eq!(layout.fit_text(text, continues), driven);
            let (traced, _, _) = trace(&layout, text, continues);
            assert_eq!(traced, driven);
        }
    }
}

#[test]
fn line_breaking_of_the_style_is_used() {
    let mut layout = page(5, 10);
    let (fit, _, text) = trace(&layout, "ab cdefgh", false);
    assert_eq!(fit, fitting(9, 3));
    assert_eq!(text, "ab\ncdef-\ngh");
    layout.style = layout.style.with_line_breaking(LineBreaking::BreakWordsNoHyphen);
    let (fit, _, text) = trace(&layout, "ab cdefgh", false);
    assert_eq!(fit, fitting(9, 2));
    assert_eq!(text, "ab cd\nefgh");
    layout.style = layout
        .style
        .with_line_breaking(LineBreaking::BreakWordsAndInsertHyphen);
    let (fit, _, text) = trace(&layout, "ab cdefgh", false);
    assert_eq!(fit, fitting(9, 2));
    assert_eq!(text, "ab c-\ndefgh");
    let (fit, _, text) = trace(&layout, "hello world", false);
    assert_eq!(fit, fitting(11, 2));
    assert_eq!(text, "hello\nworld");
}
