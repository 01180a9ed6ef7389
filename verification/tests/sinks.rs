use text_layout::geometry::{Alignment, Point, Rect};
use text_layout::layout::{LayoutFit, TextLayout};
use text_layout::metrics::Fixed;
use text_layout::sink::{DrawOp, LayoutSink, TextNoOp, TextRenderer, TraceSink};
use text_layout::style::{Color, PageBreaking, TextStyle};

const FONT: Fixed = Fixed { width: 1, height: 1 };
const TEXT: Color = Color(0x1111);
const BACKGROUND: Color = Color(0x2222);
const HYPHEN: Color = Color(0x3333);
const ELLIPSIS: Color = Color(0x4444);
static ICON: [u8; 4] = [7, 8, 9, 10];
static ARROW: [u8; 2] = [5, 6];

fn style() -> TextStyle<Fixed> {
    TextStyle::new(FONT, TEXT, BACKGROUND, HYPHEN, ELLIPSIS)
}

fn page(width: i16, height: i16) -> TextLayout<Fixed> {
    TextLayout::new(style()).with_bounds(Rect::new(Point::new(0, 0), Point::new(width, height)))
}

fn text_op(x: i16, y: i16, anchor: Alignment, text: &str, fg: Color) -> DrawOp<Fixed> {
    DrawOp::Text {
        at: Point::new(x, y),
        anchor,
        text: String::from(text),
        font: FONT,
        fg,
        bg: BACKGROUND,
    }
}

#[test]
fn new_style_has_the_defaults() {
    let style = style();
    assert_eq!(style.text_font, FONT);
    assert_eq!(style.text_color, TEXT);
    assert_eq!(style.background_color, BACKGROUND);
    assert_eq!(style.hyphen_color, HYPHEN);
    assert_eq!(style.ellipsis_color, ELLIPSIS);
    assert_eq!(style.ellipsis_icon, None);
    assert_eq!(style.prev_page_ellipsis_icon, None);
    assert_eq!(style.page_breaking, PageBreaking::CutAndInsertEllipsis);
    assert_eq!(style.line_alignment, Alignment::Start);
}

#[test]
fn style_builders_set_one_field() {
    let style = style()
        .with_page_breaking(PageBreaking::Cut)
        .with_ellipsis_icon(&ICON)
        .with_prev_page_icon(&ARROW);
    assert_eq!(style.page_breaking, PageBreaking::Cut);
    assert_eq!(style.ellipsis_icon, Some(&ICON[..]));
    assert_eq!(style.prev_page_ellipsis_icon, Some(&ARROW[..]));
    assert_eq!(style.text_color, TEXT);
    assert_eq!(style.line_alignment, Alignment::Start);
}

#[test]
fn trace_writes_every_event_as_text() {
    let layout = page(5, 10);
    let mut sink = TraceSink::new();
    let cursor = Point::new(0, 0);
    assert_eq!(sink.as_str(), "");
    sink.text(cursor, &layout, "abc");
    sink.hyphen(cursor, &layout);
    LayoutSink::<Fixed>::line_break(&mut sink, cursor);
    sink.ellipsis(cursor, &layout);
    LayoutSink::<Fixed>::out_of_bounds(&mut sink);
    let width = sink.prev_page_ellipsis(cursor, &layout);
    assert_eq!(width, 2);
    assert_eq!(sink.as_str(), "abc-\n.....");
    assert_eq!(sink.into_string(), "abc-\n.....");
}

#[test]
fn no_op_sink_still_reports_the_marker_width() {
    let wide = Fixed { width: 7, height: 3 };
    let layout = TextLayout::new(TextStyle::new(wide, TEXT, BACKGROUND, HYPHEN, ELLIPSIS))
        .with_bounds(Rect::new(Point::new(0, 0), Point::new(50, 50)));
    let mut sink = TextNoOp;
    assert_eq!(sink.prev_page_ellipsis(Point::new(0, 3), &layout), 14);
    let mut cursor = layout.initial_cursor();
    let fit = layout.layout_text("ab", &mut cursor, &mut sink, true);
    assert_eq!(
        fit,
        LayoutFit::Fitting {
            processed_chars: 2,
            height: 3
        }
    );
    assert_eq!(cursor, Point::new(14 + 14, 3));
}

#[test]
fn renderer_draws_lines_from_the_left() {
    let layout = page(5, 10);
    let ops = layout.render_text("hello world", false);
    assert_eq!(
        ops,
        vec![
            text_op(0, 1, Alignment::Start, "hello", TEXT),
            text_op(0, 2, Alignment::Start, "world", TEXT),
        ]
    );
}

#[test]
fn renderer_draws_hyphens_in_their_color() {
    let layout = page(5, 10);
    let ops = layout.render_text("establishment", false);
    assert_eq!(
        ops,
        vec![
            text_op(0, 1, Alignment::Start, "esta", TEXT),
            text_op(4, 1, Alignment::Start, "-", HYPHEN),
            text_op(0, 2, Alignment::Start, "blis", TEXT),
            text_op(4, 2, Alignment::Start, "-", HYPHEN),
            text_op(0, 3, Alignment::Start, "hment", TEXT),
        ]
    );
}

#[test]
fn renderer_anchors_lines_by_the_line_alignment() {
    let mut layout = page(10, 10);
    layout.style.line_alignment = Alignment::Center;
    assert_eq!(
        layout.render_text("abcd", false),
        vec![text_op(5, 1, Alignment::Center, "abcd", TEXT)]
    );
    layout.style.line_alignment = Alignment::End;
    assert_eq!(
        layout.render_text("abcd", false),
        vec![text_op(10, 1, Alignment::End, "abcd", TEXT)]
    );
    assert_eq!(
        layout.render_text("abcd", true),
        vec![
            text_op(0, 1, Alignment::Start, "..", ELLIPSIS),
            text_op(10, 1, Alignment::End, "abcd", TEXT),
        ]
    );
}

#[test]
fn center_anchor_rounds_towards_the_cursor() {
    let mut layout = page(9, 10);
    layout.style.line_alignment = Alignment::Center;
    let mut renderer = TextRenderer::new();
    renderer.text(Point::new(2, 1), &layout, "x");
    renderer.text(Point::new(12, 1), &layout, "y");
    assert_eq!(
        renderer.into_ops(),
        vec![
            text_op(5, 1, Alignment::Center, "x", TEXT),
            text_op(11, 1, Alignment::Center, "y", TEXT),
        ]
    );
}

#[test]
fn block_alignment_moves_the_cursor_of_each_line() {
    let layout = page(10, 10).with_align(Alignment::Center);
    assert_eq!(
        layout.render_text("abcd\nab", false),
        vec![
            text_op(3, 1, Alignment::Start, "abcd", TEXT),
            text_op(4, 2, Alignment::Start, "ab", TEXT),
        ]
    );
    let layout = page(10, 10).with_align(Alignment::End);
    assert_eq!(
        layout.render_text("abcd\nab", false),
        vec![
            text_op(6, 1, Alignment::Start, "abcd", TEXT),
            text_op(8, 2, Alignment::Start, "ab", TEXT),
        ]
    );
    let mut cursor = layout.initial_cursor();
    let mut sink = TextNoOp;
    layout.layout_text("abcde", &mut cursor, &mut sink, false);
    assert_eq!(cursor, Point::new(10, 1));
}

#[test]
fn renderer_draws_the_ellipsis_as_text_or_icon() {
    let layout = page(5, 1);
    assert_eq!(
        layout.render_text("hello world", false),
        vec![
            text_op(0, 1, Alignment::Start, "hel", TEXT),
            text_op(3, 1, Alignment::Start, "...", ELLIPSIS),
        ]
    );
    let mut with_icon = layout;
    with_icon.style = with_icon.style.with_ellipsis_icon(&ICON);
    assert_eq!(
        with_icon.render_text("hello world", false),
        vec![
            text_op(0, 1, Alignment::Start, "hel", TEXT),
            DrawOp::Icon {
                data: &ICON,
                bottom_left: Point::new(5, 2),
                fg: ELLIPSIS,
                bg: BACKGROUND,
            },
        ]
    );
}

#[test]
fn renderer_draws_the_continuation_marker_as_text_or_icon() {
    let layout = page(5, 10);
    assert_eq!(
        layout.render_text("abc", true),
        vec![
            text_op(0, 1, Alignment::Start, "..", ELLIPSIS),
            text_op(2, 1, Alignment::Start, "abc", TEXT),
        ]
    );
    let mut with_icon = layout;
    with_icon.style = with_icon.style.with_prev_page_icon(&ARROW);
    assert_eq!(
        with_icon.render_text("abc", true),
        vec![
            DrawOp::Icon {
                data: &ARROW,
                bottom_left: Point::new(0, 1),
                fg: ELLIPSIS,
                bg: BACKGROUND,
            },
            text_op(2, 1, Alignment::Start, "abc", TEXT),
        ]
    );
}

#[test]
fn renderer_draws_nothing_without_room() {
    let layout = page(5, 0);
    assert_eq!(layout.render_text("hello", true), vec![]);
    let mut renderer: TextRenderer<Fixed> = TextRenderer::new();
    renderer.line_break(Point::new(0, 0));
    renderer.out_of_bounds();
    assert_eq!(renderer.into_ops(), vec![]);
}
