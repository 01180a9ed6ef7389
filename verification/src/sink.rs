//! Sinks: who receives what a layout pass reports. One measures only, one
//! records what is to be drawn, one writes a trace.

use crate::geometry::{half_towards_zero, halve, Alignment, Offset, Point};
use crate::layout::{prev_page_ellipsis_spec, LayoutEvent, TextLayout};
use crate::metrics::{text_width, GlyphMetrics};
use crate::style::Color;
use vstd::prelude::*;
use vstd::string::*;

verus! {

/// The continuation marker, as text.
pub const PREV_PAGE_ELLIPSIS: &'static str = "..";

/// The marker for the end of a page, as text.
pub const ELLIPSIS: &'static str = "...";

/// The hyphen at the end of a line, as text.
pub const HYPHEN: &'static str = "-";

/// The marker for the end of a page, as text.
pub open spec fn ellipsis_spec() -> Seq<char> {
    seq!['.', '.', '.']
}

/// The hyphen at the end of a line, as text.
pub open spec fn hyphen_spec() -> Seq<char> {
    seq!['-']
}

/// The three markers hold the characters that their models name.
pub proof fn lemma_markers()
    ensures
        PREV_PAGE_ELLIPSIS@ == prev_page_ellipsis_spec(),
        ELLIPSIS@ == ellipsis_spec(),
        HYPHEN@ == hyphen_spec(),
{
    reveal_strlit("..");
    reveal_strlit("...");
    reveal_strlit("-");
}

/// Width of the continuation marker in the font of `layout`.
pub fn prev_page_ellipsis_width<F: GlyphMetrics>(layout: &TextLayout<F>) -> (width: i16)
    requires
        layout.in_range(),
    ensures
        width == layout.prev_page_ellipsis_width(),
{
    proof {
        lemma_markers();
        layout.lemma_marker_width();
    }
    text_width(&layout.style.text_font, PREV_PAGE_ELLIPSIS)
}

/// Visitor for text segment operations. Defines responses for certain kind
/// of events encountered when processing the content.
///
/// What a sink holds is a value `state()`, and `accept` says what each event
/// makes of it; every method reports one event.
pub trait LayoutSink<F: GlyphMetrics> {
    /// What the sink has made of the events so far.
    type State;

    spec fn state(&self) -> Self::State;

    /// What the sink holds after `event`, if it held `state` before.
    spec fn accept(state: Self::State, event: LayoutEvent<F>) -> Self::State;

    /// Text should be processed.
    fn text(&mut self, cursor: Point, layout: &TextLayout<F>, text: &str)
        requires
            layout.in_range(),
            cursor.in_reach(),
        ensures
            final(self).state() == Self::accept(
                old(self).state(),
                LayoutEvent::Text { cursor, layout: *layout, text: text@ },
            ),
    ;

    /// Hyphen at the end of line.
    fn hyphen(&mut self, cursor: Point, layout: &TextLayout<F>)
        requires
            layout.in_range(),
            cursor.in_reach(),
        ensures
            final(self).state() == Self::accept(
                old(self).state(),
                LayoutEvent::Hyphen { cursor, layout: *layout },
            ),
    ;

    /// Ellipsis at the end of the page.
    fn ellipsis(&mut self, cursor: Point, layout: &TextLayout<F>)
        requires
            layout.in_range(),
            cursor.in_reach(),
        ensures
            final(self).state() == Self::accept(
                old(self).state(),
                LayoutEvent::Ellipsis { cursor, layout: *layout },
            ),
    ;

    /// Ellipsis at the beginning of the page. Returns the width that it takes:
    /// that of two dots, whatever the sink does with it.
    fn prev_page_ellipsis(&mut self, cursor: Point, layout: &TextLayout<F>) -> (width: i16)
        requires
            layout.in_range(),
            cursor.in_reach(),
        ensures
            width == layout.prev_page_ellipsis_width(),
            final(self).state() == Self::accept(
                old(self).state(),
                LayoutEvent::PrevPageEllipsis { cursor, layout: *layout },
            ),
    ;

    /// Line break - a newline.
    fn line_break(&mut self, cursor: Point)
        ensures
            final(self).state() == Self::accept(
                old(self).state(),
                LayoutEvent::LineBreak { cursor },
            ),
    ;

    /// Content cannot fit on the screen.
    fn out_of_bounds(&mut self)
        ensures
            final(self).state() == Self::accept(old(self).state(), LayoutEvent::OutOfBounds),
    ;
}

/// What a sink holds after `events`, in order, if it held `state` before.
pub open spec fn play<F: GlyphMetrics, S: LayoutSink<F>>(
    state: S::State,
    events: Seq<LayoutEvent<F>>,
) -> S::State
    decreases events.len(),
{
    if events.len() == 0 {
        state
    } else {
        play::<F, S>(S::accept(state, events[0]), events.drop_first())
    }
}

/// Events played one after the other are played as one sequence.
pub proof fn lemma_play_concat<F: GlyphMetrics, S: LayoutSink<F>>(
    state: S::State,
    first: Seq<LayoutEvent<F>>,
    second: Seq<LayoutEvent<F>>,
)
    ensures
        play::<F, S>(state, first + second) == play::<F, S>(play::<F, S>(state, first), second),
    decreases first.len(),
{
    if first.len() > 0 {
        assert((first + second).drop_first() == first.drop_first() + second);
        lemma_play_concat::<F, S>(S::accept(state, first[0]), first.drop_first(), second);
    }
}

/// A single event is played by accepting it.
pub proof fn lemma_play_one<F: GlyphMetrics, S: LayoutSink<F>>(
    state: S::State,
    event: LayoutEvent<F>,
)
    ensures
        play::<F, S>(state, seq![event]) == S::accept(state, event),
{
    reveal_with_fuel(play, 2);
}

/// No event leaves the sink as it is.
pub proof fn lemma_play_none<F: GlyphMetrics, S: LayoutSink<F>>(state: S::State)
    ensures
        play::<F, S>(state, Seq::<LayoutEvent<F>>::empty()) == state,
{
}

/// `LayoutSink` without any functionality. Used to consume events when
/// counting pages or navigating to a certain page number.
pub struct TextNoOp;

impl<F: GlyphMetrics> LayoutSink<F> for TextNoOp {
    type State = ();

    open spec fn state(&self) -> () {
        ()
    }

    open spec fn accept(state: (), event: LayoutEvent<F>) -> () {
        ()
    }

    fn text(&mut self, cursor: Point, layout: &TextLayout<F>, text: &str) {
    }

    fn hyphen(&mut self, cursor: Point, layout: &TextLayout<F>) {
    }

    fn ellipsis(&mut self, cursor: Point, layout: &TextLayout<F>) {
    }

    fn prev_page_ellipsis(&mut self, cursor: Point, layout: &TextLayout<F>) -> (width: i16) {
        prev_page_ellipsis_width(layout)
    }

    fn line_break(&mut self, cursor: Point) {
    }

    fn out_of_bounds(&mut self) {
    }
}

/// `LayoutSink` for debugging purposes: it writes down every event as text,
/// one piece behind the other.
pub struct TraceSink {
    buffer: String,
}

/// What the trace holds for `event`: the text itself, `-` for a hyphen, `...`
/// for an ellipsis, `..` for the continuation marker, a line feed for a line
/// break, and nothing where the content is out of bounds.
pub open spec fn trace_of<F>(event: LayoutEvent<F>) -> Seq<char> {
    match event {
        LayoutEvent::Text { text, .. } => text,
        LayoutEvent::Hyphen { .. } => hyphen_spec(),
        LayoutEvent::Ellipsis { .. } => ellipsis_spec(),
        LayoutEvent::PrevPageEllipsis { .. } => prev_page_ellipsis_spec(),
        LayoutEvent::LineBreak { .. } => seq!['\n'],
        LayoutEvent::OutOfBounds => seq![],
    }
}

impl View for TraceSink {
    type V = Seq<char>;

    closed spec fn view(&self) -> Seq<char> {
        self.buffer@
    }
}

impl TraceSink {
    /// A sink with an empty trace.
    pub fn new() -> (sink: Self)
        ensures
            sink@ == Seq::<char>::empty(),
    {
        TraceSink { buffer: String::new() }
    }

    /// The trace so far.
    pub fn as_str(&self) -> (trace: &str)
        ensures
            trace@ == self@,
    {
        self.buffer.as_str()
    }

    /// The trace, at the end.
    pub fn into_string(self) -> (trace: String)
        ensures
            trace@ == self@,
    {
        self.buffer
    }
}

impl<F: GlyphMetrics> LayoutSink<F> for TraceSink {
    type State = Seq<char>;

    open spec fn state(&self) -> Seq<char> {
        self@
    }

    open spec fn accept(state: Seq<char>, event: LayoutEvent<F>) -> Seq<char> {
        state + trace_of(event)
    }

    fn text(&mut self, cursor: Point, layout: &TextLayout<F>, text: &str) {
        self.buffer.append(text);
    }

    fn hyphen(&mut self, cursor: Point, layout: &TextLayout<F>) {
        proof {
            lemma_markers();
        }
        self.buffer.append(HYPHEN);
    }

    fn ellipsis(&mut self, cursor: Point, layout: &TextLayout<F>) {
        proof {
            lemma_markers();
        }
        self.buffer.append(ELLIPSIS);
    }

    fn prev_page_ellipsis(&mut self, cursor: Point, layout: &TextLayout<F>) -> (width: i16) {
        proof {
            lemma_markers();
        }
        self.buffer.append(PREV_PAGE_ELLIPSIS);
        prev_page_ellipsis_width(layout)
    }

    fn line_break(&mut self, cursor: Point) {
        proof {
            reveal_strlit("\n");
            assert("\n"@ =~= seq!['\n']);
        }
        self.buffer.append("\n");
    }

    fn out_of_bounds(&mut self) {
    }
}

/// One call of a drawing primitive of the display.
#[derive(Debug, PartialEq, Eq)]
pub enum DrawOp<F> {
    /// Draw `text` in `font`. `at` is a point on its baseline: its left end,
    /// its center or its right end, as `anchor` says.
    Text { at: Point, anchor: Alignment, text: String, font: F, fg: Color, bg: Color },
    /// Draw the icon `data` with its bottom-left corner at `bottom_left`.
    Icon { data: &'static [u8], bottom_left: Point, fg: Color, bg: Color },
}

/// A drawing operation as a mathematical value.
pub ghost enum Drawing<F> {
    Text { at: Point, anchor: Alignment, text: Seq<char>, font: F, fg: Color, bg: Color },
    Icon { data: &'static [u8], bottom_left: Point, fg: Color, bg: Color },
}

impl<F> View for DrawOp<F> {
    type V = Drawing<F>;

    open spec fn view(&self) -> Drawing<F> {
        match *self {
            DrawOp::Text { at, anchor, text, font, fg, bg } => Drawing::Text {
                at,
                anchor,
                text: text@,
                font,
                fg,
                bg,
            },
            DrawOp::Icon { data, bottom_left, fg, bg } => Drawing::Icon {
                data,
                bottom_left,
                fg,
                bg,
            },
        }
    }
}

/// The point on the baseline that a line of text at `cursor` is anchored at:
/// the cursor itself, the middle between the cursor and the right edge of the
/// bounds, or the point on that edge, as the line alignment of the style says.
pub open spec fn text_anchor<F>(layout: TextLayout<F>, cursor: Point) -> Point {
    match layout.style.line_alignment {
        Alignment::Start => cursor,
        Alignment::Center => Point {
            x: (cursor.x + half_towards_zero(layout.bounds.x1 - cursor.x)) as i16,
            y: cursor.y,
        },
        Alignment::End => Point { x: layout.bounds.x1, y: cursor.y },
    }
}

/// `text` drawn from `cursor` to the right, in the font and on the background
/// of `layout`.
pub open spec fn marker_drawing<F>(
    layout: TextLayout<F>,
    cursor: Point,
    text: Seq<char>,
    fg: Color,
) -> Drawing<F> {
    Drawing::Text {
        at: cursor,
        anchor: Alignment::Start,
        text,
        font: layout.style.text_font,
        fg,
        bg: layout.style.background_color,
    }
}

/// What the renderer draws for `event`. Text is anchored as the line
/// alignment of the style says, in the text color. A hyphen stands at the
/// cursor in the hyphen color. An ellipsis is the icon of the style, two to the
/// right of the cursor and one below it, or three dots at the cursor. The
/// continuation marker is the icon of the style, or two dots, at the cursor.
/// Both are drawn in the ellipsis color. Nothing is drawn for a line break and
/// where the content is out of bounds.
pub open spec fn drawing_of<F>(event: LayoutEvent<F>) -> Seq<Drawing<F>> {
    match event {
        LayoutEvent::Text { cursor, layout, text } => seq![
            Drawing::Text {
                at: text_anchor(layout, cursor),
                anchor: layout.style.line_alignment,
                text,
                font: layout.style.text_font,
                fg: layout.style.text_color,
                bg: layout.style.background_color,
            },
        ],
        LayoutEvent::Hyphen { cursor, layout } => seq![
            marker_drawing(layout, cursor, hyphen_spec(), layout.style.hyphen_color),
        ],
        LayoutEvent::Ellipsis { cursor, layout } => match layout.style.ellipsis_icon {
            Some(data) => seq![
                Drawing::Icon {
                    data,
                    bottom_left: cursor.moved(Offset { x: 2, y: 1 }),
                    fg: layout.style.ellipsis_color,
                    bg: layout.style.background_color,
                },
            ],
            None => seq![
                marker_drawing(layout, cursor, ellipsis_spec(), layout.style.ellipsis_color),
            ],
        },
        LayoutEvent::PrevPageEllipsis { cursor, layout } => match layout.style.prev_page_ellipsis_icon {
            Some(data) => seq![
                Drawing::Icon {
                    data,
                    bottom_left: cursor,
                    fg: layout.style.ellipsis_color,
                    bg: layout.style.background_color,
                },
            ],
            None => seq![
                marker_drawing(
                    layout,
                    cursor,
                    prev_page_ellipsis_spec(),
                    layout.style.ellipsis_color,
                ),
            ],
        },
        LayoutEvent::LineBreak { .. } => seq![],
        LayoutEvent::OutOfBounds => seq![],
    }
}

/// `LayoutSink` for rendering the content: it records, in order, the calls of
/// the drawing primitives that put the content on the display.
pub struct TextRenderer<F> {
    ops: Vec<DrawOp<F>>,
}

impl<F> View for TextRenderer<F> {
    type V = Seq<Drawing<F>>;

    closed spec fn view(&self) -> Seq<Drawing<F>> {
        self.ops@.map_values(|op: DrawOp<F>| op@)
    }
}

impl<F: GlyphMetrics + Copy> TextRenderer<F> {
    /// A renderer that has drawn nothing.
    pub fn new() -> (renderer: Self)
        ensures
            renderer@ == Seq::<Drawing<F>>::empty(),
    {
        let renderer = TextRenderer { ops: Vec::new() };
        renderer
    }

    /// What there is to draw, in order.
    pub fn into_ops(self) -> (ops: Vec<DrawOp<F>>)
        ensures
            ops@.map_values(|op: DrawOp<F>| op@) == self@,
    {
        self.ops
    }

    /// Records one drawing operation.
    fn draw(&mut self, op: DrawOp<F>)
        ensures
            final(self)@ == old(self)@ + seq![op@],
    {
        self.ops.push(op);
    }

    /// Records `text` drawn from `cursor` to the right.
    fn draw_marker(&mut self, cursor: Point, layout: &TextLayout<F>, text: &str, fg: Color)
        ensures
            final(self)@ == old(self)@ + seq![marker_drawing(*layout, cursor, text@, fg)],
    {
        self.draw(
            DrawOp::Text {
                at: cursor,
                anchor: Alignment::Start,
                text: text.to_owned(),
                font: layout.style.text_font,
                fg,
                bg: layout.style.background_color,
            },
        );
    }
}

impl<F: GlyphMetrics + Copy> LayoutSink<F> for TextRenderer<F> {
    type State = Seq<Drawing<F>>;

    open spec fn state(&self) -> Seq<Drawing<F>> {
        self@
    }

    open spec fn accept(state: Seq<Drawing<F>>, event: LayoutEvent<F>) -> Seq<Drawing<F>> {
        state + drawing_of(event)
    }

    fn text(&mut self, cursor: Point, layout: &TextLayout<F>, text: &str) {
        // Accounting for the line-alignment - left, right or center. Assume
        // the current line can be drawn on from the cursor to the right side
        // of the bounds.
        let at = match layout.style.line_alignment {
            Alignment::Start => cursor,
            Alignment::Center => {
                let room = layout.bounds.x1 as i32 - cursor.x as i32;
                Point::new((cursor.x as i32 + halve(room)) as i16, cursor.y)
            },
            Alignment::End => Point::new(layout.bounds.x1, cursor.y),
        };
        self.draw(
            DrawOp::Text {
                at,
                anchor: layout.style.line_alignment,
                text: text.to_owned(),
                font: layout.style.text_font,
                fg: layout.style.text_color,
                bg: layout.style.background_color,
            },
        );
    }

    fn hyphen(&mut self, cursor: Point, layout: &TextLayout<F>) {
        proof {
            lemma_markers();
        }
        self.draw_marker(cursor, layout, HYPHEN, layout.style.hyphen_color);
    }

    fn ellipsis(&mut self, cursor: Point, layout: &TextLayout<F>) {
        proof {
            lemma_markers();
        }
        if let Some(data) = layout.style.ellipsis_icon {
            let bottom_left = cursor.translate(Offset::new(2, 1));
            self.draw(
                DrawOp::Icon {
                    data,
                    bottom_left,
                    fg: layout.style.ellipsis_color,
                    bg: layout.style.background_color,
                },
            );
        } else {
            self.draw_marker(cursor, layout, ELLIPSIS, layout.style.ellipsis_color);
        }
    }

    fn prev_page_ellipsis(&mut self, cursor: Point, layout: &TextLayout<F>) -> (width: i16) {
        proof {
            lemma_markers();
        }
        if let Some(data) = layout.style.prev_page_ellipsis_icon {
            self.draw(
                DrawOp::Icon {
                    data,
                    bottom_left: cursor,
                    fg: layout.style.ellipsis_color,
                    bg: layout.style.background_color,
                },
            );
        } else {
            self.draw_marker(cursor, layout, PREV_PAGE_ELLIPSIS, layout.style.ellipsis_color);
        }
        prev_page_ellipsis_width(layout)
    }

    fn line_break(&mut self, cursor: Point) {
    }

    fn out_of_bounds(&mut self) {
    }
}

} // verus!
