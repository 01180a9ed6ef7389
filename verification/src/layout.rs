//! Laying out a text in a bounding box, line by line, until the text or the
//! box ends.

use crate::geometry::{
    half_towards_zero, is_within_limit, within_limit, Alignment, Point, Rect, CANVAS_LIMIT,
    COORD_LIMIT, REACH_LIMIT,
};
use crate::metrics::{text_width_spec, GlyphMetrics};
use crate::sink::{
    lemma_play_concat, lemma_play_none, lemma_play_one, play, prev_page_ellipsis_width, DrawOp, Drawing,
    LayoutSink, TextNoOp, TextRenderer,
};
use crate::span::{is_whitespace_spec, lemma_cut_bytes, Cut, Scan, Span};
use crate::style::{PageBreaking, TextStyle};
use crate::text::{
    byte_len, byte_offset, lemma_byte_offset_grows, lemma_split_at_offset, split_text,
};
use vstd::prelude::*;
use vstd::string::*;
use vstd::utf8::{encode_utf8, is_char_boundary};

verus! {

/// Visual instructions for laying out a formatted block of text.
#[derive(Copy, Clone)]
pub struct TextLayout<F> {
    /// Bounding box restricting the layout dimensions.
    pub bounds: Rect,
    /// Additional space before beginning of text, can be negative to shift text
    /// upwards.
    pub padding_top: i16,
    /// Additional space between end of text and bottom of bounding box, can be
    /// negative.
    pub padding_bottom: i16,
    /// Fonts, colors, line/page breaking behavior.
    pub style: TextStyle<F>,
    /// Horizontal alignment.
    pub align: Alignment,
}

/// Whether we can fit content on the current screen.
/// Knows how many bytes got processed and how high the content is.
#[derive(Copy, Clone, Debug, PartialEq, Eq, Structural)]
pub enum LayoutFit {
    /// Entire content fits. Vertical size is returned in `height`.
    Fitting { processed_chars: usize, height: i16 },
    /// Content fits partially or not at all.
    OutOfBounds { processed_chars: usize, height: i16 },
}

impl LayoutFit {
    /// How high is the processed/fitted content.
    pub fn height(&self) -> (height: i16)
        ensures
            height == self.height_spec(),
    {
        match self {
            LayoutFit::Fitting { height, .. } => *height,
            LayoutFit::OutOfBounds { height, .. } => *height,
        }
    }

    pub open spec fn height_spec(&self) -> i16 {
        match self {
            LayoutFit::Fitting { height, .. } => *height,
            LayoutFit::OutOfBounds { height, .. } => *height,
        }
    }

    /// How many bytes of the text were laid out or skipped.
    pub open spec fn processed(&self) -> usize {
        match self {
            LayoutFit::Fitting { processed_chars, .. } => *processed_chars,
            LayoutFit::OutOfBounds { processed_chars, .. } => *processed_chars,
        }
    }
}

/// What a layout pass reports while it walks a text.
pub ghost enum LayoutEvent<F> {
    /// `text` starts at `cursor`.
    Text { cursor: Point, layout: TextLayout<F>, text: Seq<char> },
    /// A hyphen at the end of a line.
    Hyphen { cursor: Point, layout: TextLayout<F> },
    /// An ellipsis at the end of the page.
    Ellipsis { cursor: Point, layout: TextLayout<F> },
    /// An ellipsis at the beginning of the page.
    PrevPageEllipsis { cursor: Point, layout: TextLayout<F> },
    /// A new line starts at `cursor`.
    LineBreak { cursor: Point },
    /// The content does not fit on the page.
    OutOfBounds,
}

/// How the walk over a text ends.
pub ghost struct Pass<F> {
    /// What was reported, in order.
    pub events: Seq<LayoutEvent<F>>,
    /// Where the cursor stands at the end.
    pub cursor: Point,
    /// The text that was put on a line or skipped, in order.
    pub covered: Seq<char>,
    /// The text that was not reached.
    pub rest: Seq<char>,
    /// Whether the walk reached the end of the text before the end of the
    /// page.
    pub fits: bool,
}

/// What a layout pass returns, where it leaves the cursor, and what it
/// reports.
pub ghost struct Outcome<F> {
    pub fit: LayoutFit,
    pub cursor: Point,
    pub events: Seq<LayoutEvent<F>>,
}

/// The continuation marker, as text.
pub open spec fn prev_page_ellipsis_spec() -> Seq<char> {
    seq!['.', '.']
}

impl<F: GlyphMetrics> TextLayout<F> {
    /// The bounds, the paddings and the metrics of the font that a pass adds
    /// up are no further from zero than `COORD_LIMIT`, so that, from a cursor
    /// on the canvas, no sum of them leaves 16 bits.
    pub open spec fn in_range(self) -> bool {
        &&& self.bounds.near()
        &&& within_limit(self.padding_top as int)
        &&& within_limit(self.padding_bottom as int)
        &&& within_limit(self.style.text_font.text_height_spec() as int)
        &&& self.style.text_font.line_height_spec() <= COORD_LIMIT
        &&& self.style.text_font.char_width_spec('.') <= COORD_LIMIT
        &&& self.style.text_font.char_width_spec(' ') <= COORD_LIMIT
    }

    /// The cursor is where a pass that started on the canvas may find or
    /// leave it: on the canvas, or to the right of it by no more than a
    /// continuation marker is wide.
    pub open spec fn reaches(self, cursor: Point) -> bool {
        &&& -(CANVAS_LIMIT as int) <= cursor.x <= REACH_LIMIT as int
        &&& -(CANVAS_LIMIT as int) <= cursor.y <= CANVAS_LIMIT as int
    }

    /// Y coordinate of the bottom of the available space: the lowest baseline
    /// on which a line may stand.
    pub open spec fn bottom_y_spec(self) -> int {
        if self.bounds.y1 - self.padding_bottom >= self.bounds.y0 {
            self.bounds.y1 - self.padding_bottom
        } else {
            self.bounds.y0 as int
        }
    }

    /// Baseline of the first line.
    pub open spec fn initial_cursor_spec(self) -> Point {
        Point {
            x: self.bounds.x0,
            y: (self.bounds.y0 + self.style.text_font.text_height_spec() + self.padding_top) as i16,
        }
    }

    /// Width of the continuation marker: that of two dots.
    pub open spec fn prev_page_ellipsis_width(self) -> int {
        text_width_spec(&self.style.text_font, prev_page_ellipsis_spec())
    }

    /// Overall height of the content between two cursors, including paddings.
    pub open spec fn layout_height_spec(self, init_cursor: Point, end_cursor: Point) -> int {
        self.padding_top + self.style.text_font.text_height_spec() + (end_cursor.y - init_cursor.y)
            + self.padding_bottom
    }

    /// Whether no further line fits below the one at `y`.
    pub open spec fn is_last_line(self, y: int) -> bool {
        y + self.style.text_font.line_height_spec() > self.bottom_y_spec()
    }

    /// Width kept free at the end of the line at `y`: on the last line of the
    /// page, room for the marker that may follow it.
    pub open spec fn line_ending_space(self, y: int) -> Option<i16> {
        if self.is_last_line(y) {
            Some(self.prev_page_ellipsis_width() as i16)
        } else {
            None
        }
    }

    /// The pass over `rest` for the line that the cursor stands on.
    pub open spec fn scan_at(self, rest: Seq<char>, cursor: Point) -> Scan<F> {
        Span::scan(
            rest,
            (self.bounds.x1 - cursor.x) as i16,
            self.style.text_font,
            self.style.line_breaking,
            self.line_ending_space(cursor.y as int),
        )
    }

    /// How far the block alignment moves a line of width `dx` that has `room`
    /// to the right of the cursor.
    pub open spec fn shift(self, room: int, dx: int) -> int {
        match self.align {
            Alignment::Start => 0,
            Alignment::Center => half_towards_zero(room - dx),
            Alignment::End => room - dx,
        }
    }

    /// Where the text of the line starts that `cut` puts at the cursor.
    pub open spec fn text_start(self, cursor: Point, cut: Cut) -> Point {
        Point {
            x: (cursor.x + self.shift(self.bounds.x1 - cursor.x, cut.dx)) as i16,
            y: cursor.y,
        }
    }

    /// Where the text of the line ends that `cut` puts at the cursor.
    pub open spec fn text_end(self, cursor: Point, cut: Cut) -> Point {
        Point {
            x: (cursor.x + self.shift(self.bounds.x1 - cursor.x, cut.dx) + cut.dx) as i16,
            y: cursor.y,
        }
    }

    /// Where the line starts that follows the line at the cursor after `cut`.
    pub open spec fn next_line(self, cursor: Point, cut: Cut) -> Point {
        Point { x: self.bounds.x0, y: (cursor.y + cut.dy) as i16 }
    }

    /// What is reported for the text of one line.
    pub open spec fn text_events(self, rest: Seq<char>, cursor: Point, cut: Cut) -> Seq<
        LayoutEvent<F>,
    > {
        if cut.chars > 0 {
            seq![
                LayoutEvent::Text {
                    cursor: self.text_start(cursor, cut),
                    layout: self,
                    text: rest.take(cut.chars),
                },
            ]
        } else {
            seq![]
        }
    }

    /// What is reported behind the text of a line that ends with a hyphen.
    pub open spec fn hyphen_events(self, cursor: Point, cut: Cut) -> Seq<LayoutEvent<F>> {
        if cut.hyphen {
            seq![LayoutEvent::Hyphen { cursor: self.text_end(cursor, cut), layout: self }]
        } else {
            seq![]
        }
    }

    /// What is reported at the end of a page: an ellipsis, where text is left,
    /// the style asks for one and the line has no hyphen, and then that the
    /// content is out of bounds.
    pub open spec fn page_end_events(self, left: Seq<char>, cursor: Point, cut: Cut) -> Seq<
        LayoutEvent<F>,
    > {
        if left.len() > 0 && self.style.page_breaking == PageBreaking::CutAndInsertEllipsis
            && !cut.hyphen {
            seq![
                LayoutEvent::Ellipsis { cursor: self.text_end(cursor, cut), layout: self },
                LayoutEvent::OutOfBounds,
            ]
        } else {
            seq![LayoutEvent::OutOfBounds]
        }
    }

    /// What `layout_text` does with `chars` from `cursor` on. If the cursor
    /// stands below the bottom, nothing is laid out. Otherwise the
    /// continuation marker, if asked for, is reported and moves the cursor to
    /// its right, and the walk over the text begins. The fit counts the bytes
    /// of the text that the walk has reached, and the height of the content.
    pub open spec fn layout_spec(self, chars: Seq<char>, cursor: Point, continues: bool) -> Outcome<
        F,
    > {
        if cursor.y > self.bottom_y_spec() {
            Outcome {
                fit: LayoutFit::OutOfBounds { processed_chars: 0, height: 0 },
                cursor,
                events: seq![LayoutEvent::OutOfBounds],
            }
        } else {
            let start = self.start(cursor, continues);
            let pass = self.run(chars, start);
            let processed_chars = byte_offset(chars, chars.len() - pass.rest.len()) as usize;
            let height = self.layout_height_spec(cursor, pass.cursor) as i16;
            Outcome {
                fit: if pass.fits {
                    LayoutFit::Fitting { processed_chars, height }
                } else {
                    LayoutFit::OutOfBounds { processed_chars, height }
                },
                cursor: pass.cursor,
                events: self.lead_events(cursor, continues) + pass.events,
            }
        }
    }

    /// Where the walk over the text starts: at the cursor, or to the right of
    /// the continuation marker.
    pub open spec fn start(self, cursor: Point, continues: bool) -> Point {
        if continues {
            Point { x: (cursor.x + self.prev_page_ellipsis_width()) as i16, y: cursor.y }
        } else {
            cursor
        }
    }

    /// What is reported before the walk over the text.
    pub open spec fn lead_events(self, cursor: Point, continues: bool) -> Seq<LayoutEvent<F>> {
        if continues {
            seq![LayoutEvent::PrevPageEllipsis { cursor, layout: self }]
        } else {
            seq![]
        }
    }

    /// The walk over `rest` from the cursor on. Each step fits one line, puts
    /// its text down and skips what the line skips. If the line breaks and the
    /// next one would stand below the bottom, the page is full and the walk
    /// ends there. Otherwise it goes on from the start of the next line or, if
    /// the line did not break, from the end of the text it has put down.
    pub open spec fn run(self, rest: Seq<char>, cursor: Point) -> Pass<F>
        decreases rest.len(), self.bottom_y_spec() - cursor.y,
        when self.in_range() && self.reaches(cursor)
        via Self::run_decreases
    {
        if rest.len() == 0 {
            Pass { events: seq![], cursor, covered: seq![], rest, fits: true }
        } else {
            let cut = self.scan_at(rest, cursor).fitted();
            let left = rest.skip(cut.chars + cut.skip);
            let head = self.text_events(rest, cursor, cut);
            let line = rest.take(cut.chars) + rest.subrange(cut.chars, cut.chars + cut.skip);
            if cut.dy <= 0 {
                let tail = self.run(left, self.text_end(cursor, cut));
                Pass { events: head + tail.events, covered: line + tail.covered, ..tail }
            } else if cursor.y + cut.dy > self.bottom_y_spec() {
                Pass {
                    events: head + self.hyphen_events(cursor, cut) + self.page_end_events(
                        left,
                        cursor,
                        cut,
                    ),
                    cursor: self.text_end(cursor, cut),
                    covered: line,
                    rest: left,
                    fits: false,
                }
            } else {
                let below = self.next_line(cursor, cut);
                let tail = self.run(left, below);
                Pass {
                    events: head + self.hyphen_events(cursor, cut) + seq![
                        LayoutEvent::LineBreak { cursor: below },
                    ] + tail.events,
                    covered: line + tail.covered,
                    ..tail
                }
            }
        }
    }

    #[via_fn]
    proof fn run_decreases(self, rest: Seq<char>, cursor: Point) {
        if rest.len() > 0 {
            self.lemma_step(rest, cursor);
        }
    }

    /// One step of the walk: the cut of a line lies within the text that is
    /// left, takes some of it unless the line breaks, and leaves the cursor
    /// where a pass may leave it.
    pub proof fn lemma_step(self, rest: Seq<char>, cursor: Point)
        requires
            self.in_range(),
            self.reaches(cursor),
            rest.len() > 0,
        ensures
            ({
                let scan = self.scan_at(rest, cursor);
                let cut = scan.fitted();
                let room = self.bounds.x1 - cursor.x;
                let start = self.text_start(cursor, cut);
                let end = self.text_end(cursor, cut);
                let below = self.next_line(cursor, cut);
                &&& scan.sound()
                &&& scan.room.width == room
                &&& room + self.style.text_font.char_width_spec(' ') <= i16::MAX
                &&& 0 <= cut.chars
                &&& 0 <= cut.skip <= 1
                &&& cut.chars + cut.skip <= rest.len()
                &&& cut.skip == 1 ==> is_whitespace_spec(rest[cut.chars])
                &&& 0 <= cut.dy <= self.style.text_font.line_height_spec()
                &&& cut.dy == 0 ==> cut.chars + cut.skip > 0
                &&& cut.dy > 0 && cut.chars + cut.skip >= rest.len() ==> rest.last() == '\n'
                    || rest.last() == '\r'
                &&& 0 <= cut.dx <= i16::MAX
                &&& start.x == cursor.x + self.shift(room, cut.dx)
                &&& end.x == cursor.x + self.shift(room, cut.dx) + cut.dx
                &&& start.in_reach()
                &&& end.in_reach()
                &&& self.reaches(end)
                &&& cursor.on_canvas() ==> end.on_canvas()
                &&& cursor.y + cut.dy <= self.bottom_y_spec() ==> self.reaches(below) && below.y
                    == cursor.y + cut.dy
            }),
    {
        let font = self.style.text_font;
        let scan = self.scan_at(rest, cursor);
        self.lemma_marker_width();
        font.lemma_char_width_not_negative('-');
        scan.lemma_fitted();
    }

    /// The walk never moves the cursor up, leaves it where a pass may leave
    /// it, and leaves an end of the text: all of it was reached if the walk
    /// fits, and the walk ended on a page that is full if it does not.
    pub proof fn lemma_run(self, rest: Seq<char>, cursor: Point)
        requires
            self.in_range(),
            self.reaches(cursor),
        ensures
            cursor.y <= self.run(rest, cursor).cursor.y,
            self.run(rest, cursor).cursor.y <= cursor.y || self.run(rest, cursor).cursor.y
                <= self.bottom_y_spec(),
            self.reaches(self.run(rest, cursor).cursor),
            cursor.on_canvas() ==> self.run(rest, cursor).cursor.on_canvas(),
            rest.len() == 0 ==> self.run(rest, cursor).cursor == cursor,
            self.run(rest, cursor).rest.len() <= rest.len(),
            self.run(rest, cursor).rest == rest.skip(
                rest.len() - self.run(rest, cursor).rest.len(),
            ),
            self.run(rest, cursor).fits ==> self.run(rest, cursor).rest.len() == 0,
            self.run(rest, cursor).covered + self.run(rest, cursor).rest == rest,
            self.run(rest, cursor).covered == rest.take(
                rest.len() - self.run(rest, cursor).rest.len(),
            ),
            !self.run(rest, cursor).fits && self.run(rest, cursor).rest.len() == 0 ==> rest.last()
                == '\n' || rest.last() == '\r',
        decreases rest.len(), self.bottom_y_spec() - cursor.y,
    {
        if rest.len() > 0 {
            self.lemma_step(rest, cursor);
            let cut = self.scan_at(rest, cursor).fitted();
            let used = cut.chars + cut.skip;
            let left = rest.skip(used);
            let line = rest.take(cut.chars) + rest.subrange(cut.chars, used);
            assert(line == rest.take(used));
            assert(rest.take(used) + left == rest);
            if cut.dy <= 0 {
                self.lemma_run(left, self.text_end(cursor, cut));
            } else if cursor.y + cut.dy <= self.bottom_y_spec() {
                self.lemma_run(left, self.next_line(cursor, cut));
            }
        }
    }

    /// More text behind a text that fits never brings the cursor to a higher
    /// line, if the longer text fits too.
    pub proof fn lemma_run_more_text(self, first: Seq<char>, more: Seq<char>, cursor: Point)
        requires
            self.in_range(),
            self.reaches(cursor),
            self.run(first, cursor).fits,
            self.run(first + more, cursor).fits,
        ensures
            self.run(first, cursor).cursor.y <= self.run(first + more, cursor).cursor.y,
        decreases first.len(), self.bottom_y_spec() - cursor.y,
    {
        let whole = first + more;
        if first.len() == 0 {
            self.lemma_run(whole, cursor);
        } else {
            self.lemma_step(first, cursor);
            self.lemma_marker_width();
            Span::lemma_more_text(
                first,
                more,
                (self.bounds.x1 - cursor.x) as i16,
                self.style.text_font,
                self.style.line_breaking,
                self.line_ending_space(cursor.y as int),
            );
            let short = self.scan_at(first, cursor);
            let cut = short.fitted();
            let long_cut = self.scan_at(whole, cursor).fitted();
            let used = cut.chars + cut.skip;
            if cut == short.cut_all() {
                self.lemma_run(first.skip(used), self.text_end(cursor, cut));
                self.lemma_run(whole, cursor);
            } else if long_cut == cut {
                assert(whole.skip(used) == first.skip(used) + more);
                if cut.dy <= 0 {
                    self.lemma_run_more_text(first.skip(used), more, self.text_end(cursor, cut));
                } else if cursor.y + cut.dy <= self.bottom_y_spec() {
                    self.lemma_run_more_text(first.skip(used), more, self.next_line(cursor, cut));
                }
            } else {
                // Room is kept free on the last line only, and there a line
                // that breaks by a full line height ends the page.
                self.style.text_font.lemma_line_height_positive();
            }
        }
    }

    /// How a walk ends. A walk that fits reports neither an ellipsis nor that
    /// the content is out of bounds. A walk that does not fit reports last of
    /// all that the content is out of bounds, and this only once; an ellipsis,
    /// if it reports one, comes right before that and never behind a hyphen.
    pub proof fn lemma_page_end(self, rest: Seq<char>, cursor: Point)
        requires
            self.in_range(),
            self.reaches(cursor),
        ensures
            ({
                let pass = self.run(rest, cursor);
                let events = pass.events;
                let last = events.len() - 1;
                &&& !pass.fits ==> last >= 0 && events[last] is OutOfBounds
                &&& forall|i: int|
                    #![trigger events[i]]
                    0 <= i < events.len() && events[i] is OutOfBounds ==> !pass.fits && i == last
                &&& forall|i: int|
                    #![trigger events[i]]
                    0 <= i < events.len() && events[i] is Ellipsis ==> !pass.fits && i == last - 1
                        && (i > 0 ==> !(events[i - 1] is Hyphen))
            }),
        decreases rest.len(), self.bottom_y_spec() - cursor.y,
    {
        if rest.len() > 0 {
            self.lemma_step(rest, cursor);
            let cut = self.scan_at(rest, cursor).fitted();
            let left = rest.skip(cut.chars + cut.skip);
            if cut.dy <= 0 {
                self.lemma_page_end(left, self.text_end(cursor, cut));
            } else if cursor.y + cut.dy <= self.bottom_y_spec() {
                self.lemma_page_end(left, self.next_line(cursor, cut));
            }
        }
    }

    /// Byte accounting. The bytes counted as processed end between two
    /// characters of the text, and they encode what the walk has put on a line
    /// or skipped: the text up to where the walk ended. A text that fits is
    /// processed whole. Of a text that does not fit, at least one byte is left,
    /// unless the text is empty or ends with a line feed or a carriage return.
    pub proof fn lemma_byte_accounting(self, chars: Seq<char>, cursor: Point, continues: bool)
        requires
            self.in_range(),
            cursor.on_canvas(),
            byte_len(chars) <= usize::MAX,
        ensures
            ({
                let outcome = self.layout_spec(chars, cursor, continues);
                let pass = self.run(chars, self.start(cursor, continues));
                let processed = outcome.fit.processed();
                &&& processed <= byte_len(chars)
                &&& is_char_boundary(encode_utf8(chars), processed as int)
                &&& outcome.fit is Fitting ==> processed == byte_len(chars)
                &&& outcome.fit is OutOfBounds && chars.len() > 0 && chars.last() != '\n'
                    && chars.last() != '\r' ==> processed < byte_len(chars)
                &&& cursor.y <= self.bottom_y_spec() ==> processed == byte_len(pass.covered)
                    && pass.covered + pass.rest == chars && encode_utf8(chars).subrange(
                    0,
                    processed as int,
                ) == encode_utf8(pass.covered)
            }),
    {
        let start = self.start(cursor, continues);
        let pass = self.run(chars, start);
        let reached = chars.len() - pass.rest.len();
        self.lemma_marker_width();
        self.lemma_run(chars, start);
        lemma_split_at_offset(chars, 0);
        lemma_split_at_offset(chars, reached);
    }

    /// Height monotonicity: the height of a text that fits does not shrink
    /// when more text is put behind it, as long as the longer text fits too.
    pub proof fn lemma_height_grows_with_text(
        self,
        chars: Seq<char>,
        more: Seq<char>,
        cursor: Point,
        continues: bool,
    )
        requires
            self.in_range(),
            cursor.on_canvas(),
            self.layout_spec(chars, cursor, continues).fit is Fitting,
            self.layout_spec(chars + more, cursor, continues).fit is Fitting,
        ensures
            self.layout_spec(chars, cursor, continues).fit.height_spec() <= self.layout_spec(
                chars + more,
                cursor,
                continues,
            ).fit.height_spec(),
    {
        let start = self.start(cursor, continues);
        self.lemma_marker_width();
        self.lemma_run(chars, start);
        self.lemma_run(chars + more, start);
        self.lemma_run_more_text(chars, more, start);
    }

    /// The continuation marker is as wide as two dots.
    pub proof fn lemma_marker_width(self)
        ensures
            self.prev_page_ellipsis_width() == 2 * self.style.text_font.char_width_spec('.'),
            0 <= self.prev_page_ellipsis_width(),
    {
        reveal_with_fuel(text_width_spec, 3);
        self.style.text_font.lemma_char_width_not_negative('.');
    }
}

impl<F: GlyphMetrics + Copy> TextLayout<F> {
    /// Create a new text layout, with empty size and the given style.
    pub fn new(style: TextStyle<F>) -> (layout: Self)
        ensures
            layout == (TextLayout {
                bounds: Rect { x0: 0, y0: 0, x1: 0, y1: 0 },
                padding_top: 0,
                padding_bottom: 0,
                style,
                align: Alignment::Start,
            }),
    {
        TextLayout {
            bounds: Rect::zero(),
            padding_top: 0,
            padding_bottom: 0,
            style,
            align: Alignment::Start,
        }
    }

    pub fn with_bounds(self, bounds: Rect) -> (layout: Self)
        ensures
            layout == (TextLayout { bounds, ..self }),
    {
        let mut layout = self;
        layout.bounds = bounds;
        layout
    }

    pub fn with_align(self, align: Alignment) -> (layout: Self)
        ensures
            layout == (TextLayout { align, ..self }),
    {
        let mut layout = self;
        layout.align = align;
        layout
    }

    /// Puts the layout into `area`.
    pub fn fit(&mut self, area: Rect)
        ensures
            *final(self) == (TextLayout { bounds: area, ..*old(self) }),
    {
        self.bounds = area;
    }

    /// The area that the layout is in.
    pub fn area(&self) -> (area: Rect)
        ensures
            area == self.bounds,
    {
        self.bounds
    }

    /// Whether the layout is in range, so that it can lay out text.
    pub fn is_in_range(&self) -> (yes: bool)
        ensures
            yes == self.in_range(),
    {
        let font = &self.style.text_font;
        self.bounds.is_near() && is_within_limit(self.padding_top) && is_within_limit(
            self.padding_bottom,
        ) && is_within_limit(font.text_height()) && font.line_height() <= COORD_LIMIT
            && font.char_width('.') <= COORD_LIMIT && font.char_width(' ') <= COORD_LIMIT
    }

    /// Baseline `Point` where we are starting to draw the text.
    pub fn initial_cursor(&self) -> (cursor: Point)
        requires
            i16::MIN <= self.bounds.y0 + self.style.text_font.text_height_spec() + self.padding_top
                <= i16::MAX,
        ensures
            cursor == self.initial_cursor_spec(),
    {
        let text_height = self.style.text_font.text_height();
        let down = text_height as i32 + self.padding_top as i32;
        Point { x: self.bounds.x0, y: (self.bounds.y0 as i32 + down) as i16 }
    }

    /// Y coordinate of the bottom of the available space/bounds.
    pub fn bottom_y(&self) -> (y: i16)
        requires
            self.bounds.y1 - self.padding_bottom <= i16::MAX,
        ensures
            y == self.bottom_y_spec(),
    {
        let lowest = self.bounds.y1 as i32 - self.padding_bottom as i32;
        if lowest >= self.bounds.y0 as i32 {
            lowest as i16
        } else {
            self.bounds.y0
        }
    }

    /// Overall height of the content, including paddings.
    pub fn layout_height(&self, init_cursor: Point, end_cursor: Point) -> (height: i16)
        requires
            i16::MIN <= self.layout_height_spec(init_cursor, end_cursor) <= i16::MAX,
        ensures
            height == self.layout_height_spec(init_cursor, end_cursor),
    {
        let text_height = self.style.text_font.text_height();
        let height = self.padding_top as i32 + text_height as i32 + (end_cursor.y as i32
            - init_cursor.y as i32) + self.padding_bottom as i32;
        height as i16
    }

    /// Trying to fit the content on the current screen.
    pub fn fit_text(&self, text: &str, continues: bool) -> (fit: LayoutFit)
        requires
            self.in_range(),
        ensures
            fit == self.layout_spec(text@, self.initial_cursor_spec(), continues).fit,
            fit.processed() <= byte_len(text@),
            is_char_boundary(text.spec_bytes(), fit.processed() as int),
            fit is Fitting ==> fit.processed() == byte_len(text@),
    {
        let mut cursor = self.initial_cursor();
        let mut sink = TextNoOp;
        self.layout_text(text, &mut cursor, &mut sink, continues)
    }

    /// Draw as much text as possible on the current screen: returns, in
    /// order, the calls of the drawing primitives that do so.
    pub fn render_text(&self, text: &str, continues: bool) -> (ops: Vec<DrawOp<F>>)
        requires
            self.in_range(),
        ensures
            ops@.map_values(|op: DrawOp<F>| op@) == play::<F, TextRenderer<F>>(
                Seq::<Drawing<F>>::empty(),
                self.layout_spec(text@, self.initial_cursor_spec(), continues).events,
            ),
    {
        let mut cursor = self.initial_cursor();
        let mut renderer = TextRenderer::new();
        self.layout_text(text, &mut cursor, &mut renderer, continues);
        renderer.into_ops()
    }

    /// Loop through the `text` and try to fit it on the current screen,
    /// reporting events to `sink`, which may do something with them (e.g. draw
    /// on screen).
    #[verifier::rlimit(30)]
    pub fn layout_text<S: LayoutSink<F>>(
        &self,
        text: &str,
        cursor: &mut Point,
        sink: &mut S,
        continues_from_prev_page: bool,
    ) -> (fit: LayoutFit)
        requires
            self.in_range(),
            old(cursor).on_canvas(),
        ensures
            fit == self.layout_spec(text@, *old(cursor), continues_from_prev_page).fit,
            *final(cursor) == self.layout_spec(text@, *old(cursor), continues_from_prev_page).cursor,
            final(sink).state() == play::<F, S>(
                old(sink).state(),
                self.layout_spec(text@, *old(cursor), continues_from_prev_page).events,
            ),
            old(cursor).y <= final(cursor).y,
            !continues_from_prev_page ==> final(cursor).on_canvas(),
            fit.processed() <= byte_len(text@),
            is_char_boundary(text.spec_bytes(), fit.processed() as int),
            fit is Fitting ==> fit.processed() == byte_len(text@),
    {
        let init_cursor = *cursor;
        let mut remaining_text = text;
        let total = text.as_bytes().len();
        let bottom_y = self.bottom_y();
        let ghost chars = text@;
        let ghost outcome = self.layout_spec(chars, init_cursor, continues_from_prev_page);
        let ghost first_state = sink.state();

        proof {
            lemma_split_at_offset(chars, 0);
            lemma_byte_offset_grows(chars, 0, 0);
            self.lemma_marker_width();
            self.style.text_font.lemma_line_height_positive();
        }

        // Check if bounding box is high enough for at least one line.
        if cursor.y > bottom_y {
            sink.out_of_bounds();
            proof {
                lemma_play_one::<F, S>(first_state, LayoutEvent::OutOfBounds);
            }
            return LayoutFit::OutOfBounds { processed_chars: 0, height: 0 };
        }

        // Draw the marker if we are in the middle of a string.
        if continues_from_prev_page {
            let x_offset = sink.prev_page_ellipsis(*cursor, self);
            cursor.x = cursor.x + x_offset;
            proof {
                lemma_play_one::<F, S>(
                    first_state,
                    LayoutEvent::PrevPageEllipsis { cursor: init_cursor, layout: *self },
                );
            }
        } else {
            proof {
                lemma_play_none::<F, S>(first_state);
            }
        }
        let line_height = self.style.text_font.line_height();
        let marker_width = prev_page_ellipsis_width(self);
        let ghost start = *cursor;
        let ghost full = self.run(chars, start);
        let ghost start_state = sink.state();
        let ghost mut done: int = 0;
        proof {
            assert(chars.skip(0) == chars);
            assert(start == self.start(init_cursor, continues_from_prev_page));
            assert(start_state == play::<F, S>(
                first_state,
                self.lead_events(init_cursor, continues_from_prev_page),
            ));
            lemma_play_concat::<F, S>(
                first_state,
                self.lead_events(init_cursor, continues_from_prev_page),
                full.events,
            );
        }

        while !remaining_text.is_empty()
            invariant
                self.in_range(),
                self.reaches(*cursor),
                !continues_from_prev_page ==> cursor.on_canvas(),
                init_cursor.on_canvas(),
                init_cursor.y <= cursor.y,
                cursor.y <= bottom_y,
                bottom_y == self.bottom_y_spec(),
                line_height == self.style.text_font.line_height_spec(),
                line_height > 0,
                marker_width == self.prev_page_ellipsis_width(),
                chars == text@,
                total == byte_len(chars),
                0 <= done <= chars.len(),
                remaining_text@ == chars.skip(done),
                self.run(remaining_text@, *cursor).cursor == full.cursor,
                self.run(remaining_text@, *cursor).rest == full.rest,
                self.run(remaining_text@, *cursor).fits == full.fits,
                play::<F, S>(sink.state(), self.run(remaining_text@, *cursor).events) == play::<
                    F,
                    S,
                >(start_state, full.events),
                init_cursor == *old(cursor),
                first_state == old(sink).state(),
                outcome == self.layout_spec(chars, init_cursor, continues_from_prev_page),
                full == self.run(chars, self.start(init_cursor, continues_from_prev_page)),
                init_cursor.y <= self.bottom_y_spec(),
                play::<F, S>(start_state, full.events) == play::<F, S>(first_state, outcome.events),
            decreases remaining_text@.len(), bottom_y - cursor.y,
        {
            let ghost rest = remaining_text@;
            let ghost here = *cursor;
            let ghost cut = self.scan_at(rest, here).fitted();
            let ghost pass = self.run(rest, here);
            let ghost left = rest.skip(cut.chars + cut.skip);
            let ghost state = sink.state();
            proof {
                self.lemma_step(rest, here);
                self.lemma_marker_width();
                lemma_cut_bytes(rest, cut);
                lemma_byte_offset_grows(rest, 0, cut.chars);
                lemma_split_at_offset(chars, done);
            }

            let is_last_line = cursor.y as i32 + line_height as i32 > bottom_y as i32;
            let line_ending_space = if is_last_line {
                Some(marker_width)
            } else {
                None
            };

            let remaining_width = self.bounds.x1 - cursor.x;
            let span = Span::fit_horizontally(
                remaining_text,
                remaining_width,
                self.style.text_font,
                self.style.line_breaking,
                line_ending_space,
            );
            assert(span == cut.span(rest));

            let unused = remaining_width as i32 - span.advance.x as i32;
            let shift = match self.align {
                Alignment::Start => 0,
                Alignment::Center => unused / 2,
                Alignment::End => unused,
            };
            cursor.x = (cursor.x as i32 + shift) as i16;
            assert(*cursor == self.text_start(here, cut));

            // Report the span at the cursor position. Not doing it when the
            // span length is 0, as that means we encountered a line break,
            // which we do not draw. Line breaks are reported later.
            let text_to_display = split_text(remaining_text, span.length, Ghost(cut.chars)).0;
            if span.length > 0 {
                sink.text(*cursor, self, text_to_display);
            }
            let ghost head = self.text_events(rest, here, cut);
            proof {
                if cut.chars > 0 {
                    lemma_play_one::<F, S>(state, head[0]);
                    assert(head == seq![head[0]]);
                } else {
                    lemma_play_none::<F, S>(state);
                }
                assert(sink.state() == play::<F, S>(state, head));
            }

            // Continue with the rest of the remaining_text.
            let used = span.length + span.skip_next_chars;
            remaining_text = split_text(remaining_text, used, Ghost(cut.chars + cut.skip)).1;
            proof {
                assert(rest.skip(cut.chars + cut.skip) == chars.skip(done + cut.chars + cut.skip));
                done = done + cut.chars + cut.skip;
            }

            // Advance the cursor horizontally.
            cursor.x = (cursor.x as i32 + span.advance.x as i32) as i16;
            assert(*cursor == self.text_end(here, cut));

            if span.advance.y > 0 {
                // We're advancing to the next line.
                // Check if we should be appending a hyphen at this point.
                if span.insert_hyphen_before_line_break {
                    sink.hyphen(*cursor, self);
                }
                let ghost hyphen = self.hyphen_events(here, cut);
                let ghost hyphen_state = sink.state();
                proof {
                    if cut.hyphen {
                        lemma_play_one::<F, S>(play::<F, S>(state, head), hyphen[0]);
                        assert(hyphen == seq![hyphen[0]]);
                    } else {
                        lemma_play_none::<F, S>(play::<F, S>(state, head));
                    }
                    lemma_play_concat::<F, S>(state, head, hyphen);
                    assert(hyphen_state == play::<F, S>(state, head + hyphen));
                }
                // Check the amount of vertical space we have left.
                if cursor.y as i32 + span.advance.y as i32 > bottom_y as i32 {
                    // Not enough space on this page.
                    if !remaining_text.is_empty() {
                        // Append ellipsis to indicate more content is available,
                        // but only if we haven't already appended a hyphen.
                        let should_append_ellipsis = matches!(
                            self.style.page_breaking,
                            PageBreaking::CutAndInsertEllipsis
                        ) && !span.insert_hyphen_before_line_break;
                        if should_append_ellipsis {
                            sink.ellipsis(*cursor, self);
                        }
                    }
                    let ghost ellipsis_state = sink.state();
                    // Report we are out of bounds and quit.
                    sink.out_of_bounds();
                    proof {
                        let end = self.page_end_events(left, here, cut);
                        if end.len() == 2 {
                            assert(end.drop_first() == seq![LayoutEvent::<F>::OutOfBounds]);
                            reveal_with_fuel(play, 3);
                            assert(ellipsis_state == S::accept(hyphen_state, end[0]));
                        }
                        lemma_play_one::<F, S>(hyphen_state, LayoutEvent::OutOfBounds);
                        lemma_play_one::<F, S>(ellipsis_state, LayoutEvent::OutOfBounds);
                        assert(sink.state() == play::<F, S>(hyphen_state, end));
                        lemma_play_concat::<F, S>(state, head + hyphen, end);
                        assert(pass.events == head + hyphen + end);
                        lemma_split_at_offset(chars, done);
                    }
                    return LayoutFit::OutOfBounds {
                        processed_chars: total - remaining_text.as_bytes().len(),
                        height: self.layout_height(init_cursor, *cursor),
                    };
                } else {
                    // Advance the cursor to the beginning of the next line.
                    cursor.x = self.bounds.x0;
                    cursor.y = cursor.y + span.advance.y;

                    // Report a line break.
                    sink.line_break(*cursor);
                    proof {
                        let below = self.next_line(here, cut);
                        let tail = self.run(left, below);
                        let step = head + hyphen + seq![LayoutEvent::LineBreak { cursor: below }];
                        lemma_play_one::<F, S>(hyphen_state, LayoutEvent::LineBreak { cursor: below });
                        lemma_play_concat::<F, S>(
                            state,
                            head + hyphen,
                            seq![LayoutEvent::LineBreak { cursor: below }],
                        );
                        assert(sink.state() == play::<F, S>(state, step));
                        assert(pass.events == step + tail.events);
                        lemma_play_concat::<F, S>(state, step, tail.events);
                    }
                }
            } else {
                proof {
                    let tail = self.run(left, self.text_end(here, cut));
                    assert(pass.events == head + tail.events);
                    lemma_play_concat::<F, S>(state, head, tail.events);
                }
            }
        }

        proof {
            assert(chars.skip(done).len() == 0);
            assert(done == chars.len());
            lemma_split_at_offset(chars, done);
            lemma_byte_offset_grows(chars, 0, done);
            lemma_play_none::<F, S>(sink.state());
        }
        LayoutFit::Fitting {
            processed_chars: total,
            height: self.layout_height(init_cursor, *cursor),
        }
    }
}

/// Measuring is repeatable: whatever two calls of `fit_text` on the same
/// layout, the same text and the same flag return, they return the same.
pub proof fn lemma_fit_text_repeatable<F: GlyphMetrics + Copy>(
    layout: &TextLayout<F>,
    text: &str,
    continues: bool,
    first: LayoutFit,
    second: LayoutFit,
)
    requires
        call_ensures(TextLayout::<F>::fit_text, (layout, text, continues), first),
        call_ensures(TextLayout::<F>::fit_text, (layout, text, continues), second),
    ensures
        first == second,
{
}

} // verus!
