//! Fitting one line: how much of the remaining text goes on the current line,
//! and how the line ends.

use crate::geometry::Offset;
use crate::metrics::{
    fits_width, lemma_text_width_prefix, lemma_text_width_step, lemma_width_grows,
    text_width_spec, width_before, GlyphMetrics,
};
use crate::text::{
    byte_len, byte_offset, len_utf8, lemma_byte_offset_grows, lemma_byte_offset_step,
    lemma_split_at_offset,
};
use vstd::prelude::*;
use vstd::std_specs::iter::IteratorSpec;
use vstd::string::*;
use vstd::utf8::{encode_utf8, is_char_boundary};

verus! {

/// Where a line may end when the text does not fit on it.
#[derive(Copy, Clone, Debug, PartialEq, Eq, Structural)]
pub enum LineBreaking {
    /// Break line only at whitespace, if possible. If we don't find any
    /// whitespace, break words.
    BreakAtWhitespace,
    /// Break words, adding a hyphen before the line-break. Does not use any
    /// smart algorithm, just char-by-char.
    BreakWordsAndInsertHyphen,
    /// Break words char-by-char, don't insert hyphens.
    BreakWordsNoHyphen,
}

/// Carries info about the content that was processed on the current line.
#[derive(Copy, Clone, Debug, PartialEq, Eq, Structural)]
pub struct Span {
    /// How many bytes of the input text this span is laying out.
    pub length: usize,
    /// How many bytes of the input text to skip before fitting the next span.
    pub skip_next_chars: usize,
    /// By how much to offset the cursor after this span. If the vertical offset
    /// is bigger than zero, it means we are breaking the line.
    pub advance: Offset,
    /// If we are breaking the line, should we insert a hyphen right after this
    /// span to indicate a word-break?
    pub insert_hyphen_before_line_break: bool,
}

/// Space, line feed and carriage return: the characters a line may end at
/// without breaking a word.
pub open spec fn is_whitespace_spec(ch: char) -> bool {
    ch == ' ' || ch == '\n' || ch == '\r'
}

/// Whether `ch` is a space, a line feed or a carriage return.
pub fn is_whitespace(ch: char) -> (yes: bool)
    ensures
        yes == is_whitespace_spec(ch),
{
    ch == ' ' || ch == '\n' || ch == '\r'
}

/// The room that one line offers.
pub ghost struct LineRoom {
    /// Width that the text on the line may take.
    pub width: int,
    /// Width that stays free behind a line that ends between two words.
    pub after_word: int,
    /// Width that stays free behind a line that ends inside a word.
    pub inside_word: int,
    /// Whether a line that ends inside a word gets a hyphen.
    pub hyphen: bool,
    /// Whether a word may be broken only as long as the line holds no
    /// whitespace to end at.
    pub spare_words: bool,
}

/// The part of a text that goes on one line, counted in characters.
pub ghost struct Cut {
    /// Number of characters on the line.
    pub chars: int,
    /// Number of characters after them that are dropped.
    pub skip: int,
    /// Width of the characters on the line.
    pub dx: int,
    /// Distance to the next line, or 0 if the line goes on.
    pub dy: int,
    /// Whether a hyphen follows the characters on the line.
    pub hyphen: bool,
}

impl Cut {
    /// The span that reports this cut of `chars`, with lengths in bytes.
    pub open spec fn span(self, chars: Seq<char>) -> Span {
        Span {
            length: byte_offset(chars, self.chars) as usize,
            skip_next_chars: self.skip as usize,
            advance: Offset { x: self.dx as i16, y: self.dy as i16 },
            insert_hyphen_before_line_break: self.hyphen,
        }
    }
}

/// The room on a line of width `max_width` for `chars`. A text that fits
/// whole needs no room behind it. Otherwise `line_ending_space`, if given,
/// stays free behind the line and no hyphen is set; if not given, room for a
/// hyphen stays free behind a broken word where the policy sets one.
pub open spec fn line_room<F: GlyphMetrics>(
    font: F,
    chars: Seq<char>,
    max_width: i16,
    breaking: LineBreaking,
    line_ending_space: Option<i16>,
) -> LineRoom {
    let fits = text_width_spec(&font, chars) <= max_width;
    let hyphens = breaking != LineBreaking::BreakWordsNoHyphen;
    LineRoom {
        width: max_width as int,
        after_word: if fits {
            0
        } else {
            match line_ending_space {
                Some(ending) => ending as int,
                None => 0,
            }
        },
        inside_word: if fits {
            0
        } else {
            match line_ending_space {
                Some(ending) => ending as int,
                None => if hyphens {
                    font.char_width_spec('-') as int
                } else {
                    0
                },
            }
        },
        hyphen: !fits && line_ending_space is None && hyphens,
        spare_words: breaking == LineBreaking::BreakAtWhitespace,
    }
}

/// One pass over the characters of a text, from the left, with the room of
/// one line.
pub ghost struct Scan<F> {
    pub font: F,
    pub chars: Seq<char>,
    pub room: LineRoom,
}

impl<F: GlyphMetrics> Scan<F> {
    /// Width of the first `k` characters.
    pub open spec fn width(self, k: int) -> int {
        width_before(&self.font, self.chars, k)
    }

    /// The line may end before character `k`: it is whitespace, and what
    /// stands before it leaves the room that a whole word needs behind it.
    pub open spec fn space_break(self, k: int) -> bool {
        &&& 0 <= k < self.chars.len()
        &&& is_whitespace_spec(self.chars[k])
        &&& self.width(k) + self.room.after_word <= self.room.width
    }

    /// The line ends before character `k` whatever follows: a line feed or a
    /// carriage return that the line may end before.
    pub open spec fn hard_break(self, k: int) -> bool {
        self.space_break(k) && self.chars[k] != ' '
    }

    /// Character `k` does not fit on the line any more.
    pub open spec fn overflows(self, k: int) -> bool {
        &&& 0 <= k < self.chars.len()
        &&& !self.space_break(k)
        &&& self.width(k + 1) > self.room.width
    }

    /// The pass ends at character `k`.
    pub open spec fn stops(self, k: int) -> bool {
        self.hard_break(k) || self.overflows(k)
    }

    /// Index of the first character from `from` on at which the pass ends, or
    /// the number of characters if it ends at none.
    pub open spec fn stop_from(self, from: int) -> int
        decreases self.chars.len() - from,
    {
        if from < 0 || from >= self.chars.len() {
            self.chars.len() as int
        } else if self.stops(from) {
            from
        } else {
            self.stop_from(from + 1)
        }
    }

    /// The line may end before one of the first `k` characters.
    pub open spec fn space_seen(self, k: int) -> bool
        decreases k,
    {
        k > 0 && (self.space_break(k - 1) || self.space_seen(k - 1))
    }

    /// The line may end behind character `k`, inside a word: the character
    /// fits together with the room that a broken word needs behind it, and
    /// the policy lets a word be broken here.
    pub open spec fn word_break(self, k: int) -> bool {
        &&& 0 <= k < self.chars.len()
        &&& !self.space_break(k)
        &&& self.width(k + 1) + self.room.inside_word <= self.room.width
        &&& !(self.room.spare_words && self.space_seen(k))
    }

    /// The cut that ends the line before the whitespace character `k`.
    pub open spec fn cut_before(self, k: int) -> Cut {
        Cut {
            chars: k,
            skip: 1,
            dx: self.width(k),
            dy: if self.chars[k] == '\r' {
                self.font.line_height_spec() / 2
            } else {
                self.font.line_height_spec() as int
            },
            hyphen: false,
        }
    }

    /// The cut that ends the line behind character `k`, inside a word.
    pub open spec fn cut_behind(self, k: int) -> Cut {
        Cut {
            chars: k + 1,
            skip: 0,
            dx: self.width(k + 1),
            dy: self.font.line_height_spec() as int,
            hyphen: self.room.hyphen,
        }
    }

    /// The cut that puts nothing on the line and goes to the next one.
    pub open spec fn cut_nothing(self) -> Cut {
        Cut { chars: 0, skip: 0, dx: 0, dy: self.font.line_height_spec() as int, hyphen: false }
    }

    /// The cut that puts the whole text on the line, which goes on behind it.
    pub open spec fn cut_all(self) -> Cut {
        Cut {
            chars: self.chars.len() as int,
            skip: 0,
            dx: self.width(self.chars.len() as int),
            dy: 0,
            hyphen: false,
        }
    }

    /// The last place among the first `k` characters where the line may end:
    /// the cut that is made if character `k` does not fit.
    pub open spec fn pending(self, k: int) -> Cut
        decreases k,
    {
        if k <= 0 {
            self.cut_nothing()
        } else if self.space_break(k - 1) {
            self.cut_before(k - 1)
        } else if self.word_break(k - 1) {
            self.cut_behind(k - 1)
        } else {
            self.pending(k - 1)
        }
    }

    /// What goes on the line. The pass ends at the first line feed or
    /// carriage return that the line may end before, which then ends the line,
    /// or at the first character that does not fit, where the line ends at the
    /// last place found for it. If the pass ends at no character, the whole
    /// text goes on the line.
    pub open spec fn fitted(self) -> Cut {
        let stop = self.stop_from(0);
        if stop >= self.chars.len() {
            self.cut_all()
        } else if self.hard_break(stop) {
            self.cut_before(stop)
        } else {
            self.pending(stop)
        }
    }

    /// The room has a width of 16 bits, and what stays free behind a line is
    /// not negative.
    pub open spec fn sound(self) -> bool {
        &&& i16::MIN <= self.room.width <= i16::MAX
        &&& 0 <= self.room.after_word
        &&& 0 <= self.room.inside_word
    }

    /// The pass ends at `stop_from(from)` and at no character between `from`
    /// and there.
    pub proof fn lemma_stop_from(self, from: int)
        requires
            0 <= from <= self.chars.len(),
        ensures
            from <= self.stop_from(from) <= self.chars.len(),
            self.stop_from(from) < self.chars.len() ==> self.stops(self.stop_from(from)),
            forall|j: int| from <= j < self.stop_from(from) ==> !self.stops(j),
        decreases self.chars.len() - from,
    {
        if from < self.chars.len() && !self.stops(from) {
            self.lemma_stop_from(from + 1);
        }
    }

    /// As long as the pass goes on, the text so far is at most one character
    /// wider than the room, and not wider at all unless it ends in a space.
    pub proof fn lemma_width_while_scanning(self, k: int)
        requires
            self.sound(),
            0 <= k <= self.stop_from(0),
            k <= self.chars.len(),
        ensures
            0 <= self.width(k),
            k > 0 && !self.space_break(k - 1) ==> self.width(k) <= self.room.width,
            k > 0 && self.space_break(k - 1) ==> self.width(k) <= self.room.width
                + self.font.char_width_spec(' '),
    {
        lemma_text_width_prefix(&self.font, self.chars, k);
        if k > 0 {
            self.lemma_stop_from(0);
            assert(!self.stops(k - 1));
            lemma_text_width_step(&self.font, self.chars, k - 1);
        }
    }

    /// As long as the pass goes on, the last place found for the line to end
    /// lies within the characters passed and within the room.
    pub proof fn lemma_pending(self, k: int)
        requires
            self.sound(),
            0 <= k <= self.stop_from(0),
            k <= self.chars.len(),
        ensures
            ({
                let cut = self.pending(k);
                &&& 0 <= cut.chars <= k
                &&& 0 <= cut.skip <= 1
                &&& cut.chars + cut.skip <= k
                &&& cut.dx == self.width(cut.chars)
                &&& 0 <= cut.dx
                &&& cut.chars > 0 ==> cut.dx <= self.room.width
                &&& cut.dy == self.font.line_height_spec()
                &&& cut.skip == 1 ==> self.chars[cut.chars] == ' '
                &&& cut.hyphen ==> self.room.hyphen && cut.skip == 0 && cut.chars > 0
                &&& cut.chars + cut.skip == 0 ==> cut == self.cut_nothing()
            }),
        decreases k,
    {
        if k > 0 {
            lemma_text_width_prefix(&self.font, self.chars, k - 1);
            lemma_text_width_prefix(&self.font, self.chars, k);
            self.lemma_stop_from(0);
            assert(!self.stops(k - 1));
            if !self.space_break(k - 1) && !self.word_break(k - 1) {
                self.lemma_pending(k - 1);
            }
        }
    }

    /// What goes on the line lies within the text and, but for a last space,
    /// within the room. A cut that does not go to the next line takes at least
    /// one character, unless the text is empty, and a cut that goes to the
    /// next line and takes all of the text ends at a line feed or a carriage
    /// return.
    pub proof fn lemma_fitted(self)
        requires
            self.sound(),
        ensures
            ({
                let cut = self.fitted();
                let len = self.chars.len();
                &&& 0 <= cut.chars
                &&& 0 <= cut.skip <= 1
                &&& cut.chars + cut.skip <= len
                &&& cut.dx == self.width(cut.chars)
                &&& 0 <= cut.dx
                &&& cut.dx <= self.room.width || cut.dx == 0 || (cut.dy == 0 && cut.dx
                    <= self.room.width + self.font.char_width_spec(' '))
                &&& 0 <= cut.dy <= self.font.line_height_spec()
                &&& cut.skip == 1 ==> is_whitespace_spec(self.chars[cut.chars])
                &&& cut.hyphen ==> self.room.hyphen && cut.skip == 0 && cut.chars > 0 && cut.dy > 0
                &&& cut.dy == 0 && len > 0 ==> cut.chars + cut.skip > 0
                &&& cut.chars + cut.skip == 0 ==> cut == self.cut_nothing() || len == 0
                &&& cut.dy > 0 && cut.chars + cut.skip >= len ==> len > 0 && self.hard_break(
                    len - 1,
                )
            }),
    {
        let stop = self.stop_from(0);
        let len = self.chars.len() as int;
        self.lemma_stop_from(0);
        self.font.lemma_line_height_positive();
        if stop >= len {
            self.lemma_width_while_scanning(len);
        } else if self.hard_break(stop) {
            lemma_text_width_prefix(&self.font, self.chars, stop);
        } else {
            self.lemma_pending(stop);
        }
    }
}

impl<F: GlyphMetrics> Scan<F> {
    /// A place before `k` where the line may end before a whitespace character
    /// has been seen when the pass comes to `k`.
    pub proof fn lemma_space_seen(self, space: int, k: int)
        requires
            self.space_break(space),
            space < k,
        ensures
            self.space_seen(k),
        decreases k,
    {
        if space < k - 1 {
            self.lemma_space_seen(space, k - 1);
        }
    }

    /// Where words are spared, the pass goes on and has seen a place to end
    /// the line before a whitespace character, the last such place is the
    /// one it holds.
    pub proof fn lemma_pending_spares_words(self, k: int)
        requires
            self.sound(),
            self.room.spare_words,
            0 <= k <= self.stop_from(0),
            k <= self.chars.len(),
            self.space_seen(k),
        ensures
            self.pending(k) == self.cut_before(self.pending(k).chars),
            0 <= self.pending(k).chars < k,
            self.space_break(self.pending(k).chars),
            forall|j: int| self.pending(k).chars < j < k ==> !self.space_break(j),
        decreases k,
    {
        if !self.space_break(k - 1) {
            self.lemma_pending_spares_words(k - 1);
        }
    }
}

impl<F: GlyphMetrics> Scan<F> {
    /// A pass that ends at no character between `from` and `to` ends where a
    /// pass from `to` on ends.
    pub proof fn lemma_stop_skip(self, from: int, to: int)
        requires
            0 <= from <= to <= self.chars.len(),
            forall|j: int| from <= j < to ==> !self.stops(j),
        ensures
            self.stop_from(from) == self.stop_from(to),
        decreases to - from,
    {
        if from < to {
            self.lemma_stop_skip(from + 1, to);
        }
    }

    /// Two passes with the same font and the same room over texts with the
    /// same first `n` characters find the same among the first `k` of them.
    pub proof fn lemma_same_start(self, other: Scan<F>, n: int, k: int)
        requires
            self.font == other.font,
            self.room == other.room,
            0 <= k <= n,
            n <= self.chars.len(),
            n <= other.chars.len(),
            self.chars.take(n) == other.chars.take(n),
        ensures
            self.width(k) == other.width(k),
            self.space_seen(k) == other.space_seen(k),
            self.pending(k) == other.pending(k),
            k < n ==> self.chars[k] == other.chars[k],
            k < n ==> self.space_break(k) == other.space_break(k),
            k < n ==> self.overflows(k) == other.overflows(k),
            k < n ==> self.stops(k) == other.stops(k),
            k < n ==> self.word_break(k) == other.word_break(k),
            k < n ==> self.cut_before(k) == other.cut_before(k),
            k < n ==> self.cut_behind(k) == other.cut_behind(k),
        decreases k,
    {
        if k < n {
            assert(self.chars[k] == self.chars.take(n)[k]);
            assert(self.chars.take(k + 1) == self.chars.take(n).take(k + 1));
            assert(other.chars.take(k + 1) == other.chars.take(n).take(k + 1));
        }
        if k > 0 {
            self.lemma_same_start(other, n, k - 1);
        }
    }

    /// Two passes with the same font and the same room over texts with the
    /// same first `n` characters end at the same character among these, if
    /// either ends at one of them.
    pub proof fn lemma_same_stop(self, other: Scan<F>, n: int, from: int)
        requires
            self.font == other.font,
            self.room == other.room,
            0 <= from <= n,
            n <= self.chars.len(),
            n <= other.chars.len(),
            self.chars.take(n) == other.chars.take(n),
        ensures
            self.stop_from(from) < n ==> other.stop_from(from) == self.stop_from(from),
            self.stop_from(from) >= n ==> other.stop_from(from) >= n,
        decreases n - from,
    {
        self.lemma_stop_from(from);
        other.lemma_stop_from(from);
        if from < n {
            self.lemma_same_start(other, n, from);
            if !self.stops(from) {
                self.lemma_same_stop(other, n, from + 1);
            }
        }
    }
}

impl Span {
    /// More text behind a text leaves the first line as it is, where that
    /// line breaks. For a text `first` and the text `first + more`, on the
    /// same line: the pass over `first` ends at none of its characters, so
    /// that all of it goes on the line; or both texts are cut in the same way;
    /// or room is kept free at the end of the line, and the line of the longer
    /// text breaks by a full line height.
    pub proof fn lemma_more_text<F: GlyphMetrics>(
        first: Seq<char>,
        more: Seq<char>,
        max_width: i16,
        font: F,
        breaking: LineBreaking,
        line_ending_space: Option<i16>,
    )
        requires
            line_ending_space matches Some(ending) ==> ending >= 0,
        ensures
            ({
                let short = Span::scan(first, max_width, font, breaking, line_ending_space);
                let long = Span::scan(first + more, max_width, font, breaking, line_ending_space);
                ||| short.fitted() == short.cut_all()
                ||| long.fitted() == short.fitted()
                ||| line_ending_space is Some && long.fitted().dy == font.line_height_spec()
            }),
    {
        let short = Span::scan(first, max_width, font, breaking, line_ending_space);
        let long = Span::scan(first + more, max_width, font, breaking, line_ending_space);
        let whole = first + more;
        let n = first.len() as int;
        let stop = short.stop_from(0);
        assert(whole.take(n) == first);
        assert(first.take(n) == first);
        lemma_text_width_prefix(&font, whole, n);
        short.lemma_stop_from(0);
        long.lemma_stop_from(0);
        if stop >= n {
            // All of the shorter text goes on the line.
        } else if short.room == long.room {
            short.lemma_same_stop(long, n, 0);
            short.lemma_same_start(long, n, stop);
        } else {
            // The shorter text fits whole and the longer does not: the line of
            // the shorter ends before its first line feed or carriage return.
            lemma_width_grows(&font, first, stop + 1, n);
            assert forall|j: int| 0 <= j < stop implies !long.stops(j) by {
                assert(first.take(j + 1) == whole.take(j + 1));
                assert(first.take(j) == whole.take(j));
                lemma_width_grows(&font, first, j + 1, n);
                assert(!short.stops(j));
            }
            long.lemma_stop_skip(0, stop);
            assert(first.take(stop) == whole.take(stop));
            if !long.space_break(stop) {
                // Room is kept free behind the line, and with it the longer
                // text may not end its line here, nor further to the right.
                let end = long.stop_from(0);
                let len = whole.len() as int;
                if end >= len {
                    // A pass that ends at no character is over a text that
                    // fits, or that ends in a space before which it may end.
                    long.lemma_width_while_scanning(len);
                    if long.space_break(len - 1) {
                        lemma_width_grows(&font, whole, stop, len - 1);
                    }
                    assert(false);
                } else {
                    if long.hard_break(end) {
                        lemma_width_grows(&font, whole, stop, end);
                        assert(false);
                    }
                    long.lemma_pending(end);
                }
            }
        }
    }
}

impl Span {
    /// Every span starts and ends between two characters of the text: its
    /// length is a character boundary, and so is its length together with
    /// what it skips, which lies within the text.
    pub proof fn lemma_span_on_boundaries<F: GlyphMetrics>(
        chars: Seq<char>,
        max_width: i16,
        font: F,
        breaking: LineBreaking,
        line_ending_space: Option<i16>,
    )
        requires
            byte_len(chars) <= usize::MAX,
            line_ending_space matches Some(ending) ==> ending >= 0,
        ensures
            ({
                let span = Span::fit_spec(chars, max_width, font, breaking, line_ending_space);
                &&& span.length + span.skip_next_chars <= byte_len(chars)
                &&& span.skip_next_chars <= 1
                &&& is_char_boundary(encode_utf8(chars), span.length as int)
                &&& is_char_boundary(encode_utf8(chars), span.length + span.skip_next_chars)
            }),
    {
        let scan = Span::scan(chars, max_width, font, breaking, line_ending_space);
        font.lemma_char_width_not_negative('-');
        scan.lemma_fitted();
        lemma_cut_bytes(chars, scan.fitted());
    }

    /// Whitespace is preferred: under `BreakAtWhitespace`, if the pass over
    /// the text ends at a character that does not fit, and the line may end
    /// before some whitespace character `space` before it, then the line ends
    /// before the last such whitespace character. It gets no hyphen, and the
    /// whitespace character is skipped.
    pub proof fn lemma_whitespace_preferred<F: GlyphMetrics>(
        chars: Seq<char>,
        max_width: i16,
        font: F,
        line_ending_space: Option<i16>,
        space: int,
    )
        requires
            byte_len(chars) <= usize::MAX,
            line_ending_space matches Some(ending) ==> ending >= 0,
            ({
                let scan = Span::scan(
                    chars,
                    max_width,
                    font,
                    LineBreaking::BreakAtWhitespace,
                    line_ending_space,
                );
                &&& scan.space_break(space)
                &&& space < scan.stop_from(0)
                &&& scan.overflows(scan.stop_from(0))
            }),
        ensures
            ({
                let scan = Span::scan(
                    chars,
                    max_width,
                    font,
                    LineBreaking::BreakAtWhitespace,
                    line_ending_space,
                );
                let span = Span::fit_spec(
                    chars,
                    max_width,
                    font,
                    LineBreaking::BreakAtWhitespace,
                    line_ending_space,
                );
                let last = scan.fitted().chars;
                &&& space <= last < scan.stop_from(0)
                &&& is_whitespace_spec(chars[last])
                &&& scan.space_break(last)
                &&& forall|j: int| last < j < scan.stop_from(0) ==> !scan.space_break(j)
                &&& span.length == byte_offset(chars, last)
                &&& span.skip_next_chars == 1
                &&& !span.insert_hyphen_before_line_break
                &&& span.advance.x == scan.width(last)
                &&& span.advance.y == font.line_height_spec()
            }),
    {
        let scan = Span::scan(
            chars,
            max_width,
            font,
            LineBreaking::BreakAtWhitespace,
            line_ending_space,
        );
        let stop = scan.stop_from(0);
        font.lemma_char_width_not_negative('-');
        scan.lemma_space_seen(space, stop);
        scan.lemma_pending_spares_words(stop);
        scan.lemma_pending(stop);
        lemma_cut_bytes(chars, scan.fitted());
    }
}

/// A cut within `chars` that skips nothing but one whitespace character
/// starts and ends between two characters, and it skips one byte for the
/// character it skips.
pub proof fn lemma_cut_bytes(chars: Seq<char>, cut: Cut)
    requires
        0 <= cut.chars,
        0 <= cut.skip <= 1,
        cut.chars + cut.skip <= chars.len(),
        cut.skip == 1 ==> is_whitespace_spec(chars[cut.chars]),
    ensures
        byte_offset(chars, cut.chars) + cut.skip == byte_offset(chars, cut.chars + cut.skip),
        byte_offset(chars, cut.chars + cut.skip) <= byte_len(chars),
        is_char_boundary(encode_utf8(chars), byte_offset(chars, cut.chars) as int),
        is_char_boundary(encode_utf8(chars), byte_offset(chars, cut.chars) + cut.skip),
{
    lemma_split_at_offset(chars, cut.chars);
    lemma_split_at_offset(chars, cut.chars + cut.skip);
    if cut.skip == 1 {
        lemma_byte_offset_step(chars, cut.chars);
    }
}

impl Span {
    /// The span that `fit_horizontally` returns for `chars`: the cut that a
    /// pass over `chars` makes with the room of the line, in bytes.
    pub open spec fn fit_spec<F: GlyphMetrics>(
        chars: Seq<char>,
        max_width: i16,
        font: F,
        breaking: LineBreaking,
        line_ending_space: Option<i16>,
    ) -> Span {
        Self::scan(chars, max_width, font, breaking, line_ending_space).fitted().span(chars)
    }

    /// The pass over `chars` with the room of a line of width `max_width`.
    pub open spec fn scan<F: GlyphMetrics>(
        chars: Seq<char>,
        max_width: i16,
        font: F,
        breaking: LineBreaking,
        line_ending_space: Option<i16>,
    ) -> Scan<F> {
        Scan { font, chars, room: line_room(font, chars, max_width, breaking, line_ending_space) }
    }

    /// Fits as much of `text` as possible on one line of width `max_width`,
    /// which may be zero or negative, and says how the line ends.
    /// `line_ending_space` is width that has to stay free behind the line, and
    /// is not negative.
    ///
    /// A line that ends in a space may be wider than `max_width` by that
    /// space, so the two together have to fit in 16 bits.
    pub fn fit_horizontally<F: GlyphMetrics>(
        text: &str,
        max_width: i16,
        text_font: F,
        breaking: LineBreaking,
        line_ending_space: Option<i16>,
    ) -> (span: Span)
        requires
            max_width + text_font.char_width_spec(' ') <= i16::MAX,
            line_ending_space matches Some(ending) ==> ending >= 0,
        ensures
            span == Span::fit_spec(text@, max_width, text_font, breaking, line_ending_space),
            span.length + span.skip_next_chars <= byte_len(text@),
            is_char_boundary(text.spec_bytes(), span.length as int),
            is_char_boundary(text.spec_bytes(), span.length + span.skip_next_chars),
    {
        broadcast use vstd::string::group_string_axioms;

        let ghost chars = text@;
        let ghost scan = Span::scan(chars, max_width, text_font, breaking, line_ending_space);
        let total_bytes = text.as_bytes().len();

        let fits_completely = fits_width(&text_font, text, max_width);
        let mut use_hyphens = !matches!(breaking, LineBreaking::BreakWordsNoHyphen);

        // How much room stays unused at the end of the line, behind a broken
        // word (for the hyphen or what ends the page) and behind a whole one.
        let incomplete_word_end_width: i16 = if fits_completely {
            use_hyphens = false;
            0
        } else if let Some(ending) = line_ending_space {
            use_hyphens = false;
            ending
        } else if use_hyphens {
            text_font.char_width('-')
        } else {
            0
        };
        let complete_word_end_width: i16 = if fits_completely {
            0
        } else {
            match line_ending_space {
                Some(ending) => ending,
                None => 0,
            }
        };
        let line_height = text_font.line_height();

        proof {
            text_font.lemma_char_width_not_negative('-');
            text_font.lemma_line_height_positive();
        }

        // The span returned if the line has to break. It follows the last place
        // found for the line to end; at first nothing is on the line.
        let mut line = Span {
            length: 0,
            skip_next_chars: 0,
            advance: Offset::y(line_height),
            insert_hyphen_before_line_break: false,
        };
        let mut span_width: i32 = 0;
        let mut found_any_whitespace = false;
        let mut position: usize = 0;
        let mut rest = text.chars();
        let ghost mut done: int = 0;
        loop
            invariant
                rest.obeys_prophetic_iter_laws(),
                chars == text@,
                scan == Span::scan(chars, max_width, text_font, breaking, line_ending_space),
                scan.sound(),
                total_bytes == byte_len(chars),
                max_width + text_font.char_width_spec(' ') <= i16::MAX,
                incomplete_word_end_width == scan.room.inside_word,
                complete_word_end_width == scan.room.after_word,
                use_hyphens == scan.room.hyphen,
                line_height == text_font.line_height_spec(),
                line_height > 0,
                0 <= done <= chars.len(),
                rest.remaining() == chars.skip(done),
                position == byte_offset(chars, done),
                span_width == scan.width(done),
                0 <= span_width <= i16::MAX,
                scan.stop_from(0) == scan.stop_from(done),
                found_any_whitespace == scan.space_seen(done),
                line == scan.pending(done).span(chars),
            ensures
                done == chars.len(),
                scan.stop_from(0) == chars.len(),
                position == byte_len(chars),
                span_width == scan.width(chars.len() as int),
                0 <= span_width <= i16::MAX,
            decreases chars.len() - done,
        {
            proof {
                scan.lemma_stop_from(done);
                scan.lemma_pending(done);
            }
            match rest.next() {
                Some(ch) => {
                    proof {
                        assert(chars.skip(done).drop_first() == chars.skip(done + 1));
                        lemma_text_width_step(&text_font, chars, done);
                        lemma_split_at_offset(chars, done);
                        lemma_split_at_offset(chars, done + 1);
                        text_font.lemma_char_width_not_negative(ch);
                    }
                    let char_width = text_font.char_width(ch);
                    let next_position = position + len_utf8(ch);

                    // Consider if we could be breaking the line at this position.
                    if is_whitespace(ch) && span_width + complete_word_end_width as i32
                        <= max_width as i32 {
                        // Break before the whitespace, without hyphen.
                        line.length = position;
                        line.advance.x = span_width as i16;
                        line.insert_hyphen_before_line_break = false;
                        line.skip_next_chars = 1;
                        if ch == '\r' {
                            // We'll be breaking the line, but advancing the cursor
                            // only by a half of the regular line height.
                            line.advance.y = line_height / 2;
                        }
                        if ch == '\n' || ch == '\r' {
                            // End of line, break immediately.
                            return line;
                        }
                        found_any_whitespace = true;
                    } else if span_width + char_width as i32 > max_width as i32 {
                        // Cannot fit on this line. Return the last breakpoint.
                        proof {
                            lemma_cut_bytes(chars, scan.fitted());
                        }
                        return line;
                    } else {
                        let have_space_for_break = span_width + char_width as i32
                            + incomplete_word_end_width as i32 <= max_width as i32;
                        let can_break_word = !matches!(breaking, LineBreaking::BreakAtWhitespace)
                            || !found_any_whitespace;
                        if have_space_for_break && can_break_word {
                            // Break after this character, append hyphen.
                            line.length = next_position;
                            line.advance.x = (span_width + char_width as i32) as i16;
                            line.insert_hyphen_before_line_break = use_hyphens;
                            line.skip_next_chars = 0;
                        }
                    }
                    proof {
                        done = done + 1;
                    }
                    span_width = span_width + char_width as i32;
                    position = next_position;
                },
                None => {
                    proof {
                        lemma_byte_offset_grows(chars, 0, done);
                    }
                    break ;
                },
            }
        }

        // The whole text is fitting on the current line.
        proof {
            lemma_cut_bytes(chars, scan.fitted());
        }
        Span {
            length: position,
            skip_next_chars: 0,
            advance: Offset::x(span_width as i16),
            insert_hyphen_before_line_break: false,
        }
    }
}

} // verus!
