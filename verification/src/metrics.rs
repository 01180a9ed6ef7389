//! Glyph metrics: what a font tells the layout about its characters.

use vstd::prelude::*;
use vstd::std_specs::iter::IteratorSpec;
use vstd::string::*;

verus! {

/// The measurements of a font that line breaking depends on. They are a
/// function of the font and the character alone.
pub trait GlyphMetrics {
    /// Horizontal advance of `ch`.
    spec fn char_width_spec(&self, ch: char) -> i16;

    /// Vertical distance between the baselines of two consecutive lines.
    spec fn line_height_spec(&self) -> i16;

    /// Vertical extent of one line of text above its baseline.
    spec fn text_height_spec(&self) -> i16;

    /// No character moves the cursor to the left.
    proof fn lemma_char_width_not_negative(&self, ch: char)
        ensures
            0 <= self.char_width_spec(ch),
    ;

    /// A line break moves the cursor down.
    proof fn lemma_line_height_positive(&self)
        ensures
            0 < self.line_height_spec(),
    ;

    fn char_width(&self, ch: char) -> (width: i16)
        ensures
            width == self.char_width_spec(ch),
    ;

    fn line_height(&self) -> (height: i16)
        ensures
            height == self.line_height_spec(),
    ;

    fn text_height(&self) -> (height: i16)
        ensures
            height == self.text_height_spec(),
    ;
}

/// Width of `chars` set on one line: the sum of the advances of its characters.
pub open spec fn text_width_spec<F: GlyphMetrics + ?Sized>(font: &F, chars: Seq<char>) -> int
    decreases chars.len(),
{
    if chars.len() == 0 {
        0
    } else {
        text_width_spec(font, chars.drop_last()) + font.char_width_spec(chars.last())
    }
}

/// Width of the first `k` characters of `chars`.
pub open spec fn width_before<F: GlyphMetrics + ?Sized>(font: &F, chars: Seq<char>, k: int) -> int {
    text_width_spec(font, chars.take(k))
}

/// One more character adds its advance to the width.
pub proof fn lemma_text_width_step<F: GlyphMetrics + ?Sized>(font: &F, chars: Seq<char>, k: int)
    requires
        0 <= k < chars.len(),
    ensures
        width_before(font, chars, k + 1) == width_before(font, chars, k) + font.char_width_spec(
            chars[k],
        ),
        width_before(font, chars, 0) == 0,
{
    assert(chars.take(k + 1).drop_last() == chars.take(k));
}

/// No text has a negative width.
pub proof fn lemma_text_width_not_negative<F: GlyphMetrics + ?Sized>(font: &F, chars: Seq<char>)
    ensures
        0 <= text_width_spec(font, chars),
    decreases chars.len(),
{
    if chars.len() > 0 {
        lemma_text_width_not_negative(font, chars.drop_last());
        font.lemma_char_width_not_negative(chars.last());
    }
}

/// Widths add up over a concatenation.
pub proof fn lemma_text_width_concat<F: GlyphMetrics + ?Sized>(
    font: &F,
    a: Seq<char>,
    b: Seq<char>,
)
    ensures
        text_width_spec(font, a + b) == text_width_spec(font, a) + text_width_spec(font, b),
    decreases b.len(),
{
    if b.len() > 0 {
        assert((a + b).drop_last() == a + b.drop_last());
        lemma_text_width_concat(font, a, b.drop_last());
    }
}

/// A prefix is no wider than the whole.
pub proof fn lemma_text_width_prefix<F: GlyphMetrics + ?Sized>(font: &F, chars: Seq<char>, k: int)
    requires
        0 <= k <= chars.len(),
    ensures
        0 <= width_before(font, chars, k) <= text_width_spec(font, chars),
        width_before(font, chars, chars.len() as int) == text_width_spec(font, chars),
{
    assert(chars == chars.take(k) + chars.skip(k));
    assert(chars.take(chars.len() as int) == chars);
    lemma_text_width_concat(font, chars.take(k), chars.skip(k));
    lemma_text_width_not_negative(font, chars.take(k));
    lemma_text_width_not_negative(font, chars.skip(k));
}

/// A longer prefix is no narrower than a shorter one.
pub proof fn lemma_width_grows<F: GlyphMetrics + ?Sized>(
    font: &F,
    chars: Seq<char>,
    j: int,
    k: int,
)
    requires
        0 <= j <= k <= chars.len(),
    ensures
        width_before(font, chars, j) <= width_before(font, chars, k),
{
    assert(chars.take(k).take(j) == chars.take(j));
    lemma_text_width_prefix(font, chars.take(k), j);
}

/// Width of `text` set on one line.
pub fn text_width<F: GlyphMetrics>(font: &F, text: &str) -> (width: i16)
    requires
        text_width_spec(font, text@) <= i16::MAX,
    ensures
        width == text_width_spec(font, text@),
{
    broadcast use vstd::string::group_string_axioms;

    let ghost chars = text@;
    let mut rest = text.chars();
    let mut width: i16 = 0;
    let ghost mut done: int = 0;
    loop
        invariant
            rest.obeys_prophetic_iter_laws(),
            0 <= done <= chars.len(),
            rest.remaining() == chars.skip(done),
            width == text_width_spec(font, chars.take(done)),
            text_width_spec(font, chars) <= i16::MAX,
        ensures
            width == text_width_spec(font, chars),
        decreases chars.len() - done,
    {
        match rest.next() {
            Some(ch) => {
                let step = font.char_width(ch);
                proof {
                    lemma_text_width_step(font, chars, done);
                    lemma_text_width_prefix(font, chars, done + 1);
                    done = done + 1;
                }
                width = width + step;
            },
            None => {
                proof {
                    assert(chars.take(done) == chars);
                }
                break ;
            },
        }
    }
    width
}

/// Whether `text`, set on one line, is no wider than `max_width`.
pub fn fits_width<F: GlyphMetrics>(font: &F, text: &str, max_width: i16) -> (fits: bool)
    ensures
        fits == (text_width_spec(font, text@) <= max_width),
{
    broadcast use vstd::string::group_string_axioms;

    let ghost chars = text@;
    let mut rest = text.chars();
    let mut width: i32 = 0;
    let ghost mut done: int = 0;
    if max_width < 0 {
        proof {
            lemma_text_width_not_negative(font, chars);
        }
        return false;
    }
    loop
        invariant
            rest.obeys_prophetic_iter_laws(),
            0 <= done <= chars.len(),
            rest.remaining() == chars.skip(done),
            chars == text@,
            width == width_before(font, chars, done),
            0 <= width <= max_width,
        ensures
            width == text_width_spec(font, chars),
            width <= max_width,
        decreases chars.len() - done,
    {
        match rest.next() {
            Some(ch) => {
                let step = font.char_width(ch);
                proof {
                    lemma_text_width_step(font, chars, done);
                    lemma_text_width_prefix(font, chars, done + 1);
                    done = done + 1;
                }
                if width + step as i32 > max_width as i32 {
                    return false;
                }
                width = width + step as i32;
            },
            None => {
                proof {
                    assert(chars.take(done) == chars);
                }
                break ;
            },
        }
    }
    true
}

/// A font in which every character has the same advance, and whose lines are
/// `height` apart and `height` tall. A negative `width` counts as 0 and a
/// `height` below 1 as 1.
#[derive(Copy, Clone, Debug, PartialEq, Eq, Structural)]
pub struct Fixed {
    pub width: i16,
    pub height: i16,
}

impl GlyphMetrics for Fixed {
    open spec fn char_width_spec(&self, ch: char) -> i16 {
        if self.width < 0 {
            0
        } else {
            self.width
        }
    }

    open spec fn line_height_spec(&self) -> i16 {
        if self.height < 1 {
            1
        } else {
            self.height
        }
    }

    open spec fn text_height_spec(&self) -> i16 {
        self.line_height_spec()
    }

    proof fn lemma_char_width_not_negative(&self, ch: char) {
    }

    proof fn lemma_line_height_positive(&self) {
    }

    fn char_width(&self, ch: char) -> (width: i16) {
        if self.width < 0 {
            0
        } else {
            self.width
        }
    }

    fn line_height(&self) -> (height: i16) {
        if self.height < 1 {
            1
        } else {
            self.height
        }
    }

    fn text_height(&self) -> (height: i16) {
        self.line_height()
    }
}

} // verus!
