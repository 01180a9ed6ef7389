//! The style of a block of text: font, colors, and how lines and pages break.

use crate::geometry::Alignment;
use crate::span::LineBreaking;
use vstd::prelude::*;

verus! {

/// A color of the display, in its 16-bit encoding.
#[derive(Copy, Clone, Debug, PartialEq, Eq, Structural)]
pub struct Color(pub u16);

/// What to do when the text does not fit above the bottom of the bounds.
#[derive(Copy, Clone, Debug, PartialEq, Eq, Structural)]
pub enum PageBreaking {
    /// Stop after hitting the bottom-right edge of the bounds.
    Cut,
    /// Before stopping at the bottom-right edge, insert ellipsis to signify
    /// more content is available, but only if no hyphen has been inserted yet.
    CutAndInsertEllipsis,
}

/// Fonts, colors, line and page breaking behavior of a block of text. A style
/// is a plain value: it is copied freely and never changes during a layout
/// pass.
#[derive(Copy, Clone)]
pub struct TextStyle<F> {
    /// Text font.
    pub text_font: F,
    /// Text color.
    pub text_color: Color,
    /// Background color.
    pub background_color: Color,
    /// Foreground color used for drawing the hyphen.
    pub hyphen_color: Color,
    /// Foreground color used for drawing the ellipsis.
    pub ellipsis_color: Color,
    /// Optional icon shown as ellipsis.
    pub ellipsis_icon: Option<&'static [u8]>,
    /// Optional icon to signal content continues from previous page.
    pub prev_page_ellipsis_icon: Option<&'static [u8]>,
    /// Specifies which line-breaking strategy to use.
    pub line_breaking: LineBreaking,
    /// Specifies what to do at the end of the page.
    pub page_breaking: PageBreaking,
    /// Specifies how to align text on the line.
    pub line_alignment: Alignment,
}

impl<F> TextStyle<F> {
    /// A style with the given font and colors that breaks lines at whitespace,
    /// ends a full page with an ellipsis, aligns lines at their start and has
    /// no icons.
    pub fn new(
        text_font: F,
        text_color: Color,
        background_color: Color,
        hyphen_color: Color,
        ellipsis_color: Color,
    ) -> (style: Self)
        ensures
            style == (TextStyle {
                text_font,
                text_color,
                background_color,
                hyphen_color,
                ellipsis_color,
                ellipsis_icon: None,
                prev_page_ellipsis_icon: None,
                line_breaking: LineBreaking::BreakAtWhitespace,
                page_breaking: PageBreaking::CutAndInsertEllipsis,
                line_alignment: Alignment::Start,
            }),
    {
        TextStyle {
            text_font,
            text_color,
            background_color,
            hyphen_color,
            ellipsis_color,
            line_breaking: LineBreaking::BreakAtWhitespace,
            page_breaking: PageBreaking::CutAndInsertEllipsis,
            line_alignment: Alignment::Start,
            ellipsis_icon: None,
            prev_page_ellipsis_icon: None,
        }
    }

    pub fn with_line_breaking(self, line_breaking: LineBreaking) -> (style: Self)
        ensures
            style == (TextStyle { line_breaking, ..self }),
    {
        let mut style = self;
        style.line_breaking = line_breaking;
        style
    }

    pub fn with_page_breaking(self, page_breaking: PageBreaking) -> (style: Self)
        ensures
            style == (TextStyle { page_breaking, ..self }),
    {
        let mut style = self;
        style.page_breaking = page_breaking;
        style
    }

    /// Adding optional icon shown instead of "..." ellipsis.
    pub fn with_ellipsis_icon(self, icon: &'static [u8]) -> (style: Self)
        ensures
            style == (TextStyle { ellipsis_icon: Some(icon), ..self }),
    {
        let mut style = self;
        style.ellipsis_icon = Some(icon);
        style
    }

    /// Adding optional icon signalling content continues from previous page.
    pub fn with_prev_page_icon(self, icon: &'static [u8]) -> (style: Self)
        ensures
            style == (TextStyle { prev_page_ellipsis_icon: Some(icon), ..self }),
    {
        let mut style = self;
        style.prev_page_ellipsis_icon = Some(icon);
        style
    }
}

} // verus!
