//! The appearance of the view.

use crate::render::default_font;
use iced_native::Font;
use vstd::prelude::*;

verus! {

/// A color by its red, green, blue and alpha parts, each in thousandths
/// from 0 to 1000.
#[derive(Clone, Copy, Debug, PartialEq, Eq, Structural)]
pub struct Color {
    pub r: u16,
    pub g: u16,
    pub b: u16,
    pub a: u16,
}

/// The opaque color with the given parts.
pub open spec fn rgb(r: u16, g: u16, b: u16) -> Color {
    Color { r, g, b, a: 1000 }
}

impl Color {
    /// An opaque color from its red, green and blue parts in thousandths.
    pub fn from_rgb(r: u16, g: u16, b: u16) -> (c: Color)
        ensures
            c == rgb(r, g, b),
    {
        Color { r, g, b, a: 1000 }
    }
}

/// The appearance of a view.
#[derive(Debug, Clone, Copy)]
pub struct Style {
    /// Background color
    pub background_color: Color,
    /// Color for vertical separators
    pub line_color: Color,
    /// Color for offsets
    pub offset_color: Color,
    /// Color of bytes and text representation
    pub data_color: Color,
    /// Color for non-printable bytes.
    pub non_printable_color: Option<Color>,
    /// Color for the cursor
    pub cursor_color: Color,
    /// Font for column headers and offsets
    pub header_font: Font,
    /// Font for bytes and ascii
    pub data_font: Font,
}

/// The colors of a style.
pub struct Palette {
    pub background_color: Color,
    pub line_color: Color,
    pub offset_color: Color,
    pub data_color: Color,
    pub non_printable_color: Option<Color>,
    pub cursor_color: Color,
}

impl Style {
    /// The colors of the style, without its fonts.
    pub open spec fn palette(self) -> Palette {
        Palette {
            background_color: self.background_color,
            line_color: self.line_color,
            offset_color: self.offset_color,
            data_color: self.data_color,
            non_printable_color: self.non_printable_color,
            cursor_color: self.cursor_color,
        }
    }

    /// Whether non-printable bytes are set off by a color of their own.
    pub fn highlights(&self) -> (h: bool)
        ensures
            h == self.non_printable_color is Some,
    {
        self.non_printable_color.is_some()
    }
}

/// The colors of the light theme.
pub open spec fn light_palette() -> Palette {
    Palette {
        background_color: rgb(1000, 1000, 1000),
        line_color: rgb(750, 750, 750),
        offset_color: rgb(330, 330, 330),
        data_color: rgb(196, 196, 196),
        non_printable_color: Some(rgb(640, 640, 640)),
        cursor_color: rgb(630, 630, 630),
    }
}

/// The colors of the dark theme.
pub open spec fn dark_palette() -> Palette {
    Palette {
        background_color: rgb(180, 210, 220),
        line_color: rgb(278, 330, 345),
        offset_color: rgb(294, 372, 372),
        data_color: rgb(440, 530, 530),
        non_printable_color: Some(rgb(270, 368, 368)),
        cursor_color: rgb(150, 380, 440),
    }
}

/// A set of styles for a view.
pub trait StyleSheet {
    /// The style of a view in its usual state.
    fn active(&self) -> Style;
}

/// The light theme.
pub struct Light;

/// The dark theme.
pub struct Dark;

impl StyleSheet for Light {
    fn active(&self) -> (s: Style)
        ensures
            s.palette() == light_palette(),
    {
        Style {
            background_color: Color::from_rgb(1000, 1000, 1000),
            line_color: Color::from_rgb(750, 750, 750),
            offset_color: Color::from_rgb(330, 330, 330),
            data_color: Color::from_rgb(196, 196, 196),
            non_printable_color: Some(Color::from_rgb(640, 640, 640)),
            cursor_color: Color::from_rgb(630, 630, 630),
            header_font: default_font(),
            data_font: default_font(),
        }
    }
}

impl StyleSheet for Dark {
    fn active(&self) -> (s: Style)
        ensures
            s.palette() == dark_palette(),
    {
        Style {
            background_color: Color::from_rgb(180, 210, 220),
            line_color: Color::from_rgb(278, 330, 345),
            offset_color: Color::from_rgb(294, 372, 372),
            data_color: Color::from_rgb(440, 530, 530),
            non_printable_color: Some(Color::from_rgb(270, 368, 368)),
            cursor_color: Color::from_rgb(150, 380, 440),
            header_font: default_font(),
            data_font: default_font(),
        }
    }
}

} // verus!
