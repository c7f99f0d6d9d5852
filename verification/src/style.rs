//! Colors, text modifiers and styles: the vocabulary the terminal front end draws with.
use vstd::prelude::*;

verus! {

/// A terminal color.
#[derive(Debug, Clone, Copy, PartialEq, Eq, Structural)]
pub enum Color {
    Reset,
    Black,
    Red,
    Green,
    Yellow,
    Blue,
    Magenta,
    Cyan,
    Gray,
    DarkGray,
    LightRed,
    LightGreen,
    LightYellow,
    LightBlue,
    LightMagenta,
    LightCyan,
    White,
    Rgb(u8, u8, u8),
    Indexed(u8),
}

/// A set of text modifiers, one bit each.
#[derive(Debug, Clone, Copy, PartialEq, Eq, Structural)]
pub struct Modifier {
    pub bits: u16,
}

impl Modifier {
    /// Bold text.
    pub fn bold() -> (res: Modifier)
        ensures
            res.bits == 1,
    {
        Modifier { bits: 1 }
    }

    /// Foreground and background swapped.
    pub fn reversed() -> (res: Modifier)
        ensures
            res.bits == 64,
    {
        Modifier { bits: 64 }
    }

    /// No modifier.
    pub fn empty() -> (res: Modifier)
        ensures
            res.bits == 0,
    {
        Modifier { bits: 0 }
    }

    /// Both sets of modifiers.
    pub fn union(self, other: Modifier) -> (res: Modifier)
        ensures
            res.bits == self.bits | other.bits,
    {
        Modifier { bits: self.bits | other.bits }
    }

    /// Every modifier of `other` is in `self`.
    pub fn contains(self, other: Modifier) -> (res: bool)
        ensures
            res == (self.bits & other.bits == other.bits),
    {
        self.bits & other.bits == other.bits
    }
}

/// How a piece of text is drawn: optional colors and the modifiers added.
#[derive(Debug, Clone, Copy, PartialEq, Eq, Structural)]
pub struct Style {
    pub fg: Option<Color>,
    pub bg: Option<Color>,
    pub add_modifier: Modifier,
}

impl Style {
    /// The style that changes nothing.
    pub fn new() -> (res: Style)
        ensures
            res == (Style { fg: None, bg: None, add_modifier: Modifier { bits: 0 } }),
    {
        Style { fg: None, bg: None, add_modifier: Modifier { bits: 0 } }
    }

    /// This style with the given foreground.
    pub fn fg(self, color: Color) -> (res: Style)
        ensures
            res == (Style { fg: Some(color), ..self }),
    {
        Style { fg: Some(color), ..self }
    }

    /// This style with the given background.
    pub fn bg(self, color: Color) -> (res: Style)
        ensures
            res == (Style { bg: Some(color), ..self }),
    {
        Style { bg: Some(color), ..self }
    }

    /// This style with the given modifiers added.
    pub fn add_modifier(self, modifier: Modifier) -> (res: Style)
        ensures
            res == (Style { add_modifier: Modifier { bits: self.add_modifier.bits | modifier.bits }, ..self }),
    {
        Style { add_modifier: self.add_modifier.union(modifier), ..self }
    }
}

/// A run of text drawn in one style.
#[derive(Debug, Clone, PartialEq, Eq)]
pub struct Span {
    pub content: String,
    pub style: Style,
}

/// One line of text made of styled runs.
#[derive(Debug, Clone, PartialEq, Eq)]
pub struct Line {
    pub spans: Vec<Span>,
}

/// The mathematical value of a [`Span`].
pub struct SpanView {
    pub content: Seq<char>,
    pub style: Style,
}

impl View for Span {
    type V = SpanView;

    open spec fn view(&self) -> SpanView {
        SpanView { content: self.content@, style: self.style }
    }
}

impl View for Line {
    type V = Seq<SpanView>;

    open spec fn view(&self) -> Seq<SpanView> {
        self.spans@.map_values(|s: Span| s@)
    }
}

} // verus!

verus! {

/// A rectangle of terminal cells.
#[derive(Debug, Clone, Copy, PartialEq, Eq, Structural)]
pub struct Rect {
    pub x: u16,
    pub y: u16,
    pub width: u16,
    pub height: u16,
}

} // verus!
