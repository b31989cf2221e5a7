//! Basic graphics values: colours, text modifiers, styles, rectangles and
//! cursor shapes.

use vstd::prelude::*;

verus! {

/// A terminal colour.
#[derive(Debug, Clone, Copy, PartialEq, Eq, Structural)]
pub enum Color {
    Reset,
    Black,
    Red,
    Green,
    Yellow,
    Blue,
    Magenta,
    Cyan,
    Gray,
    LightRed,
    LightGreen,
    LightYellow,
    LightBlue,
    LightMagenta,
    LightCyan,
    LightGray,
    White,
    Rgb(u8, u8, u8),
    Indexed(u8),
}

/// The shape of an underline.
#[derive(Debug, Clone, Copy, PartialEq, Eq, Structural)]
pub enum UnderlineStyle {
    Reset,
    Line,
    Curl,
    Dotted,
    Dashed,
    DoubleLine,
}

/// The shape of the terminal cursor.
#[derive(Debug, Clone, Copy, PartialEq, Eq, Structural)]
pub enum CursorKind {
    /// █
    Block,
    /// |
    Bar,
    /// _
    Underline,
    /// Hidden cursor
    Hidden,
}

/// Every bit that names a text modifier.
pub const MODIFIER_MASK: u16 = 0b0001_1111_0111u16;

/// A set of text modifiers, held as bits.
///
/// Bold is bit 0, dim bit 1, italic bit 2, slow blink bit 4, rapid blink
/// bit 5, reversed bit 6, hidden bit 7 and crossed out bit 8.
#[derive(Debug, Clone, Copy, PartialEq, Eq, Structural)]
pub struct Modifier {
    bits: u16,
}

impl Modifier {
    pub fn bold() -> (r: Modifier)
        ensures
            r.spec_bits() == 0b0000_0000_0001u16,
    {
        Modifier { bits: 0b0000_0000_0001u16 }
    }

    pub fn dim() -> (r: Modifier)
        ensures
            r.spec_bits() == 0b0000_0000_0010u16,
    {
        Modifier { bits: 0b0000_0000_0010u16 }
    }

    pub fn italic() -> (r: Modifier)
        ensures
            r.spec_bits() == 0b0000_0000_0100u16,
    {
        Modifier { bits: 0b0000_0000_0100u16 }
    }

    pub fn slow_blink() -> (r: Modifier)
        ensures
            r.spec_bits() == 0b0000_0001_0000u16,
    {
        Modifier { bits: 0b0000_0001_0000u16 }
    }

    pub fn rapid_blink() -> (r: Modifier)
        ensures
            r.spec_bits() == 0b0000_0010_0000u16,
    {
        Modifier { bits: 0b0000_0010_0000u16 }
    }

    pub fn reversed() -> (r: Modifier)
        ensures
            r.spec_bits() == 0b0000_0100_0000u16,
    {
        Modifier { bits: 0b0000_0100_0000u16 }
    }

    pub fn hidden() -> (r: Modifier)
        ensures
            r.spec_bits() == 0b0000_1000_0000u16,
    {
        Modifier { bits: 0b0000_1000_0000u16 }
    }

    pub fn crossed_out() -> (r: Modifier)
        ensures
            r.spec_bits() == 0b0001_0000_0000u16,
    {
        Modifier { bits: 0b0001_0000_0000u16 }
    }


    /// The raw bits of the set.
    pub closed spec fn spec_bits(self) -> u16 {
        self.bits
    }

    /// The set with exactly the given bits.
    pub closed spec fn with_bits(bits: u16) -> Modifier {
        Modifier { bits }
    }

    pub proof fn lemma_bits_roundtrip(m: Modifier, b: u16)
        ensures
            Modifier::with_bits(m.spec_bits()) == m,
            Modifier::with_bits(b).spec_bits() == b,
    {
    }

    pub fn bits(&self) -> (r: u16)
        ensures
            r == self.spec_bits(),
    {
        self.bits
    }

    /// The set holding the named modifiers among `bits`; other bits are dropped.
    pub fn from_bits_truncate(bits: u16) -> (r: Modifier)
        ensures
            r.spec_bits() == bits & MODIFIER_MASK,
    {
        Modifier { bits: bits & MODIFIER_MASK }
    }

    pub fn empty() -> (r: Modifier)
        ensures
            r.spec_bits() == 0,
    {
        Modifier { bits: 0 }
    }

    pub fn is_empty(&self) -> (r: bool)
        ensures
            r == (self.spec_bits() == 0),
    {
        self.bits == 0
    }

    /// Whether every modifier of `other` is in `self`.
    pub fn contains(&self, other: Modifier) -> (r: bool)
        ensures
            r == (self.spec_bits() & other.spec_bits() == other.spec_bits()),
    {
        self.bits & other.bits == other.bits
    }

    pub fn union(self, other: Modifier) -> (r: Modifier)
        ensures
            r.spec_bits() == self.spec_bits() | other.spec_bits(),
    {
        Modifier { bits: self.bits | other.bits }
    }

    pub fn difference(self, other: Modifier) -> (r: Modifier)
        ensures
            r.spec_bits() == self.spec_bits() & !other.spec_bits(),
    {
        Modifier { bits: self.bits & !other.bits }
    }

    pub fn insert(&mut self, other: Modifier)
        ensures
            final(self).spec_bits() == old(self).spec_bits() | other.spec_bits(),
    {
        self.bits = self.bits | other.bits;
    }

    pub fn remove(&mut self, other: Modifier)
        ensures
            final(self).spec_bits() == old(self).spec_bits() & !other.spec_bits(),
    {
        self.bits = self.bits & !other.bits;
    }
}

/// Joining bits to the empty set gives them back, and taking bits away from
/// the empty set leaves it empty.
pub proof fn lemma_empty_bits(x: u16)
    by (bit_vector)
    ensures
        0u16 | x == x,
        0u16 & !x == 0u16,
        (0u16 | x) & !0u16 == x,
{
}

impl Default for Modifier {
    fn default() -> (r: Modifier)
        ensures
            r.spec_bits() == 0,
    {
        Modifier { bits: 0 }
    }
}

/// How a piece of text is drawn.  `None` leaves the underlying value as it is.
#[derive(Debug, Clone, Copy, PartialEq, Eq, Structural)]
pub struct Style {
    pub fg: Option<Color>,
    pub bg: Option<Color>,
    pub underline_color: Option<Color>,
    pub underline_style: Option<UnderlineStyle>,
    pub add_modifier: Modifier,
    pub sub_modifier: Modifier,
}

impl Style {
    /// The style that changes nothing.
    pub open spec fn spec_default() -> Style {
        Style {
            fg: None,
            bg: None,
            underline_color: None,
            underline_style: None,
            add_modifier: Modifier::with_bits(0),
            sub_modifier: Modifier::with_bits(0),
        }
    }

    pub fn new() -> (r: Style)
        ensures
            r == Style::spec_default(),
    {
        Style {
            fg: None,
            bg: None,
            underline_color: None,
            underline_style: None,
            add_modifier: Modifier::empty(),
            sub_modifier: Modifier::empty(),
        }
    }

    pub fn fg(self, color: Color) -> (r: Style)
        ensures
            r == (Style { fg: Some(color), ..self }),
    {
        Style { fg: Some(color), ..self }
    }

    pub fn bg(self, color: Color) -> (r: Style)
        ensures
            r == (Style { bg: Some(color), ..self }),
    {
        Style { bg: Some(color), ..self }
    }

    pub fn underline_color(self, color: Color) -> (r: Style)
        ensures
            r == (Style { underline_color: Some(color), ..self }),
    {
        Style { underline_color: Some(color), ..self }
    }

    pub fn underline_style(self, style: UnderlineStyle) -> (r: Style)
        ensures
            r == (Style { underline_style: Some(style), ..self }),
    {
        Style { underline_style: Some(style), ..self }
    }

    /// Adds modifiers: they join `add_modifier` and leave `sub_modifier`.
    pub fn add_modifier(self, modifier: Modifier) -> (r: Style)
        ensures
            r.add_modifier.spec_bits() == self.add_modifier.spec_bits() | modifier.spec_bits(),
            r.sub_modifier.spec_bits() == self.sub_modifier.spec_bits() & !modifier.spec_bits(),
            r.fg == self.fg,
            r.bg == self.bg,
            r.underline_color == self.underline_color,
            r.underline_style == self.underline_style,
    {
        let mut s = self;
        s.sub_modifier.remove(modifier);
        s.add_modifier.insert(modifier);
        s
    }
}

impl Style {
    /// Removes modifiers: they join `sub_modifier` and leave `add_modifier`.
    pub fn remove_modifier(self, modifier: Modifier) -> (r: Style)
        ensures
            r.add_modifier.spec_bits() == self.add_modifier.spec_bits() & !modifier.spec_bits(),
            r.sub_modifier.spec_bits() == self.sub_modifier.spec_bits() | modifier.spec_bits(),
            r.fg == self.fg,
            r.bg == self.bg,
            r.underline_color == self.underline_color,
            r.underline_style == self.underline_style,
    {
        let mut s = self;
        s.add_modifier.remove(modifier);
        s.sub_modifier.insert(modifier);
        s
    }

    /// The style that draws as `self` and then `other` would: each colour and
    /// underline style `other` holds wins, `other`'s added modifiers join and
    /// its removed ones leave.
    pub open spec fn spec_patch(self, other: Style) -> Style {
        Style {
            fg: if other.fg is Some { other.fg } else { self.fg },
            bg: if other.bg is Some { other.bg } else { self.bg },
            underline_color: if other.underline_color is Some { other.underline_color } else { self.underline_color },
            underline_style: if other.underline_style is Some { other.underline_style } else { self.underline_style },
            add_modifier: Modifier::with_bits(
                (self.add_modifier.spec_bits() & !other.sub_modifier.spec_bits()) | other.add_modifier.spec_bits(),
            ),
            sub_modifier: Modifier::with_bits(
                (self.sub_modifier.spec_bits() & !other.add_modifier.spec_bits()) | other.sub_modifier.spec_bits(),
            ),
        }
    }

    /// Applies `other` on top of this style.
    pub fn patch(self, other: Style) -> (r: Style)
        ensures
            r == self.spec_patch(other),
    {
        let fg = match other.fg {
            Some(c) => Some(c),
            None => self.fg,
        };
        let bg = match other.bg {
            Some(c) => Some(c),
            None => self.bg,
        };
        let underline_color = match other.underline_color {
            Some(c) => Some(c),
            None => self.underline_color,
        };
        let underline_style = match other.underline_style {
            Some(u) => Some(u),
            None => self.underline_style,
        };
        let mut add_modifier = self.add_modifier;
        add_modifier.remove(other.sub_modifier);
        add_modifier.insert(other.add_modifier);
        let mut sub_modifier = self.sub_modifier;
        sub_modifier.remove(other.add_modifier);
        sub_modifier.insert(other.sub_modifier);
        proof {
            Modifier::lemma_bits_roundtrip(add_modifier, 0);
            Modifier::lemma_bits_roundtrip(sub_modifier, 0);
        }
        Style { fg, bg, underline_color, underline_style, add_modifier, sub_modifier }
    }
}

impl Default for Style {
    fn default() -> (r: Style)
        ensures
            r == Style::spec_default(),
    {
        Style::new()
    }
}

/// A rectangle of terminal cells: its top left corner and its size.
#[derive(Debug, Clone, Copy, PartialEq, Eq, Structural)]
pub struct Rect {
    pub x: u16,
    pub y: u16,
    pub width: u16,
    pub height: u16,
}

/// `a + b`, or `u16::MAX` where that does not fit.
pub open spec fn sat_add(a: int, b: int) -> int {
    if a + b > u16::MAX { u16::MAX as int } else { a + b }
}

/// `a - b`, or `0` where that is negative.
pub open spec fn sat_sub(a: int, b: int) -> int {
    if a - b < 0 { 0 } else { a - b }
}

pub open spec fn min_int(a: int, b: int) -> int {
    if a <= b { a } else { b }
}

pub open spec fn max_int(a: int, b: int) -> int {
    if a >= b { a } else { b }
}

impl Rect {
    pub fn new(x: u16, y: u16, width: u16, height: u16) -> (r: Rect)
        ensures
            r == (Rect { x, y, width, height }),
    {
        Rect { x, y, width, height }
    }

    /// The number of cells in the rectangle.
    pub open spec fn spec_area(self) -> nat {
        (self.width * self.height) as nat
    }

    pub open spec fn spec_right(self) -> int {
        sat_add(self.x as int, self.width as int)
    }

    pub open spec fn spec_bottom(self) -> int {
        sat_add(self.y as int, self.height as int)
    }

    pub fn area(&self) -> (r: usize)
        ensures
            r == self.spec_area(),
    {
        proof {
            assert(self.width * self.height <= 65535 * 65535) by (nonlinear_arith)
                requires
                    self.width <= 65535,
                    self.height <= 65535,
            ;
        }
        (self.width as usize) * (self.height as usize)
    }

    pub fn left(&self) -> (r: u16)
        ensures
            r == self.x,
    {
        self.x
    }

    /// The first column to the right of the rectangle (saturating).
    pub fn right(&self) -> (r: u16)
        ensures
            r == self.spec_right(),
    {
        self.x.saturating_add(self.width)
    }

    pub fn top(&self) -> (r: u16)
        ensures
            r == self.y,
    {
        self.y
    }

    /// The first row below the rectangle (saturating).
    pub fn bottom(&self) -> (r: u16)
        ensures
            r == self.spec_bottom(),
    {
        self.y.saturating_add(self.height)
    }

    /// The common part of two rectangles; empty where they do not overlap.
    pub open spec fn spec_intersection(self, other: Rect) -> Rect {
        let x1 = max_int(self.x as int, other.x as int);
        let y1 = max_int(self.y as int, other.y as int);
        let x2 = min_int(self.spec_right(), other.spec_right());
        let y2 = min_int(self.spec_bottom(), other.spec_bottom());
        Rect { x: x1 as u16, y: y1 as u16, width: sat_sub(x2, x1) as u16, height: sat_sub(y2, y1) as u16 }
    }

    pub fn intersection(&self, other: Rect) -> (r: Rect)
        ensures
            r == self.spec_intersection(other),
    {
        let x1 = if self.x >= other.x { self.x } else { other.x };
        let y1 = if self.y >= other.y { self.y } else { other.y };
        let sr = self.right();
        let orr = other.right();
        let sb = self.bottom();
        let ob = other.bottom();
        let x2 = if sr <= orr { sr } else { orr };
        let y2 = if sb <= ob { sb } else { ob };
        Rect { x: x1, y: y1, width: x2.saturating_sub(x1), height: y2.saturating_sub(y1) }
    }
}

impl Default for Rect {
    fn default() -> (r: Rect)
        ensures
            r == (Rect { x: 0, y: 0, width: 0, height: 0 }),
    {
        Rect { x: 0, y: 0, width: 0, height: 0 }
    }
}

} // verus!
