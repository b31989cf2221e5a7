//! Widget configuration: borders, border types, wrapping, alignment, and the
//! block and paragraph widgets, with the ratatui widget settings they stand
//! for.

use vstd::prelude::*;
use crate::graphics::{Rect, Style, sat_add, sat_sub};
use crate::compat::{
    alignment_to_ratatui, border_type_to_ratatui, convert_alignment, convert_border_type, convert_borders,
    convert_style, convert_text, convert_wrap, style_to_ratatui, text_to_ratatui,
};
use crate::text::Text;
use crate::ratatui_types as rt;

verus! {

/// Which sides of a block carry a border, held as bits: top is bit 0,
/// right bit 1, bottom bit 2 and left bit 3.
#[derive(Debug, Clone, Copy, PartialEq, Eq, Structural)]
pub struct Borders {
    bits: u8,
}

pub const BORDERS_MASK: u8 = 0b1111u8;

impl Borders {
    pub closed spec fn spec_bits(self) -> u8 {
        self.bits
    }

    pub open spec fn has(self, side: u8) -> bool {
        self.spec_bits() & side == side
    }

    pub open spec fn has_top(self) -> bool {
        self.has(1u8)
    }

    pub open spec fn has_right(self) -> bool {
        self.has(2u8)
    }

    pub open spec fn has_bottom(self) -> bool {
        self.has(4u8)
    }

    pub open spec fn has_left(self) -> bool {
        self.has(8u8)
    }

    /// No border.
    pub fn none() -> (r: Borders)
        ensures
            r.spec_bits() == 0u8,
    {
        Borders { bits: 0 }
    }

    pub fn top() -> (r: Borders)
        ensures
            r.spec_bits() == 1u8,
    {
        Borders { bits: 0b0001 }
    }

    pub fn right() -> (r: Borders)
        ensures
            r.spec_bits() == 2u8,
    {
        Borders { bits: 0b0010 }
    }

    pub fn bottom() -> (r: Borders)
        ensures
            r.spec_bits() == 4u8,
    {
        Borders { bits: 0b0100 }
    }

    pub fn left() -> (r: Borders)
        ensures
            r.spec_bits() == 8u8,
    {
        Borders { bits: 0b1000 }
    }

    /// A border on every side.
    pub fn all() -> (r: Borders)
        ensures
            r.spec_bits() == 15u8,
    {
        Borders { bits: 0b1111 }
    }

    /// The sides named among `bits`; other bits are dropped.
    pub fn from_bits_truncate(bits: u8) -> (r: Borders)
        ensures
            r.spec_bits() == bits & BORDERS_MASK,
    {
        Borders { bits: bits & BORDERS_MASK }
    }

    pub fn bits(&self) -> (r: u8)
        ensures
            r == self.spec_bits(),
    {
        self.bits
    }

    pub fn is_empty(&self) -> (r: bool)
        ensures
            r == (self.spec_bits() == 0),
    {
        self.bits == 0
    }

    /// Whether every side of `other` is in `self`.
    pub fn contains(&self, other: Borders) -> (r: bool)
        ensures
            r == (self.spec_bits() & other.spec_bits() == other.spec_bits()),
    {
        self.bits & other.bits == other.bits
    }

    pub fn union(self, other: Borders) -> (r: Borders)
        ensures
            r.spec_bits() == self.spec_bits() | other.spec_bits(),
    {
        Borders { bits: self.bits | other.bits }
    }
}

impl Default for Borders {
    fn default() -> (r: Borders)
        ensures
            r.spec_bits() == 0u8,
    {
        Borders::none()
    }
}

/// The line set a block draws its border with.
#[derive(Debug, Clone, Copy, PartialEq, Eq, Structural)]
pub enum BorderType {
    Plain,
    Rounded,
    Double,
    Thick,
}

impl Default for BorderType {
    fn default() -> (r: BorderType)
        ensures
            r == BorderType::Plain,
    {
        BorderType::Plain
    }
}

impl BorderType {
    /// The line set of a border type: the border type itself.
    pub fn line_symbols(border_type: BorderType) -> (r: BorderType)
        ensures
            r == border_type,
    {
        border_type
    }

    /// The character a horizontal border is drawn with: `-`, whatever the type.
    pub fn horizontal(&self) -> (r: &'static str)
        ensures
            r@ == seq!['-'],
    {
        let r = "-";
        proof {
            reveal_strlit("-");
        }
        r
    }
}

/// How paragraph text is wrapped; `trim` drops leading blanks of wrapped lines.
#[derive(Debug, Clone, Copy, PartialEq, Eq, Structural)]
pub struct Wrap {
    pub trim: bool,
}

impl Default for Wrap {
    fn default() -> (r: Wrap)
        ensures
            r == (Wrap { trim: false }),
    {
        Wrap { trim: false }
    }
}

/// Horizontal alignment of paragraph text.
#[derive(Debug, Clone, Copy, PartialEq, Eq, Structural)]
pub enum Alignment {
    Left,
    Center,
    Right,
}

impl Default for Alignment {
    fn default() -> (r: Alignment)
        ensures
            r == Alignment::Left,
    {
        Alignment::Left
    }
}

/// The area left inside borders: a top border moves the top edge one row
/// down and a left border the left edge one column right (each saturating
/// at `u16::MAX`), and each border takes one row or column off the size
/// (saturating at zero).
pub open spec fn inner_area(borders: Borders, area: Rect) -> Rect {
    let top: int = if borders.has_top() { 1 } else { 0 };
    let bottom: int = if borders.has_bottom() { 1 } else { 0 };
    let left: int = if borders.has_left() { 1 } else { 0 };
    let right: int = if borders.has_right() { 1 } else { 0 };
    Rect {
        x: sat_add(area.x as int, left) as u16,
        y: sat_add(area.y as int, top) as u16,
        width: sat_sub(area.width as int, left + right) as u16,
        height: sat_sub(area.height as int, top + bottom) as u16,
    }
}

/// A box with an optional title and borders.
#[derive(Debug, Clone, Copy, PartialEq, Eq)]
pub struct Block<'a> {
    pub title: Option<&'a str>,
    pub borders: Borders,
    pub border_type: BorderType,
    pub style: Style,
}

impl<'a> Block<'a> {
    /// A block with no title, no border, plain border lines and the default
    /// style.
    pub open spec fn is_plain(self) -> bool {
        &&& self.title is None
        &&& self.borders.spec_bits() == 0
        &&& self.border_type == BorderType::Plain
        &&& self.style == Style::spec_default()
    }

    pub fn new() -> (r: Block<'a>)
        ensures
            r.is_plain(),
    {
        Block { title: None, borders: Borders::none(), border_type: BorderType::Plain, style: Style::new() }
    }

    /// A plain block with a border on every side.
    pub fn bordered() -> (r: Block<'a>)
        ensures
            r.title is None,
            r.borders.spec_bits() == 15u8,
            r.border_type == BorderType::Plain,
            r.style == Style::spec_default(),
    {
        Block::new().borders(Borders::all())
    }

    pub fn title(self, title: &'a str) -> (r: Block<'a>)
        ensures
            r == (Block { title: Some(title), ..self }),
    {
        Block { title: Some(title), ..self }
    }

    pub fn borders(self, borders: Borders) -> (r: Block<'a>)
        ensures
            r == (Block { borders, ..self }),
    {
        Block { borders, ..self }
    }

    pub fn border_type(self, border_type: BorderType) -> (r: Block<'a>)
        ensures
            r == (Block { border_type, ..self }),
    {
        Block { border_type, ..self }
    }

    pub fn style(self, style: Style) -> (r: Block<'a>)
        ensures
            r == (Block { style, ..self }),
    {
        Block { style, ..self }
    }

    /// Sets the style: a block has one style for its border and its inside.
    pub fn border_style(self, style: Style) -> (r: Block<'a>)
        ensures
            r == (Block { style, ..self }),
    {
        Block { style, ..self }
    }

    /// The area inside the block's borders.
    pub fn inner(&self, area: Rect) -> (r: Rect)
        ensures
            r == inner_area(self.borders, area),
    {
        let mut inner = area;
        if self.borders.contains(Borders::top()) {
            inner.y = inner.y.saturating_add(1);
            inner.height = inner.height.saturating_sub(1);
        }
        if self.borders.contains(Borders::bottom()) {
            inner.height = inner.height.saturating_sub(1);
        }
        if self.borders.contains(Borders::left()) {
            inner.x = inner.x.saturating_add(1);
            inner.width = inner.width.saturating_sub(1);
        }
        if self.borders.contains(Borders::right()) {
            inner.width = inner.width.saturating_sub(1);
        }
        inner
    }
}

impl<'a> Default for Block<'a> {
    fn default() -> (r: Block<'a>)
        ensures
            r.is_plain(),
    {
        Block::new()
    }
}

/// The title's characters, if there is a title.
pub open spec fn title_view(title: Option<&str>) -> Option<Seq<char>> {
    match title {
        Some(t) => Some(t@),
        None => None,
    }
}

pub open spec fn string_option_view(s: Option<String>) -> Option<Seq<char>> {
    match s {
        Some(t) => Some(t@),
        None => None,
    }
}

/// The ratatui block settings that stand for `b`: its title, its borders, its
/// border type and its style, each converted.
pub open spec fn block_config_of(b: Block, c: rt::BlockConfig) -> bool {
    &&& string_option_view(c.title) == title_view(b.title)
    &&& c.borders.bits == b.borders.spec_bits()
    &&& c.border_type == border_type_to_ratatui(b.border_type)
    &&& c.style == style_to_ratatui(b.style)
}

impl<'a> Block<'a> {
    /// The ratatui block settings this block is drawn with.
    pub fn to_ratatui_block(&self) -> (r: rt::BlockConfig)
        ensures
            block_config_of(*self, r),
    {
        let title = match self.title {
            Some(t) => Some(String::from_str(t)),
            None => None,
        };
        rt::BlockConfig {
            title,
            borders: convert_borders(self.borders),
            border_type: convert_border_type(self.border_type),
            style: convert_style(self.style),
        }
    }
}

/// Text in an optional block, with a style, wrapping, alignment and a scroll
/// offset.
#[derive(Debug, PartialEq, Eq)]
pub struct Paragraph<'a> {
    pub text: Text,
    pub block: Option<Block<'a>>,
    pub style: Style,
    pub wrap: Option<Wrap>,
    pub alignment: Alignment,
    pub scroll: (u16, u16),
}

impl<'a> Paragraph<'a> {
    /// A paragraph of `text` with no block, the default style, no wrapping,
    /// left alignment and no scrolling.
    pub fn new(text: Text) -> (r: Paragraph<'a>)
        ensures
            r.text@ == text@,
            r.block is None,
            r.style == Style::spec_default(),
            r.wrap is None,
            r.alignment == Alignment::Left,
            r.scroll == (0u16, 0u16),
    {
        Paragraph {
            text,
            block: None,
            style: Style::new(),
            wrap: None,
            alignment: Alignment::Left,
            scroll: (0, 0),
        }
    }

    pub fn block(self, block: Block<'a>) -> (r: Paragraph<'a>)
        ensures
            r == (Paragraph { block: Some(block), ..self }),
    {
        Paragraph { block: Some(block), ..self }
    }

    pub fn style(self, style: Style) -> (r: Paragraph<'a>)
        ensures
            r == (Paragraph { style, ..self }),
    {
        Paragraph { style, ..self }
    }

    pub fn wrap(self, wrap: Wrap) -> (r: Paragraph<'a>)
        ensures
            r == (Paragraph { wrap: Some(wrap), ..self }),
    {
        Paragraph { wrap: Some(wrap), ..self }
    }

    pub fn alignment(self, alignment: Alignment) -> (r: Paragraph<'a>)
        ensures
            r == (Paragraph { alignment, ..self }),
    {
        Paragraph { alignment, ..self }
    }

    pub fn scroll(self, offset: (u16, u16)) -> (r: Paragraph<'a>)
        ensures
            r == (Paragraph { scroll: offset, ..self }),
    {
        Paragraph { scroll: offset, ..self }
    }

    /// The size the paragraph asks for: one cell, whatever its text and the
    /// width on offer.
    pub fn required_size(&self, max_width: u16) -> (r: (u16, u16))
        ensures
            r == (1u16, 1u16),
    {
        (1, 1)
    }

    /// The ratatui paragraph settings this paragraph is drawn with: its text,
    /// its style converted, its scroll offset, its alignment converted, its
    /// wrapping (if any) converted, and its block (if any) as ratatui block
    /// settings.
    pub fn to_ratatui_paragraph(&self) -> (r: rt::ParagraphConfig)
        ensures
            r.text@ == text_to_ratatui(self.text@),
            r.style == style_to_ratatui(self.style),
            r.scroll == self.scroll,
            r.alignment == alignment_to_ratatui(self.alignment),
            r.wrap == (match self.wrap {
                Some(w) => Some(rt::Wrap { trim: w.trim }),
                None => None::<rt::Wrap>,
            }),
            match self.block {
                Some(b) => r.block is Some && block_config_of(b, r.block->0),
                None => r.block is None,
            },
    {
        let wrap = match self.wrap {
            Some(w) => Some(convert_wrap(w)),
            None => None,
        };
        let block = match &self.block {
            Some(b) => Some(b.to_ratatui_block()),
            None => None,
        };
        rt::ParagraphConfig {
            text: convert_text(&self.text),
            style: convert_style(self.style),
            scroll: self.scroll,
            alignment: convert_alignment(self.alignment),
            wrap,
            block,
        }
    }
}

impl<'a> Clone for Paragraph<'a> {
    fn clone(&self) -> (r: Paragraph<'a>)
        ensures
            r.text@ == self.text@,
            r.block == self.block,
            r.style == self.style,
            r.wrap == self.wrap,
            r.alignment == self.alignment,
            r.scroll == self.scroll,
    {
        Paragraph {
            text: self.text.clone(),
            block: self.block,
            style: self.style,
            wrap: self.wrap,
            alignment: self.alignment,
            scroll: self.scroll,
        }
    }
}

impl<'a> Default for Paragraph<'a> {
    fn default() -> (r: Paragraph<'a>)
        ensures
            r.text@ == Seq::<Seq<(Seq<char>, Style)>>::empty(),
            r.block is None,
            r.style == Style::spec_default(),
            r.wrap is None,
            r.alignment == Alignment::Left,
            r.scroll == (0u16, 0u16),
    {
        Paragraph {
            text: Text { lines: Vec::new() },
            block: None,
            style: Style::new(),
            wrap: None,
            alignment: Alignment::Left,
            scroll: (0, 0),
        }
    }
}

/// The area inside a block's borders never reaches outside the block's
/// area: it starts no further left or up, it is no wider or taller, and
/// (where the area is not empty in that direction) it ends no further right
/// or down.
pub proof fn lemma_inner_within(borders: Borders, area: Rect)
    ensures
        inner_area(borders, area).x >= area.x,
        inner_area(borders, area).y >= area.y,
        inner_area(borders, area).width <= area.width,
        inner_area(borders, area).height <= area.height,
        area.width > 0 ==> inner_area(borders, area).x + inner_area(borders, area).width <= area.x
            + area.width,
        area.height > 0 ==> inner_area(borders, area).y + inner_area(borders, area).height <= area.y
            + area.height,
{
}

/// Where the area has room for the borders and does not touch `u16::MAX`,
/// each border takes exactly one row or column: the left and top borders
/// move the corner in by one, and every border shrinks the size by one.
pub proof fn lemma_inner_exact(borders: Borders, area: Rect)
    requires
        area.width >= 2,
        area.height >= 2,
        area.x < u16::MAX,
        area.y < u16::MAX,
    ensures
        inner_area(borders, area) == (Rect {
            x: (area.x + if borders.has_left() { 1int } else { 0int }) as u16,
            y: (area.y + if borders.has_top() { 1int } else { 0int }) as u16,
            width: (area.width - (if borders.has_left() { 1int } else { 0int }) - (if borders.has_right() {
                1int
            } else {
                0int
            })) as u16,
            height: (area.height - (if borders.has_top() { 1int } else { 0int }) - (if borders.has_bottom() {
                1int
            } else {
                0int
            })) as u16,
        }),
{
}

/// A block without borders has its whole area inside.
pub proof fn lemma_inner_no_borders(borders: Borders, area: Rect)
    requires
        borders.spec_bits() == 0,
    ensures
        inner_area(borders, area) == area,
{
    assert(0u8 & 1u8 != 1u8 && 0u8 & 2u8 != 2u8 && 0u8 & 4u8 != 4u8 && 0u8 & 8u8 != 8u8) by (bit_vector);
}

/// A block with a border on every side, over an area with room for it, has
/// inside it the area moved in by one cell and two cells smaller each way.
pub proof fn lemma_inner_all_borders(borders: Borders, area: Rect)
    requires
        borders.spec_bits() == 15u8,
        area.width >= 2,
        area.height >= 2,
        area.x < u16::MAX,
        area.y < u16::MAX,
    ensures
        inner_area(borders, area) == (Rect {
            x: (area.x + 1) as u16,
            y: (area.y + 1) as u16,
            width: (area.width - 2) as u16,
            height: (area.height - 2) as u16,
        }),
{
    assert(15u8 & 1u8 == 1u8 && 15u8 & 2u8 == 2u8 && 15u8 & 4u8 == 4u8 && 15u8 & 8u8 == 8u8) by (bit_vector);
    lemma_inner_exact(borders, area);
}

} // verus!
