//! The values of ratatui's data model that this crate reads and builds:
//! colours, modifiers, styles, rectangles, margins, cells and cell buffers.
//!
//! Each type holds, as plain values, exactly the fields of its ratatui
//! counterpart, and each operation does what the ratatui operation of the
//! same name does to those fields.

use vstd::prelude::*;
use crate::graphics::{sat_add, sat_sub, min_int};

verus! {

/// A colour in ratatui's palette.  `Gray` is ratatui's light gray and
/// `DarkGray` its dark gray.
#[derive(Debug, Clone, Copy, PartialEq, Eq, Structural)]
pub enum Color {
    Reset,
    Black,
    Red,
    Green,
    Yellow,
    Blue,
    Magenta,
    Cyan,
    Gray,
    DarkGray,
    LightRed,
    LightGreen,
    LightYellow,
    LightBlue,
    LightMagenta,
    LightCyan,
    White,
    Rgb(u8, u8, u8),
    Indexed(u8),
}

/// Every bit that names a ratatui text modifier.
pub const MODIFIER_MASK: u16 = 0b0001_1111_1111u16;

/// A set of ratatui text modifiers, held as bits: the bits of this crate's
/// modifiers, plus bit 3 for underlined.
#[derive(Debug, Clone, Copy, PartialEq, Eq, Structural)]
pub struct Modifier {
    bits: u16,
}

impl Modifier {
    pub closed spec fn spec_bits(self) -> u16 {
        self.bits
    }

    pub closed spec fn with_bits(bits: u16) -> Modifier {
        Modifier { bits }
    }

    pub proof fn lemma_bits_roundtrip(m: Modifier, b: u16)
        ensures
            Modifier::with_bits(m.spec_bits()) == m,
            Modifier::with_bits(b).spec_bits() == b,
    {
    }

    pub fn bold() -> (r: Modifier)
        ensures
            r.spec_bits() == 0b0000_0000_0001u16,
    {
        Modifier { bits: 0b0000_0000_0001u16 }
    }

    pub fn dim() -> (r: Modifier)
        ensures
            r.spec_bits() == 0b0000_0000_0010u16,
    {
        Modifier { bits: 0b0000_0000_0010u16 }
    }

    pub fn italic() -> (r: Modifier)
        ensures
            r.spec_bits() == 0b0000_0000_0100u16,
    {
        Modifier { bits: 0b0000_0000_0100u16 }
    }

    pub fn underlined() -> (r: Modifier)
        ensures
            r.spec_bits() == 0b0000_0000_1000u16,
    {
        Modifier { bits: 0b0000_0000_1000u16 }
    }

    pub fn slow_blink() -> (r: Modifier)
        ensures
            r.spec_bits() == 0b0000_0001_0000u16,
    {
        Modifier { bits: 0b0000_0001_0000u16 }
    }

    pub fn rapid_blink() -> (r: Modifier)
        ensures
            r.spec_bits() == 0b0000_0010_0000u16,
    {
        Modifier { bits: 0b0000_0010_0000u16 }
    }

    pub fn reversed() -> (r: Modifier)
        ensures
            r.spec_bits() == 0b0000_0100_0000u16,
    {
        Modifier { bits: 0b0000_0100_0000u16 }
    }

    pub fn hidden() -> (r: Modifier)
        ensures
            r.spec_bits() == 0b0000_1000_0000u16,
    {
        Modifier { bits: 0b0000_1000_0000u16 }
    }

    pub fn crossed_out() -> (r: Modifier)
        ensures
            r.spec_bits() == 0b0001_0000_0000u16,
    {
        Modifier { bits: 0b0001_0000_0000u16 }
    }

    pub fn bits(&self) -> (r: u16)
        ensures
            r == self.spec_bits(),
    {
        self.bits
    }

    /// The set holding the named modifiers among `bits`; other bits are dropped.
    pub fn from_bits_truncate(bits: u16) -> (r: Modifier)
        ensures
            r.spec_bits() == bits & MODIFIER_MASK,
    {
        Modifier { bits: bits & MODIFIER_MASK }
    }

    pub fn empty() -> (r: Modifier)
        ensures
            r.spec_bits() == 0,
    {
        Modifier { bits: 0 }
    }

    pub fn contains(&self, other: Modifier) -> (r: bool)
        ensures
            r == (self.spec_bits() & other.spec_bits() == other.spec_bits()),
    {
        self.bits & other.bits == other.bits
    }

    pub fn union(self, other: Modifier) -> (r: Modifier)
        ensures
            r.spec_bits() == self.spec_bits() | other.spec_bits(),
    {
        Modifier { bits: self.bits | other.bits }
    }

    pub fn insert(&mut self, other: Modifier)
        ensures
            final(self).spec_bits() == old(self).spec_bits() | other.spec_bits(),
    {
        self.bits = self.bits | other.bits;
    }

    pub fn remove(&mut self, other: Modifier)
        ensures
            final(self).spec_bits() == old(self).spec_bits() & !other.spec_bits(),
    {
        self.bits = self.bits & !other.bits;
    }
}

/// A ratatui style.  `None` leaves the underlying value as it is.
#[derive(Debug, Clone, Copy, PartialEq, Eq, Structural)]
pub struct Style {
    pub fg: Option<Color>,
    pub bg: Option<Color>,
    pub underline_color: Option<Color>,
    pub add_modifier: Modifier,
    pub sub_modifier: Modifier,
}

impl Style {
    pub open spec fn spec_default() -> Style {
        Style {
            fg: None,
            bg: None,
            underline_color: None,
            add_modifier: Modifier::with_bits(0),
            sub_modifier: Modifier::with_bits(0),
        }
    }

    pub fn new() -> (r: Style)
        ensures
            r == Style::spec_default(),
    {
        Style {
            fg: None,
            bg: None,
            underline_color: None,
            add_modifier: Modifier::empty(),
            sub_modifier: Modifier::empty(),
        }
    }

    pub fn fg(self, color: Color) -> (r: Style)
        ensures
            r == (Style { fg: Some(color), ..self }),
    {
        Style { fg: Some(color), ..self }
    }

    pub fn bg(self, color: Color) -> (r: Style)
        ensures
            r == (Style { bg: Some(color), ..self }),
    {
        Style { bg: Some(color), ..self }
    }

    pub fn underline_color(self, color: Color) -> (r: Style)
        ensures
            r == (Style { underline_color: Some(color), ..self }),
    {
        Style { underline_color: Some(color), ..self }
    }

    /// Adds modifiers: they join `add_modifier` and leave `sub_modifier`.
    pub fn add_modifier(self, modifier: Modifier) -> (r: Style)
        ensures
            r.add_modifier.spec_bits() == self.add_modifier.spec_bits() | modifier.spec_bits(),
            r.sub_modifier.spec_bits() == self.sub_modifier.spec_bits() & !modifier.spec_bits(),
            r.fg == self.fg,
            r.bg == self.bg,
            r.underline_color == self.underline_color,
    {
        let mut s = self;
        s.sub_modifier.remove(modifier);
        s.add_modifier.insert(modifier);
        s
    }
}

impl Default for Style {
    fn default() -> (r: Style)
        ensures
            r == Style::spec_default(),
    {
        Style::new()
    }
}

/// A ratatui rectangle.
#[derive(Debug, Clone, Copy, PartialEq, Eq, Structural)]
pub struct Rect {
    pub x: u16,
    pub y: u16,
    pub width: u16,
    pub height: u16,
}

impl Rect {
    /// The number of cells, saturated at `u16::MAX`, as ratatui counts it.
    pub open spec fn spec_area(self) -> int {
        min_int(self.width * self.height, u16::MAX as int)
    }

    pub open spec fn spec_right(self) -> int {
        sat_add(self.x as int, self.width as int)
    }

    pub open spec fn spec_bottom(self) -> int {
        sat_add(self.y as int, self.height as int)
    }

    pub fn area(&self) -> (r: u16)
        ensures
            r == self.spec_area(),
    {
        proof {
            assert(self.width * self.height <= 65535 * 65535) by (nonlinear_arith)
                requires
                    self.width <= 65535,
                    self.height <= 65535,
            ;
        }
        let a: u32 = (self.width as u32) * (self.height as u32);
        if a > 65535 {
            65535
        } else {
            a as u16
        }
    }

    /// The rectangle shrunk by a margin on every side; the empty rectangle at
    /// the origin where it is too small for the margin.
    pub open spec fn spec_inner(self, margin: Margin) -> Rect {
        let dh = sat_add(2 * margin.horizontal, 0);
        let dv = sat_add(2 * margin.vertical, 0);
        if self.width < dh || self.height < dv {
            Rect { x: 0, y: 0, width: 0, height: 0 }
        } else {
            Rect {
                x: sat_add(self.x as int, margin.horizontal as int) as u16,
                y: sat_add(self.y as int, margin.vertical as int) as u16,
                width: sat_sub(self.width as int, dh) as u16,
                height: sat_sub(self.height as int, dv) as u16,
            }
        }
    }
}

/// Space kept free inside a rectangle: `horizontal` on the left and on the
/// right, `vertical` on the top and on the bottom.
#[derive(Debug, Clone, Copy, PartialEq, Eq, Structural)]
pub struct Margin {
    pub horizontal: u16,
    pub vertical: u16,
}

/// A ratatui buffer cell.
#[derive(Debug)]
pub struct Cell {
    pub symbol: String,
    pub fg: Color,
    pub bg: Color,
    pub underline_color: Color,
    pub modifier: Modifier,
    pub skip: bool,
}

/// What a [`Cell`] holds, with its symbol as a sequence of characters.
pub struct CellView {
    pub symbol: Seq<char>,
    pub fg: Color,
    pub bg: Color,
    pub underline_color: Color,
    pub modifier: Modifier,
    pub skip: bool,
}

impl View for Cell {
    type V = CellView;

    open spec fn view(&self) -> CellView {
        CellView {
            symbol: self.symbol@,
            fg: self.fg,
            bg: self.bg,
            underline_color: self.underline_color,
            modifier: self.modifier,
            skip: self.skip,
        }
    }
}

/// The cell holding a blank in the terminal's colours.
pub open spec fn default_cell() -> CellView {
    CellView {
        symbol: seq![' '],
        fg: Color::Reset,
        bg: Color::Reset,
        underline_color: Color::Reset,
        modifier: Modifier::with_bits(0),
        skip: false,
    }
}

/// A cell after `set_style(style)`: each colour the style holds replaces the
/// cell's, and the style's added modifiers join the cell's before its removed
/// ones leave.
pub open spec fn cell_with_style(c: CellView, style: Style) -> CellView {
    CellView {
        fg: match style.fg { Some(col) => col, None => c.fg },
        bg: match style.bg { Some(col) => col, None => c.bg },
        underline_color: match style.underline_color { Some(col) => col, None => c.underline_color },
        modifier: Modifier::with_bits(
            (c.modifier.spec_bits() | style.add_modifier.spec_bits()) & !style.sub_modifier.spec_bits(),
        ),
        ..c
    }
}

/// The style of a cell: each of its colours, and its modifiers as added ones.
pub open spec fn cell_style(c: CellView) -> Style {
    Style {
        fg: Some(c.fg),
        bg: Some(c.bg),
        underline_color: Some(c.underline_color),
        add_modifier: c.modifier,
        sub_modifier: Modifier::with_bits(0),
    }
}

impl Cell {
    pub fn new_default() -> (r: Cell)
        ensures
            r@ == default_cell(),
    {
        let symbol = String::from_str(" ");
        proof {
            reveal_strlit(" ");
            assert(symbol@ =~= seq![' ']);
        }
        let modifier = Modifier::empty();
        proof {
            Modifier::lemma_bits_roundtrip(modifier, 0);
        }
        Cell { symbol, fg: Color::Reset, bg: Color::Reset, underline_color: Color::Reset, modifier, skip: false }
    }

    pub fn symbol(&self) -> (r: &str)
        ensures
            r@ == self@.symbol,
    {
        self.symbol.as_str()
    }

    pub fn set_symbol(&mut self, symbol: &str)
        ensures
            final(self)@ == (CellView { symbol: symbol@, ..old(self)@ }),
    {
        self.symbol = String::from_str(symbol);
    }

    pub fn set_style(&mut self, style: Style)
        ensures
            final(self)@ == cell_with_style(old(self)@, style),
    {
        if let Some(c) = style.fg {
            self.fg = c;
        }
        if let Some(c) = style.bg {
            self.bg = c;
        }
        if let Some(c) = style.underline_color {
            self.underline_color = c;
        }
        self.modifier.insert(style.add_modifier);
        self.modifier.remove(style.sub_modifier);
    }

    pub fn style(&self) -> (r: Style)
        ensures
            r == cell_style(self@),
    {
        let r = Style::new().fg(self.fg).bg(self.bg).underline_color(self.underline_color).add_modifier(
            self.modifier,
        );
        proof {
            let m = self.modifier.spec_bits();
            crate::graphics::lemma_empty_bits(m);
            Modifier::lemma_bits_roundtrip(self.modifier, 0);
            Modifier::lemma_bits_roundtrip(r.add_modifier, 0);
            Modifier::lemma_bits_roundtrip(r.sub_modifier, 0);
        }
        r
    }

    /// A copy of the cell.
    pub fn duplicate(&self) -> (r: Cell)
        ensures
            r@ == self@,
    {
        Cell {
            symbol: self.symbol.clone(),
            fg: self.fg,
            bg: self.bg,
            underline_color: self.underline_color,
            modifier: self.modifier,
            skip: self.skip,
        }
    }
}

/// A ratatui buffer: an area and its cells, row by row.
pub struct Buffer {
    pub area: Rect,
    pub content: Vec<Cell>,
}

pub struct BufferView {
    pub area: Rect,
    pub content: Seq<CellView>,
}

impl View for Buffer {
    type V = BufferView;

    open spec fn view(&self) -> BufferView {
        BufferView { area: self.area, content: self.content@.map_values(|c: Cell| c@) }
    }
}

/// `n` blank cells.
pub open spec fn blank_cells(n: nat) -> Seq<CellView> {
    Seq::new(n, |i: int| default_cell())
}

/// The buffer over `area` after `resize(area)`: its cells cut to, or padded
/// with blank cells up to, the area's (saturated) size.
pub open spec fn resized(b: BufferView, area: Rect) -> BufferView {
    let len = area.spec_area() as nat;
    BufferView {
        area,
        content: if b.content.len() > len {
            b.content.take(len as int)
        } else {
            b.content + blank_cells((len - b.content.len()) as nat)
        },
    }
}

impl Buffer {
    /// A buffer of blank cells over `area`.
    pub fn empty(area: Rect) -> (r: Buffer)
        ensures
            r@ == (BufferView { area, content: blank_cells(area.spec_area() as nat) }),
    {
        let n = area.area();
        let mut content: Vec<Cell> = Vec::new();
        let mut i: u16 = 0;
        while i < n
            invariant
                i <= n,
                content.len() == i,
                content@.map_values(|c: Cell| c@) =~= blank_cells(i as nat),
            decreases n - i,
        {
            let ghost before = content@;
            content.push(Cell::new_default());
            proof {
                assert(content@ =~= before.push(content@[i as int]));
                assert(content@.map_values(|c: Cell| c@) =~= before.map_values(|c: Cell| c@).push(
                    default_cell(),
                ));
            }
            i = i + 1;
        }
        Buffer { area, content }
    }

    /// Sets the area; drops the cells past the new size, or appends blank
    /// cells up to it.
    pub fn resize(&mut self, area: Rect)
        ensures
            final(self)@ == resized(old(self)@, area),
    {
        let length = area.area() as usize;
        if self.content.len() > length {
            self.content.truncate(length);
        } else {
            while self.content.len() < length
                invariant
                    length == area.spec_area(),
                    old(self).content.len() <= self.content.len() <= length,
                    self.content@.map_values(|c: Cell| c@) =~= old(self)@.content + blank_cells(
                        (self.content.len() - old(self).content.len()) as nat,
                    ),
                decreases length - self.content.len(),
            {
                let ghost before = self.content@;
                self.content.push(Cell::new_default());
                proof {
                    let k = (self.content.len() - old(self).content.len()) as nat;
                    assert(self.content@.map_values(|c: Cell| c@) =~= before.map_values(|c: Cell| c@).push(
                        default_cell(),
                    ));
                    assert(blank_cells(k) =~= blank_cells((k - 1) as nat).push(default_cell()));
                }
            }
        }
        self.area = area;
        proof {
            let len = area.spec_area() as nat;
            if old(self).content.len() > len {
                assert(self.content@.map_values(|c: Cell| c@) =~= old(self)@.content.take(len as int));
            }
        }
    }
}

/// Which sides of a ratatui block carry a border, held as bits: top is
/// bit 0, right bit 1, bottom bit 2 and left bit 3.
#[derive(Debug, Clone, Copy, PartialEq, Eq, Structural)]
pub struct Borders {
    pub bits: u8,
}

/// The line set a ratatui block draws its border with.
#[derive(Debug, Clone, Copy, PartialEq, Eq, Structural)]
pub enum BorderType {
    Plain,
    Rounded,
    Double,
    Thick,
    QuadrantInside,
    QuadrantOutside,
}

/// Horizontal alignment of ratatui text.
#[derive(Debug, Clone, Copy, PartialEq, Eq, Structural)]
pub enum Alignment {
    Left,
    Center,
    Right,
}

/// Ratatui's wrapping of paragraph text; `trim` drops leading blanks.
#[derive(Debug, Clone, Copy, PartialEq, Eq, Structural)]
pub struct Wrap {
    pub trim: bool,
}

/// What a ratatui block widget is built from.
pub struct BlockConfig {
    pub title: Option<String>,
    pub borders: Borders,
    pub border_type: BorderType,
    pub style: Style,
}

/// A ratatui span: text in one style.
pub struct Span {
    pub content: String,
    pub style: Style,
}

impl View for Span {
    type V = (Seq<char>, Style);

    open spec fn view(&self) -> (Seq<char>, Style) {
        (self.content@, self.style)
    }
}

/// A ratatui line: spans one after the other.
pub struct Line {
    pub spans: Vec<Span>,
}

impl View for Line {
    type V = Seq<(Seq<char>, Style)>;

    open spec fn view(&self) -> Seq<(Seq<char>, Style)> {
        self.spans@.map_values(|s: Span| s@)
    }
}

/// Ratatui text: lines of spans.
pub struct Text {
    pub lines: Vec<Line>,
}

impl View for Text {
    type V = Seq<Seq<(Seq<char>, Style)>>;

    open spec fn view(&self) -> Seq<Seq<(Seq<char>, Style)>> {
        self.lines@.map_values(|l: Line| l@)
    }
}

/// What a ratatui paragraph widget is built from.
pub struct ParagraphConfig {
    pub text: Text,
    pub style: Style,
    pub scroll: (u16, u16),
    pub alignment: Alignment,
    pub wrap: Option<Wrap>,
    pub block: Option<BlockConfig>,
}

/// Whether the borders include the side with bit `side`.
pub open spec fn has_side(borders: Borders, side: u8) -> bool {
    borders.bits & side == side
}

/// The area inside a ratatui block with the given borders and a title on
/// top: a left border moves the left edge one column right, and the top
/// border or the title the top edge one row down, neither past the area's
/// far edge; each border, and the title, takes one column or row off the
/// size, saturating at zero.
pub open spec fn titled_block_inner(borders: Borders, area: Rect) -> Rect {
    let x = if has_side(borders, 8u8) { min_int(sat_add(area.x as int, 1), area.spec_right()) } else { area.x as int };
    let w1 = if has_side(borders, 8u8) { sat_sub(area.width as int, 1) } else { area.width as int };
    let y = min_int(sat_add(area.y as int, 1), area.spec_bottom());
    let h1 = sat_sub(area.height as int, 1);
    let w2 = if has_side(borders, 2u8) { sat_sub(w1, 1) } else { w1 };
    let h2 = if has_side(borders, 4u8) { sat_sub(h1, 1) } else { h1 };
    Rect { x: x as u16, y: y as u16, width: w2 as u16, height: h2 as u16 }
}

/// Calls ratatui's `Block::inner` on a block with the given borders and the
/// given title on top (the title's text does not change the result).  The
/// contract restates ratatui 0.26's code for such a block, which has no
/// padding: see [`titled_block_inner`].
#[verifier::external_body]
pub(crate) fn block_inner_titled(borders: Borders, title: &str, area: Rect) -> (r: Rect)
    ensures
        r == titled_block_inner(borders, area),
{
    let a = ratatui::layout::Rect { x: area.x, y: area.y, width: area.width, height: area.height };
    let b = ratatui::widgets::Borders::from_bits_truncate(borders.bits);
    let i = ratatui::widgets::Block::new().borders(b).title(title).inner(a);
    Rect { x: i.x, y: i.y, width: i.width, height: i.height }
}

/// Calls ratatui's `Rect::inner` with the given margin.  The contract
/// restates ratatui 0.26's code: the empty rectangle at the origin where the
/// rectangle is narrower or shorter than twice the margin, else the
/// rectangle moved in by the margin and shrunk by twice the margin, all with
/// saturating arithmetic.
#[verifier::external_body]
pub(crate) fn rect_inner(area: Rect, margin: Margin) -> (r: Rect)
    ensures
        r == area.spec_inner(margin),
{
    let a = ratatui::layout::Rect { x: area.x, y: area.y, width: area.width, height: area.height };
    let m = ratatui::layout::Margin { horizontal: margin.horizontal, vertical: margin.vertical };
    let i = a.inner(&m);
    Rect { x: i.x, y: i.y, width: i.width, height: i.height }
}

} // verus!
