//! Conversions between this crate's graphics values and ratatui's.
//!
//! Colours map one to one (this crate's `Gray` is ratatui's `DarkGray` and
//! its `LightGray` ratatui's `Gray`); modifiers map flag by flag, with
//! ratatui's underlined flag having no counterpart here; rectangles map field
//! by field.

use vstd::prelude::*;
use crate::graphics::{Color, CursorKind, Modifier, Rect, Style, MODIFIER_MASK, lemma_empty_bits};
use crate::buffer::{Cell, CellView};
use crate::widgets::{Alignment, BorderType, Borders, Wrap};
use crate::text::{Span, Spans, Text};
use crate::ratatui_types as rt;

verus! {

/// The ratatui colour that stands for `c`.
pub open spec fn color_to_ratatui(c: Color) -> rt::Color {
    match c {
        Color::Reset => rt::Color::Reset,
        Color::Black => rt::Color::Black,
        Color::Red => rt::Color::Red,
        Color::Green => rt::Color::Green,
        Color::Yellow => rt::Color::Yellow,
        Color::Blue => rt::Color::Blue,
        Color::Magenta => rt::Color::Magenta,
        Color::Cyan => rt::Color::Cyan,
        Color::Gray => rt::Color::DarkGray,
        Color::LightRed => rt::Color::LightRed,
        Color::LightGreen => rt::Color::LightGreen,
        Color::LightYellow => rt::Color::LightYellow,
        Color::LightBlue => rt::Color::LightBlue,
        Color::LightMagenta => rt::Color::LightMagenta,
        Color::LightCyan => rt::Color::LightCyan,
        Color::LightGray => rt::Color::Gray,
        Color::White => rt::Color::White,
        Color::Rgb(r, g, b) => rt::Color::Rgb(r, g, b),
        Color::Indexed(i) => rt::Color::Indexed(i),
    }
}

/// The colour of this crate that stands for the ratatui colour `c`.
pub open spec fn color_from_ratatui(c: rt::Color) -> Color {
    match c {
        rt::Color::Reset => Color::Reset,
        rt::Color::Black => Color::Black,
        rt::Color::Red => Color::Red,
        rt::Color::Green => Color::Green,
        rt::Color::Yellow => Color::Yellow,
        rt::Color::Blue => Color::Blue,
        rt::Color::Magenta => Color::Magenta,
        rt::Color::Cyan => Color::Cyan,
        rt::Color::DarkGray => Color::Gray,
        rt::Color::LightRed => Color::LightRed,
        rt::Color::LightGreen => Color::LightGreen,
        rt::Color::LightYellow => Color::LightYellow,
        rt::Color::LightBlue => Color::LightBlue,
        rt::Color::LightMagenta => Color::LightMagenta,
        rt::Color::LightCyan => Color::LightCyan,
        rt::Color::Gray => Color::LightGray,
        rt::Color::White => Color::White,
        rt::Color::Rgb(r, g, b) => Color::Rgb(r, g, b),
        rt::Color::Indexed(i) => Color::Indexed(i),
    }
}

/// Converts a colour to ratatui's.
pub fn convert_color(color: Color) -> (r: rt::Color)
    ensures
        r == color_to_ratatui(color),
{
    match color {
        Color::Reset => rt::Color::Reset,
        Color::Black => rt::Color::Black,
        Color::Red => rt::Color::Red,
        Color::Green => rt::Color::Green,
        Color::Yellow => rt::Color::Yellow,
        Color::Blue => rt::Color::Blue,
        Color::Magenta => rt::Color::Magenta,
        Color::Cyan => rt::Color::Cyan,
        Color::Gray => rt::Color::DarkGray,
        Color::LightRed => rt::Color::LightRed,
        Color::LightGreen => rt::Color::LightGreen,
        Color::LightYellow => rt::Color::LightYellow,
        Color::LightBlue => rt::Color::LightBlue,
        Color::LightMagenta => rt::Color::LightMagenta,
        Color::LightCyan => rt::Color::LightCyan,
        Color::LightGray => rt::Color::Gray,
        Color::White => rt::Color::White,
        Color::Rgb(r, g, b) => rt::Color::Rgb(r, g, b),
        Color::Indexed(i) => rt::Color::Indexed(i),
    }
}

/// Converts a ratatui colour to this crate's.
pub fn convert_color_back(color: rt::Color) -> (r: Color)
    ensures
        r == color_from_ratatui(color),
{
    match color {
        rt::Color::Reset => Color::Reset,
        rt::Color::Black => Color::Black,
        rt::Color::Red => Color::Red,
        rt::Color::Green => Color::Green,
        rt::Color::Yellow => Color::Yellow,
        rt::Color::Blue => Color::Blue,
        rt::Color::Magenta => Color::Magenta,
        rt::Color::Cyan => Color::Cyan,
        rt::Color::DarkGray => Color::Gray,
        rt::Color::LightRed => Color::LightRed,
        rt::Color::LightGreen => Color::LightGreen,
        rt::Color::LightYellow => Color::LightYellow,
        rt::Color::LightBlue => Color::LightBlue,
        rt::Color::LightMagenta => Color::LightMagenta,
        rt::Color::LightCyan => Color::LightCyan,
        rt::Color::Gray => Color::LightGray,
        rt::Color::White => Color::White,
        rt::Color::Rgb(r, g, b) => Color::Rgb(r, g, b),
        rt::Color::Indexed(i) => Color::Indexed(i),
    }
}

/// Each named colour becomes the ratatui colour of the same name, but for
/// this crate's `Gray`, which is ratatui's `DarkGray`, and its `LightGray`,
/// which is ratatui's `Gray`; RGB and indexed colours keep their numbers.
/// The way back is the same naming read the other way.
pub proof fn lemma_colors_keep_their_names(r: u8, g: u8, b: u8, i: u8)
    ensures
        color_to_ratatui(Color::Reset) == rt::Color::Reset,
        color_to_ratatui(Color::Black) == rt::Color::Black,
        color_to_ratatui(Color::Red) == rt::Color::Red,
        color_to_ratatui(Color::Green) == rt::Color::Green,
        color_to_ratatui(Color::Yellow) == rt::Color::Yellow,
        color_to_ratatui(Color::Blue) == rt::Color::Blue,
        color_to_ratatui(Color::Magenta) == rt::Color::Magenta,
        color_to_ratatui(Color::Cyan) == rt::Color::Cyan,
        color_to_ratatui(Color::Gray) == rt::Color::DarkGray,
        color_to_ratatui(Color::LightRed) == rt::Color::LightRed,
        color_to_ratatui(Color::LightGreen) == rt::Color::LightGreen,
        color_to_ratatui(Color::LightYellow) == rt::Color::LightYellow,
        color_to_ratatui(Color::LightBlue) == rt::Color::LightBlue,
        color_to_ratatui(Color::LightMagenta) == rt::Color::LightMagenta,
        color_to_ratatui(Color::LightCyan) == rt::Color::LightCyan,
        color_to_ratatui(Color::LightGray) == rt::Color::Gray,
        color_to_ratatui(Color::White) == rt::Color::White,
        color_to_ratatui(Color::Rgb(r, g, b)) == rt::Color::Rgb(r, g, b),
        color_to_ratatui(Color::Indexed(i)) == rt::Color::Indexed(i),
        color_from_ratatui(rt::Color::Reset) == Color::Reset,
        color_from_ratatui(rt::Color::Black) == Color::Black,
        color_from_ratatui(rt::Color::Red) == Color::Red,
        color_from_ratatui(rt::Color::Green) == Color::Green,
        color_from_ratatui(rt::Color::Yellow) == Color::Yellow,
        color_from_ratatui(rt::Color::Blue) == Color::Blue,
        color_from_ratatui(rt::Color::Magenta) == Color::Magenta,
        color_from_ratatui(rt::Color::Cyan) == Color::Cyan,
        color_from_ratatui(rt::Color::DarkGray) == Color::Gray,
        color_from_ratatui(rt::Color::LightRed) == Color::LightRed,
        color_from_ratatui(rt::Color::LightGreen) == Color::LightGreen,
        color_from_ratatui(rt::Color::LightYellow) == Color::LightYellow,
        color_from_ratatui(rt::Color::LightBlue) == Color::LightBlue,
        color_from_ratatui(rt::Color::LightMagenta) == Color::LightMagenta,
        color_from_ratatui(rt::Color::LightCyan) == Color::LightCyan,
        color_from_ratatui(rt::Color::Gray) == Color::LightGray,
        color_from_ratatui(rt::Color::White) == Color::White,
        color_from_ratatui(rt::Color::Rgb(r, g, b)) == Color::Rgb(r, g, b),
        color_from_ratatui(rt::Color::Indexed(i)) == Color::Indexed(i),
{
}

/// Converting a colour to ratatui's and back gives the colour again.
pub proof fn lemma_color_roundtrip(c: Color)
    ensures
        color_from_ratatui(color_to_ratatui(c)) == c,
{
}

/// Converting a ratatui colour to this crate's and back gives it again: the
/// two conversions are inverse bijections.
pub proof fn lemma_color_roundtrip_back(c: rt::Color)
    ensures
        color_to_ratatui(color_from_ratatui(c)) == c,
{
}

/// Setting, one flag after the other, each modifier flag that `b` holds
/// leaves exactly the bits of `b` that name a modifier.
proof fn lemma_flags_collected(b: u16, r0: u16, r1: u16, r2: u16, r3: u16, r4: u16, r5: u16, r6: u16, r7: u16, r8: u16)
    by (bit_vector)
    requires
        r0 == 0u16,
        b & 1u16 == 1u16 ==> r1 == r0 | 1u16,
        b & 1u16 != 1u16 ==> r1 == r0,
        b & 2u16 == 2u16 ==> r2 == r1 | 2u16,
        b & 2u16 != 2u16 ==> r2 == r1,
        b & 4u16 == 4u16 ==> r3 == r2 | 4u16,
        b & 4u16 != 4u16 ==> r3 == r2,
        b & 16u16 == 16u16 ==> r4 == r3 | 16u16,
        b & 16u16 != 16u16 ==> r4 == r3,
        b & 32u16 == 32u16 ==> r5 == r4 | 32u16,
        b & 32u16 != 32u16 ==> r5 == r4,
        b & 64u16 == 64u16 ==> r6 == r5 | 64u16,
        b & 64u16 != 64u16 ==> r6 == r5,
        b & 128u16 == 128u16 ==> r7 == r6 | 128u16,
        b & 128u16 != 128u16 ==> r7 == r6,
        b & 256u16 == 256u16 ==> r8 == r7 | 256u16,
        b & 256u16 != 256u16 ==> r8 == r7,
    ensures
        r8 == b & 0b0001_1111_0111u16,
{
}

/// Converts modifiers to ratatui's: each of bold, dim, italic, slow blink,
/// rapid blink, reversed, hidden and crossed out is set in the result exactly
/// when it is set in `modifier`; nothing else is set.
pub fn convert_modifier(modifier: Modifier) -> (r: rt::Modifier)
    ensures
        r.spec_bits() == modifier.spec_bits() & MODIFIER_MASK,
{
    let mut result = rt::Modifier::empty();
    let ghost r0 = result.spec_bits();
    if modifier.contains(Modifier::bold()) {
        result.insert(rt::Modifier::bold());
    }
    let ghost r1 = result.spec_bits();
    if modifier.contains(Modifier::dim()) {
        result.insert(rt::Modifier::dim());
    }
    let ghost r2 = result.spec_bits();
    if modifier.contains(Modifier::italic()) {
        result.insert(rt::Modifier::italic());
    }
    let ghost r3 = result.spec_bits();
    if modifier.contains(Modifier::slow_blink()) {
        result.insert(rt::Modifier::slow_blink());
    }
    let ghost r4 = result.spec_bits();
    if modifier.contains(Modifier::rapid_blink()) {
        result.insert(rt::Modifier::rapid_blink());
    }
    let ghost r5 = result.spec_bits();
    if modifier.contains(Modifier::reversed()) {
        result.insert(rt::Modifier::reversed());
    }
    let ghost r6 = result.spec_bits();
    if modifier.contains(Modifier::hidden()) {
        result.insert(rt::Modifier::hidden());
    }
    let ghost r7 = result.spec_bits();
    if modifier.contains(Modifier::crossed_out()) {
        result.insert(rt::Modifier::crossed_out());
    }
    let ghost r8 = result.spec_bits();
    proof {
        lemma_flags_collected(modifier.spec_bits(), r0, r1, r2, r3, r4, r5, r6, r7, r8);
    }
    result
}

/// Converts ratatui modifiers to this crate's: each of bold, dim, italic,
/// slow blink, rapid blink, reversed, hidden and crossed out is set in the
/// result exactly when it is set in `modifier`; underlined, which this crate
/// has no modifier for, and every other bit are dropped.
pub fn convert_modifier_back(modifier: rt::Modifier) -> (r: Modifier)
    ensures
        r.spec_bits() == modifier.spec_bits() & MODIFIER_MASK,
{
    let mut result = Modifier::empty();
    let ghost r0 = result.spec_bits();
    if modifier.contains(rt::Modifier::bold()) {
        result.insert(Modifier::bold());
    }
    let ghost r1 = result.spec_bits();
    if modifier.contains(rt::Modifier::dim()) {
        result.insert(Modifier::dim());
    }
    let ghost r2 = result.spec_bits();
    if modifier.contains(rt::Modifier::italic()) {
        result.insert(Modifier::italic());
    }
    let ghost r3 = result.spec_bits();
    if modifier.contains(rt::Modifier::slow_blink()) {
        result.insert(Modifier::slow_blink());
    }
    let ghost r4 = result.spec_bits();
    if modifier.contains(rt::Modifier::rapid_blink()) {
        result.insert(Modifier::rapid_blink());
    }
    let ghost r5 = result.spec_bits();
    if modifier.contains(rt::Modifier::reversed()) {
        result.insert(Modifier::reversed());
    }
    let ghost r6 = result.spec_bits();
    if modifier.contains(rt::Modifier::hidden()) {
        result.insert(Modifier::hidden());
    }
    let ghost r7 = result.spec_bits();
    if modifier.contains(rt::Modifier::crossed_out()) {
        result.insert(Modifier::crossed_out());
    }
    let ghost r8 = result.spec_bits();
    proof {
        lemma_flags_collected(modifier.spec_bits(), r0, r1, r2, r3, r4, r5, r6, r7, r8);
    }
    result
}

/// The same flags, whichever way they are converted, once the bits that
/// name no modifier of this crate are dropped.
pub proof fn lemma_modifier_roundtrip(b: u16)
    by (bit_vector)
    ensures
        (b & 0b0001_1111_0111u16) & 0b0001_1111_0111u16 == b & 0b0001_1111_0111u16,
        b & !0b0001_1111_0111u16 == 0u16 ==> b & 0b0001_1111_0111u16 == b,
{
}

/// Converting modifiers to ratatui's and back keeps every modifier of this
/// crate; a set made only of such modifiers comes back unchanged.
pub proof fn lemma_modifier_conversion_roundtrip(m: Modifier)
    ensures
        (m.spec_bits() & MODIFIER_MASK) & MODIFIER_MASK == m.spec_bits() & MODIFIER_MASK,
        m.spec_bits() & !MODIFIER_MASK == 0 ==> Modifier::with_bits(
            (m.spec_bits() & MODIFIER_MASK) & MODIFIER_MASK,
        ) == m,
{
    lemma_modifier_roundtrip(m.spec_bits());
    Modifier::lemma_bits_roundtrip(m, 0);
}

/// The ratatui style that stands for `s`: its colours converted, no underline
/// colour, its added modifiers converted, and nothing removed.
pub open spec fn style_to_ratatui(s: Style) -> rt::Style {
    rt::Style {
        fg: match s.fg { Some(c) => Some(color_to_ratatui(c)), None => None },
        bg: match s.bg { Some(c) => Some(color_to_ratatui(c)), None => None },
        underline_color: None,
        add_modifier: rt::Modifier::with_bits(s.add_modifier.spec_bits() & MODIFIER_MASK),
        sub_modifier: rt::Modifier::with_bits(0),
    }
}

/// Converts a style to ratatui's.  The underline colour and style and the
/// removed modifiers are not carried over.
pub fn convert_style(style: Style) -> (r: rt::Style)
    ensures
        r == style_to_ratatui(style),
{
    let mut ratatui_style = rt::Style::new();
    if let Some(fg) = style.fg {
        ratatui_style = ratatui_style.fg(convert_color(fg));
    }
    if let Some(bg) = style.bg {
        ratatui_style = ratatui_style.bg(convert_color(bg));
    }
    let m = convert_modifier(style.add_modifier);
    ratatui_style = ratatui_style.add_modifier(m);
    proof {
        lemma_empty_bits(m.spec_bits());
        rt::Modifier::lemma_bits_roundtrip(ratatui_style.add_modifier, m.spec_bits());
        rt::Modifier::lemma_bits_roundtrip(ratatui_style.sub_modifier, 0);
    }
    ratatui_style
}

pub open spec fn rect_to_ratatui(r: Rect) -> rt::Rect {
    rt::Rect { x: r.x, y: r.y, width: r.width, height: r.height }
}

pub open spec fn rect_from_ratatui(r: rt::Rect) -> Rect {
    Rect { x: r.x, y: r.y, width: r.width, height: r.height }
}

/// Converts a rectangle to ratatui's, field by field.
pub fn convert_rect(rect: Rect) -> (r: rt::Rect)
    ensures
        r == rect_to_ratatui(rect),
{
    rt::Rect { x: rect.x, y: rect.y, width: rect.width, height: rect.height }
}

/// Converts a ratatui rectangle to this crate's, field by field.
pub fn convert_rect_back(rect: rt::Rect) -> (r: Rect)
    ensures
        r == rect_from_ratatui(rect),
{
    Rect { x: rect.x, y: rect.y, width: rect.width, height: rect.height }
}

/// Converting a rectangle either way and back gives it again.
pub proof fn lemma_rect_roundtrip(r: Rect, q: rt::Rect)
    ensures
        rect_from_ratatui(rect_to_ratatui(r)) == r,
        rect_to_ratatui(rect_from_ratatui(q)) == q,
{
}

/// The cursor shape is handed on unchanged: the backend deals with it.
pub fn convert_cursor_kind(kind: CursorKind) -> (r: CursorKind)
    ensures
        r == kind,
{
    kind
}

/// The ratatui cell that stands for `c`: its symbol, its colours converted,
/// no underline colour, its modifiers converted, and not skipped.
pub open spec fn cell_to_ratatui(c: CellView) -> rt::CellView {
    rt::CellView {
        symbol: c.symbol,
        fg: color_to_ratatui(c.fg),
        bg: color_to_ratatui(c.bg),
        underline_color: rt::Color::Reset,
        modifier: rt::Modifier::with_bits(c.modifier.spec_bits() & MODIFIER_MASK),
        skip: false,
    }
}

/// The cell of this crate that stands for the ratatui cell `c`: its symbol,
/// its colours converted, its modifiers converted, and no underline.
pub open spec fn cell_from_ratatui(c: rt::CellView) -> CellView {
    CellView {
        symbol: c.symbol,
        fg: color_from_ratatui(c.fg),
        bg: color_from_ratatui(c.bg),
        underline_color: Color::Reset,
        underline_style: crate::graphics::UnderlineStyle::Reset,
        modifier: Modifier::with_bits(c.modifier.spec_bits() & MODIFIER_MASK),
    }
}

/// Converts a cell to ratatui's: a blank ratatui cell given the cell's symbol
/// and then the converted style of the cell.
pub fn convert_cell(cell: &Cell) -> (r: rt::Cell)
    ensures
        r@ == cell_to_ratatui(cell@),
{
    let style = convert_style(cell.style());
    let mut ratatui_cell = rt::Cell::new_default();
    ratatui_cell.set_symbol(cell.symbol.as_str());
    ratatui_cell.set_style(style);
    proof {
        let b = cell.modifier.spec_bits() & MODIFIER_MASK;
        lemma_empty_bits(b);
        rt::Modifier::lemma_bits_roundtrip(ratatui_cell.modifier, 0);
        rt::Modifier::lemma_bits_roundtrip(ratatui_cell.modifier, b);
    }
    ratatui_cell
}

/// Converts a ratatui cell to this crate's, reading the colours and the
/// modifiers from the cell's style; the underline colour and style are reset.
pub fn convert_cell_back(cell: &rt::Cell) -> (r: Cell)
    ensures
        r@ == cell_from_ratatui(cell@),
{
    let style = cell.style();
    let fg = match style.fg {
        Some(c) => convert_color_back(c),
        None => Color::Reset,
    };
    let bg = match style.bg {
        Some(c) => convert_color_back(c),
        None => Color::Reset,
    };
    let modifier = convert_modifier_back(style.add_modifier);
    proof {
        Modifier::lemma_bits_roundtrip(modifier, 0);
    }
    Cell {
        symbol: String::from_str(cell.symbol()),
        fg,
        bg,
        modifier,
        underline_color: Color::Reset,
        underline_style: crate::graphics::UnderlineStyle::Reset,
    }
}

/// Converting a cell to ratatui's and back keeps its symbol, its colours and
/// its modifiers (every modifier of this crate); the underline colour and
/// style come back reset.
pub proof fn lemma_cell_roundtrip(c: CellView)
    ensures
        cell_from_ratatui(cell_to_ratatui(c)).symbol == c.symbol,
        cell_from_ratatui(cell_to_ratatui(c)).fg == c.fg,
        cell_from_ratatui(cell_to_ratatui(c)).bg == c.bg,
        cell_from_ratatui(cell_to_ratatui(c)).modifier.spec_bits() == c.modifier.spec_bits() & MODIFIER_MASK,
        c.modifier.spec_bits() & !MODIFIER_MASK == 0 ==> cell_from_ratatui(cell_to_ratatui(c)).modifier
            == c.modifier,
        cell_from_ratatui(cell_to_ratatui(c)).underline_color == Color::Reset,
        cell_from_ratatui(cell_to_ratatui(c)).underline_style == crate::graphics::UnderlineStyle::Reset,
{
    lemma_color_roundtrip(c.fg);
    lemma_color_roundtrip(c.bg);
    lemma_modifier_conversion_roundtrip(c.modifier);
    rt::Modifier::lemma_bits_roundtrip(rt::Modifier::with_bits(0), c.modifier.spec_bits() & MODIFIER_MASK);
    Modifier::lemma_bits_roundtrip(c.modifier, (c.modifier.spec_bits() & MODIFIER_MASK) & MODIFIER_MASK);
}

/// Converting a ratatui cell to this crate's and back keeps its symbol, its
/// colours and its modifiers other than underlined; the underline colour
/// comes back reset and the cell is no longer skipped.
pub proof fn lemma_cell_roundtrip_back(c: rt::CellView)
    ensures
        cell_to_ratatui(cell_from_ratatui(c)) == (rt::CellView {
            underline_color: rt::Color::Reset,
            modifier: rt::Modifier::with_bits(c.modifier.spec_bits() & MODIFIER_MASK),
            skip: false,
            ..c
        }),
{
    lemma_color_roundtrip_back(c.fg);
    lemma_color_roundtrip_back(c.bg);
    lemma_modifier_roundtrip(c.modifier.spec_bits());
    Modifier::lemma_bits_roundtrip(Modifier::with_bits(0), c.modifier.spec_bits() & MODIFIER_MASK);
}

/// Converts borders to ratatui's: the same sides.
pub fn convert_borders(borders: Borders) -> (r: rt::Borders)
    ensures
        r.bits == borders.spec_bits(),
{
    rt::Borders { bits: borders.bits() }
}

pub open spec fn border_type_to_ratatui(t: BorderType) -> rt::BorderType {
    match t {
        BorderType::Plain => rt::BorderType::Plain,
        BorderType::Rounded => rt::BorderType::Rounded,
        BorderType::Double => rt::BorderType::Double,
        BorderType::Thick => rt::BorderType::Thick,
    }
}

/// Converts a border type to ratatui's of the same name.
pub fn convert_border_type(border_type: BorderType) -> (r: rt::BorderType)
    ensures
        r == border_type_to_ratatui(border_type),
{
    match border_type {
        BorderType::Plain => rt::BorderType::Plain,
        BorderType::Rounded => rt::BorderType::Rounded,
        BorderType::Double => rt::BorderType::Double,
        BorderType::Thick => rt::BorderType::Thick,
    }
}

/// Converts a wrapping setting to ratatui's: the same trimming.
pub fn convert_wrap(wrap: Wrap) -> (r: rt::Wrap)
    ensures
        r.trim == wrap.trim,
{
    rt::Wrap { trim: wrap.trim }
}

pub open spec fn alignment_to_ratatui(a: Alignment) -> rt::Alignment {
    match a {
        Alignment::Left => rt::Alignment::Left,
        Alignment::Center => rt::Alignment::Center,
        Alignment::Right => rt::Alignment::Right,
    }
}

/// Converts an alignment to ratatui's of the same name.
pub fn convert_alignment(alignment: Alignment) -> (r: rt::Alignment)
    ensures
        r == alignment_to_ratatui(alignment),
{
    match alignment {
        Alignment::Left => rt::Alignment::Left,
        Alignment::Center => rt::Alignment::Center,
        Alignment::Right => rt::Alignment::Right,
    }
}

/// The ratatui text that stands for `t`: the same lines of spans, each with
/// the same content and its style converted.
pub open spec fn text_to_ratatui(t: Seq<Seq<(Seq<char>, Style)>>) -> Seq<Seq<(Seq<char>, rt::Style)>> {
    t.map_values(
        |l: Seq<(Seq<char>, Style)>| l.map_values(|sp: (Seq<char>, Style)| (sp.0, style_to_ratatui(sp.1))),
    )
}

/// Converts styled text to ratatui's, span by span.
pub fn convert_text(text: &Text) -> (r: rt::Text)
    ensures
        r@ == text_to_ratatui(text@),
{
    let n = text.lines.len();
    let mut lines: Vec<rt::Line> = Vec::new();
    let mut i: usize = 0;
    while i < n
        invariant
            n == text.lines@.len(),
            i <= n,
            lines@.map_values(|l: rt::Line| l@) =~= text_to_ratatui(text@).take(i as int),
        decreases n - i,
    {
        let line: &Spans = &text.lines[i];
        let m = line.0.len();
        let mut spans: Vec<rt::Span> = Vec::new();
        let mut j: usize = 0;
        while j < m
            invariant
                n == text.lines@.len(),
                i < n,
                line == text.lines@[i as int],
                m == line.0@.len(),
                j <= m,
                spans@.map_values(|s: rt::Span| s@) =~= text_to_ratatui(text@)[i as int].take(j as int),
            decreases m - j,
        {
            let sp: &Span = &line.0[j];
            let ghost b = spans@;
            spans.push(rt::Span { content: sp.content.clone(), style: convert_style(sp.style) });
            proof {
                assert(spans@.map_values(|s: rt::Span| s@) =~= b.map_values(|s: rt::Span| s@).push(
                    text_to_ratatui(text@)[i as int][j as int],
                ));
            }
            j = j + 1;
        }
        proof {
            assert(text@[i as int] == line@);
            assert(text_to_ratatui(text@)[i as int].take(m as int) =~= text_to_ratatui(text@)[i as int]);
        }
        let ghost b = lines@;
        lines.push(rt::Line { spans });
        proof {
            assert(lines@.map_values(|l: rt::Line| l@) =~= b.map_values(|l: rt::Line| l@).push(
                text_to_ratatui(text@)[i as int],
            ));
        }
        i = i + 1;
    }
    proof {
        assert(text_to_ratatui(text@).take(n as int) =~= text_to_ratatui(text@));
    }
    rt::Text { lines }
}

} // verus!
