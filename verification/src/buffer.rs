//! Cells and the buffer of cells that a frame is drawn into.

use vstd::prelude::*;
use crate::graphics::{Color, Modifier, Rect, Style, UnderlineStyle, max_int, min_int, sat_add, sat_sub};
use crate::text::{display_width, grapheme_clusters, graphemes, width as text_width};

verus! {

/// One terminal cell: the text drawn in it and how it is drawn.
#[derive(Debug, PartialEq, Eq)]
pub struct Cell {
    pub symbol: String,
    pub fg: Color,
    pub bg: Color,
    pub underline_color: Color,
    pub underline_style: UnderlineStyle,
    pub modifier: Modifier,
}

/// What a [`Cell`] holds, with its symbol as a sequence of characters.
pub struct CellView {
    pub symbol: Seq<char>,
    pub fg: Color,
    pub bg: Color,
    pub underline_color: Color,
    pub underline_style: UnderlineStyle,
    pub modifier: Modifier,
}

impl View for Cell {
    type V = CellView;

    open spec fn view(&self) -> CellView {
        CellView {
            symbol: self.symbol@,
            fg: self.fg,
            bg: self.bg,
            underline_color: self.underline_color,
            underline_style: self.underline_style,
            modifier: self.modifier,
        }
    }
}

/// Calls `char::to_string`: the string of the one character `ch`.
#[verifier::external_body]
fn char_string(ch: char) -> (r: String)
    ensures
        r@ == seq![ch],
{
    ch.to_string()
}

/// A blank cell in the terminal's colours, with no modifier.
pub open spec fn blank_cell() -> CellView {
    CellView {
        symbol: seq![' '],
        fg: Color::Reset,
        bg: Color::Reset,
        underline_color: Color::Reset,
        underline_style: UnderlineStyle::Reset,
        modifier: Modifier::with_bits(0),
    }
}

/// A cell after `set_style(style)`: every colour and underline style that the
/// style holds replaces the cell's; the style's added modifiers join the
/// cell's, then its removed modifiers leave.
pub open spec fn styled_cell(c: CellView, style: Style) -> CellView {
    CellView {
        fg: match style.fg { Some(col) => col, None => c.fg },
        bg: match style.bg { Some(col) => col, None => c.bg },
        underline_color: match style.underline_color { Some(col) => col, None => c.underline_color },
        underline_style: match style.underline_style { Some(u) => u, None => c.underline_style },
        modifier: Modifier::with_bits(
            (c.modifier.spec_bits() | style.add_modifier.spec_bits()) & !style.sub_modifier.spec_bits(),
        ),
        ..c
    }
}

/// The style that draws as the cell does: every colour and the underline
/// style set, and the cell's modifiers added.
pub open spec fn style_of(c: CellView) -> Style {
    Style {
        fg: Some(c.fg),
        bg: Some(c.bg),
        underline_color: Some(c.underline_color),
        underline_style: Some(c.underline_style),
        add_modifier: c.modifier,
        sub_modifier: Modifier::with_bits(0),
    }
}

impl Cell {
    pub fn blank() -> (r: Cell)
        ensures
            r@ == blank_cell(),
    {
        let symbol = String::from_str(" ");
        proof {
            reveal_strlit(" ");
            assert(symbol@ =~= seq![' ']);
        }
        let modifier = Modifier::empty();
        proof {
            Modifier::lemma_bits_roundtrip(modifier, 0);
        }
        Cell {
            symbol,
            fg: Color::Reset,
            bg: Color::Reset,
            underline_color: Color::Reset,
            underline_style: UnderlineStyle::Reset,
            modifier,
        }
    }

    /// Sets the symbol; returns the cell, for further changes.
    pub fn set_symbol(&mut self, symbol: &str) -> (r: &mut Cell)
        ensures
            (*r)@ == (CellView { symbol: symbol@, ..old(self)@ }),
            *final(self) == *final(r),
    {
        self.symbol = String::from_str(symbol);
        self
    }

    /// Sets the symbol to the one character `ch`; returns the cell.
    pub fn set_char(&mut self, ch: char) -> (r: &mut Cell)
        ensures
            (*r)@ == (CellView { symbol: seq![ch], ..old(self)@ }),
            *final(self) == *final(r),
    {
        self.symbol = char_string(ch);
        self
    }

    /// Sets the foreground colour; returns the cell.
    pub fn set_fg(&mut self, color: Color) -> (r: &mut Cell)
        ensures
            (*r)@ == (CellView { fg: color, ..old(self)@ }),
            *final(self) == *final(r),
    {
        self.fg = color;
        self
    }

    /// Sets the background colour; returns the cell.
    pub fn set_bg(&mut self, color: Color) -> (r: &mut Cell)
        ensures
            (*r)@ == (CellView { bg: color, ..old(self)@ }),
            *final(self) == *final(r),
    {
        self.bg = color;
        self
    }

    /// Applies `style` over the cell: the colours and underline it sets
    /// replace the cell's, its added modifiers are put in and its removed
    /// ones taken out.  Returns the cell.
    pub fn set_style(&mut self, style: Style) -> (r: &mut Cell)
        ensures
            (*r)@ == styled_cell(old(self)@, style),
            *final(self) == *final(r),
    {
        if let Some(c) = style.fg {
            self.fg = c;
        }
        if let Some(c) = style.bg {
            self.bg = c;
        }
        if let Some(c) = style.underline_color {
            self.underline_color = c;
        }
        if let Some(u) = style.underline_style {
            self.underline_style = u;
        }
        self.modifier.insert(style.add_modifier);
        self.modifier.remove(style.sub_modifier);
        proof {
            Modifier::lemma_bits_roundtrip(self.modifier, 0);
        }
        self
    }

    pub fn style(&self) -> (r: Style)
        ensures
            r == style_of(self@),
    {
        let r = Style::new().fg(self.fg).bg(self.bg).underline_color(self.underline_color).underline_style(
            self.underline_style,
        ).add_modifier(self.modifier);
        proof {
            let m = self.modifier.spec_bits();
            crate::graphics::lemma_empty_bits(m);
            Modifier::lemma_bits_roundtrip(self.modifier, 0);
            Modifier::lemma_bits_roundtrip(r.add_modifier, 0);
            Modifier::lemma_bits_roundtrip(r.sub_modifier, 0);
        }
        r
    }

    /// Makes the cell blank again.
    pub fn reset(&mut self)
        ensures
            final(self)@ == blank_cell(),
    {
        *self = Cell::blank();
    }

    /// A copy of the cell.
    pub fn duplicate(&self) -> (r: Cell)
        ensures
            r@ == self@,
    {
        Cell {
            symbol: self.symbol.clone(),
            fg: self.fg,
            bg: self.bg,
            underline_color: self.underline_color,
            underline_style: self.underline_style,
            modifier: self.modifier,
        }
    }
}

impl Clone for Cell {
    fn clone(&self) -> (r: Cell)
        ensures
            r@ == self@,
    {
        self.duplicate()
    }
}

impl Cell {
    /// Whether the two cells hold the same symbol, colours, underline and
    /// modifiers.
    pub fn same_as(&self, other: &Cell) -> (r: bool)
        ensures
            r == (self@ == other@),
    {
        self.symbol == other.symbol && self.fg == other.fg && self.bg == other.bg && self.underline_color
            == other.underline_color && self.underline_style == other.underline_style && self.modifier
            == other.modifier
    }
}

impl Default for Cell {
    fn default() -> (r: Cell)
        ensures
            r@ == blank_cell(),
    {
        Cell::blank()
    }
}

/// A rectangle of cells, held row by row.
pub struct Buffer {
    area: Rect,
    content: Vec<Cell>,
}

pub struct BufferView {
    pub area: Rect,
    pub content: Seq<CellView>,
}

/// Whether `(x, y)` lies inside `area`.
pub open spec fn in_area(area: Rect, x: int, y: int) -> bool {
    area.x <= x < area.x + area.width && area.y <= y < area.y + area.height
}

/// Where the cell at `(x, y)` of `area` is held, counting row by row.
pub open spec fn index_in(area: Rect, x: int, y: int) -> int {
    (y - area.y) * area.width + (x - area.x)
}

impl View for Buffer {
    type V = BufferView;

    closed spec fn view(&self) -> BufferView {
        BufferView { area: self.area, content: self.content@.map_values(|c: Cell| c@) }
    }
}

impl Buffer {
    /// Every cell of the area is held.
    #[verifier::type_invariant]
    closed spec fn inv(self) -> bool {
        self.content.len() == self.area.spec_area()
    }

    /// A buffer of blank cells over `area`.
    pub fn empty(area: Rect) -> (r: Buffer)
        ensures
            r@.area == area,
            r@.content == Seq::new(area.spec_area(), |i: int| blank_cell()),
    {
        let n = area.area();
        let mut content: Vec<Cell> = Vec::new();
        let mut i: usize = 0;
        while i < n
            invariant
                i <= n,
                n == area.spec_area(),
                content.len() == i,
                content@.map_values(|c: Cell| c@) =~= Seq::new(i as nat, |k: int| blank_cell()),
            decreases n - i,
        {
            let ghost before = content@;
            content.push(Cell::blank());
            proof {
                assert(content@.map_values(|c: Cell| c@) =~= before.map_values(|c: Cell| c@).push(
                    blank_cell(),
                ));
            }
            i = i + 1;
        }
        Buffer { area, content }
    }

    /// The buffer's area; every cell of it is held.
    pub fn area(&self) -> (r: Rect)
        ensures
            r == self@.area,
            self@.content.len() == self@.area.spec_area(),
    {
        proof {
            use_type_invariant(self);
        }
        self.area
    }

    pub fn content(&self) -> (r: &[Cell])
        ensures
            r@.map_values(|c: Cell| c@) == self@.content,
    {
        self.content.as_slice()
    }

    pub fn in_bounds(&self, x: u16, y: u16) -> (r: bool)
        ensures
            r == in_area(self@.area, x as int, y as int),
    {
        x >= self.area.x && (x as u32) < (self.area.x as u32) + (self.area.width as u32) && y
            >= self.area.y && (y as u32) < (self.area.y as u32) + (self.area.height as u32)
    }

    /// Where the cell at `(x, y)` is held.
    pub fn index_of(&self, x: u16, y: u16) -> (r: usize)
        requires
            in_area(self@.area, x as int, y as int),
        ensures
            r == index_in(self@.area, x as int, y as int),
            r < self@.content.len(),
        no_unwind
    {
        proof {
            use_type_invariant(self);
            lemma_index_in_bounds(self.area, x as int, y as int);
        }
        ((y - self.area.y) as usize) * (self.area.width as usize) + ((x - self.area.x) as usize)
    }

    /// The cell at `(x, y)`; `None` outside the area.
    pub fn get(&self, x: u16, y: u16) -> (r: Option<&Cell>)
        ensures
            match r {
                Some(c) => in_area(self@.area, x as int, y as int) && c@ == self@.content[index_in(
                    self@.area,
                    x as int,
                    y as int,
                )],
                None => !in_area(self@.area, x as int, y as int),
            },
    {
        if self.in_bounds(x, y) {
            let i = self.index_of(x, y);
            Some(&self.content[i])
        } else {
            None
        }
    }

    /// The cell at `(x, y)`, to change in place; `None` outside the area.
    pub fn get_mut(&mut self, x: u16, y: u16) -> (r: Option<&mut Cell>)
        ensures
            match r {
                Some(c) => {
                    &&& in_area(old(self)@.area, x as int, y as int)
                    &&& (*c)@ == old(self)@.content[index_in(old(self)@.area, x as int, y as int)]
                    &&& final(self)@ == (BufferView {
                        content: old(self)@.content.update(
                            index_in(old(self)@.area, x as int, y as int),
                            (*final(c))@,
                        ),
                        ..old(self)@
                    })
                },
                None => !in_area(old(self)@.area, x as int, y as int) && final(self)@ == old(self)@,
            },
    {
        proof {
            use_type_invariant(&*self);
        }
        if self.in_bounds(x, y) {
            let i = self.index_of(x, y);
            proof {
                lemma_cells_update(self.content@, i as int);
            }
            Some(&mut self.content[i])
        } else {
            None
        }
    }

    /// Puts `cell` at `(x, y)`.
    pub fn set(&mut self, x: u16, y: u16, cell: Cell)
        requires
            in_area(old(self)@.area, x as int, y as int),
        ensures
            final(self)@.area == old(self)@.area,
            final(self)@.content.len() == old(self)@.content.len(),
            index_in(old(self)@.area, x as int, y as int) < old(self)@.content.len(),
            final(self)@.content == old(self)@.content.update(
                index_in(old(self)@.area, x as int, y as int),
                cell@,
            ),
        no_unwind
    {
        proof {
            use_type_invariant(&*self);
        }
        let i = self.index_of(x, y);
        let ghost before = self.content@;
        self.content[i] = cell;
        proof {
            assert(self.content@.map_values(|c: Cell| c@) =~= before.map_values(|c: Cell| c@).update(
                i as int,
                cell@,
            ));
        }
    }

    /// Makes every cell blank.
    pub fn reset(&mut self)
        ensures
            final(self)@.area == old(self)@.area,
            final(self)@.content == Seq::new(old(self)@.content.len(), |i: int| blank_cell()),
    {
        proof {
            use_type_invariant(&*self);
        }
        let n = self.content.len();
        let mut fresh: Vec<Cell> = Vec::new();
        let mut i: usize = 0;
        while i < n
            invariant
                i <= n,
                fresh.len() == i,
                fresh@.map_values(|c: Cell| c@) =~= Seq::new(i as nat, |k: int| blank_cell()),
            decreases n - i,
        {
            let ghost before = fresh@;
            fresh.push(Cell::blank());
            proof {
                assert(fresh@.map_values(|c: Cell| c@) =~= before.map_values(|c: Cell| c@).push(
                    blank_cell(),
                ));
            }
            i = i + 1;
        }
        self.content = fresh;
    }
}

/// The cells of a buffer resized to `len` cells: cut to that many, or padded
/// with blank cells.
pub open spec fn resized_content(content: Seq<CellView>, len: nat) -> Seq<CellView> {
    if content.len() > len {
        content.take(len as int)
    } else {
        content + Seq::new((len - content.len()) as nat, |i: int| blank_cell())
    }
}

impl Buffer {
    /// Sets the area; drops the cells past the new size, or appends blank
    /// cells up to it.
    pub fn resize(&mut self, area: Rect)
        ensures
            final(self)@.area == area,
            final(self)@.content == resized_content(old(self)@.content, area.spec_area()),
    {
        let length = area.area();
        let n = self.content.len();
        let mut fresh: Vec<Cell> = Vec::new();
        let mut i: usize = 0;
        while i < length
            invariant
                i <= length,
                length == area.spec_area(),
                n == self.content.len(),
                n == old(self)@.content.len(),
                self.content@ == old(self).content@,
                fresh.len() == i,
                forall|k: int|
                    0 <= k < i ==> #[trigger] fresh@[k]@ == resized_content(
                        old(self)@.content,
                        length as nat,
                    )[k],
            decreases length - i,
        {
            if i < n {
                fresh.push(self.content[i].duplicate());
            } else {
                fresh.push(Cell::blank());
            }
            i = i + 1;
        }
        proof {
            assert(fresh@.map_values(|c: Cell| c@) =~= resized_content(old(self)@.content, length as nat));
        }
        *self = Buffer { area, content: fresh };
    }
}

/// The column of the cell held at `i`.
pub open spec fn position_x(area: Rect, i: int) -> int {
    area.x + i % (area.width as int)
}

/// The row of the cell held at `i`.
pub open spec fn position_y(area: Rect, i: int) -> int {
    area.y + i / (area.width as int)
}

/// Positions and places in the content name each other: the cell at a
/// position inside the area is held at a place whose position is that one.
pub proof fn lemma_position_of_index(area: Rect, x: int, y: int)
    requires
        in_area(area, x, y),
    ensures
        position_x(area, index_in(area, x, y)) == x,
        position_y(area, index_in(area, x, y)) == y,
{
    vstd::arithmetic::div_mod::lemma_fundamental_div_mod_converse(
        index_in(area, x, y),
        area.width as int,
        y - area.y,
        x - area.x,
    );
}

/// A cell put at one position of the area is read back at that position,
/// and every other position of the area reads as before.
pub proof fn lemma_write_then_read(b: BufferView, x: int, y: int, c: CellView, x2: int, y2: int)
    requires
        b.content.len() == b.area.spec_area(),
        in_area(b.area, x, y),
        in_area(b.area, x2, y2),
    ensures
        b.content.update(index_in(b.area, x, y), c)[index_in(b.area, x2, y2)] == (if x == x2 && y == y2 {
            c
        } else {
            b.content[index_in(b.area, x2, y2)]
        }),
{
    lemma_position_of_index(b.area, x, y);
    lemma_position_of_index(b.area, x2, y2);
    lemma_index_in_bounds(b.area, x, y);
    lemma_index_in_bounds(b.area, x2, y2);
}

/// Every place in the content holds the cell of a position inside the area.
pub proof fn lemma_index_of_position(area: Rect, i: int)
    requires
        0 <= i < area.spec_area(),
    ensures
        in_area(area, position_x(area, i), position_y(area, i)),
        index_in(area, position_x(area, i), position_y(area, i)) == i,
{
    let w = area.width as int;
    let h = area.height as int;
    assert(w > 0) by (nonlinear_arith)
        requires
            0 <= i < w * h,
            0 <= w,
            0 <= h,
    ;
    vstd::arithmetic::div_mod::lemma_fundamental_div_mod(i, w);
    assert(0 <= i / w < h) by (nonlinear_arith)
        requires
            0 <= i < w * h,
            0 < w,
    ;
    assert(i / w * w == w * (i / w)) by (nonlinear_arith);
}

/// Whether `(x, y)` lies in `area`, whose right and bottom edges saturate at
/// `u16::MAX`.
pub open spec fn in_clipped(area: Rect, x: int, y: int) -> bool {
    area.x <= x < area.spec_right() && area.y <= y < area.spec_bottom()
}

/// The cell at place `i` once the cells of `area` at positions before column
/// `col`, or in column `col` before row `row`, are cleared with `style`.
pub open spec fn cleared_before(b: BufferView, area: Rect, style: Style, i: int, col: int, row: int) -> CellView {
    let x = position_x(b.area, i);
    let y = position_y(b.area, i);
    if in_clipped(area, x, y) && (x < col || (x == col && y < row)) {
        styled_cell(blank_cell(), style)
    } else {
        b.content[i]
    }
}

impl Buffer {
    /// Makes every cell of `area` blank and then gives it `style`.
    pub fn clear_with(&mut self, area: Rect, style: Style)
        requires
            area.width > 0 && area.height > 0 ==> in_area(old(self)@.area, area.x as int, area.y as int),
            area.spec_right() <= old(self)@.area.x + old(self)@.area.width,
            area.spec_bottom() <= old(self)@.area.y + old(self)@.area.height,
        ensures
            final(self)@.area == old(self)@.area,
            final(self)@.content == Seq::new(
                old(self)@.content.len(),
                |i: int|
                    if in_clipped(area, position_x(old(self)@.area, i), position_y(old(self)@.area, i)) {
                        styled_cell(blank_cell(), style)
                    } else {
                        old(self)@.content[i]
                    },
            ),
    {
        let barea = self.area();
        let ghost start = self@;
        let ghost n = start.content.len();
        let left = area.left();
        let right = area.right();
        let top = area.top();
        let bottom = area.bottom();
        let mut x = left;
        while x < right
            invariant
                left <= x <= right,
                left == area.x,
                top == area.y,
                right == area.spec_right(),
                bottom == area.spec_bottom(),
                barea == start.area,
                self@.area == start.area,
                n == start.content.len(),
                n == barea.spec_area(),
                self@.content.len() == n,
                area.width > 0 && area.height > 0 ==> in_area(start.area, area.x as int, area.y as int),
                area.spec_right() <= start.area.x + start.area.width,
                area.spec_bottom() <= start.area.y + start.area.height,
                forall|i: int| 0 <= i < n ==> #[trigger] self@.content[i] == cleared_before(start, area, style, i, x as int, top as int),
            decreases right - x,
        {
            let mut y = top;
            while y < bottom
                invariant
                    top <= y <= bottom,
                    left <= x < right,
                    left == area.x,
                    top == area.y,
                    right == area.spec_right(),
                    bottom == area.spec_bottom(),
                    barea == start.area,
                    self@.area == start.area,
                    n == start.content.len(),
                    n == barea.spec_area(),
                    self@.content.len() == n,
                    area.width > 0 && area.height > 0 ==> in_area(start.area, area.x as int, area.y as int),
                    area.spec_right() <= start.area.x + start.area.width,
                    area.spec_bottom() <= start.area.y + start.area.height,
                    forall|i: int| 0 <= i < n ==> #[trigger] self@.content[i] == cleared_before(start, area, style, i, x as int, y as int),
                decreases bottom - y,
            {
                let mut cell = Cell::blank();
                cell.set_style(style);
                self.set(x, y, cell);
                proof {
                    let k = index_in(barea, x as int, y as int);
                    lemma_position_of_index(barea, x as int, y as int);
                    assert forall|i: int| 0 <= i < n implies #[trigger] self@.content[i] == cleared_before(
                        start,
                        area,
                        style,
                        i,
                        x as int,
                        y + 1,
                    ) by {
                        lemma_index_of_position(barea, i);
                    }
                }
                y = y + 1;
            }
            proof {
                assert forall|i: int| 0 <= i < n implies #[trigger] self@.content[i] == cleared_before(
                    start,
                    area,
                    style,
                    i,
                    x + 1,
                    top as int,
                ) by {
                    lemma_index_of_position(barea, i);
                }
            }
            x = x + 1;
        }
        proof {
            assert(self@.content =~= Seq::new(
                n,
                |i: int|
                    if in_clipped(area, position_x(start.area, i), position_y(start.area, i)) {
                        styled_cell(blank_cell(), style)
                    } else {
                        start.content[i]
                    },
            ));
        }
    }
}

/// The cell holding cluster `g`, drawn over `c` with `style`.
pub open spec fn glyph_cell(c: CellView, g: Seq<char>, style: Style) -> CellView {
    styled_cell(CellView { symbol: g, ..c }, style)
}

/// The cells after cluster `g`, `w` columns wide, is written at place
/// `index`: the cell there holds it, and the `w - 1` cells after it, which
/// it covers, are blank.
pub open spec fn glyph_written(content: Seq<CellView>, index: int, w: int, g: Seq<char>, style: Style) -> Seq<
    CellView,
> {
    Seq::new(
        content.len(),
        |k: int|
            if k == index {
                glyph_cell(content[index], g, style)
            } else if index < k < index + w {
                blank_cell()
            } else {
                content[k]
            },
    )
}

/// The cells, and the column reached, after the clusters `gs` are written
/// one after the other from place `index` and column `offset`, cluster `i`
/// taking `ws[i]` columns: a cluster of no width is passed over, and the
/// writing stops at the first cluster that would reach past column
/// `max_offset`.
pub open spec fn clusters_written(
    content: Seq<CellView>,
    gs: Seq<Seq<char>>,
    ws: Seq<int>,
    index: int,
    offset: int,
    max_offset: int,
    style: Style,
) -> (Seq<CellView>, int)
    decreases gs.len(),
{
    if gs.len() == 0 {
        (content, offset)
    } else {
        let g = gs[0];
        let w = ws[0];
        if w == 0 {
            clusters_written(content, gs.drop_first(), ws.drop_first(), index, offset, max_offset, style)
        } else if w > sat_sub(max_offset, offset) {
            (content, offset)
        } else {
            clusters_written(
                glyph_written(content, index, w, g, style),
                gs.drop_first(),
                ws.drop_first(),
                index + w,
                offset + w,
                max_offset,
                style,
            )
        }
    }
}

/// The last column a string written at column `x` may reach: the area's
/// right edge, or `width` columns on from `x`, whichever comes first.
pub open spec fn string_limit(area: Rect, x: u16, width: usize) -> int {
    min_int(area.spec_right(), if x + width > usize::MAX { usize::MAX as int } else { x + width })
}

/// The buffer after the clusters `gs`, of widths `ws`, are written at
/// `(x, y)` in at most `width` columns, and the column reached: unchanged
/// where `(x, y)` is outside the area.
pub open spec fn clusters_at(
    b: BufferView,
    x: u16,
    y: u16,
    gs: Seq<Seq<char>>,
    ws: Seq<int>,
    width: usize,
    style: Style,
) -> (BufferView, int) {
    if !in_area(b.area, x as int, y as int) {
        (b, x as int)
    } else {
        let r = clusters_written(
            b.content,
            gs,
            ws,
            index_in(b.area, x as int, y as int),
            x as int,
            string_limit(b.area, x, width),
            style,
        );
        (BufferView { content: r.0, ..b }, r.1)
    }
}

/// The column widths of the clusters `gs`.
pub open spec fn cluster_widths(gs: Seq<Seq<char>>) -> Seq<int> {
    gs.map_values(|g: Seq<char>| display_width(g) as int)
}

/// The buffer after `string` is written at `(x, y)` in at most `width`
/// columns, one grapheme cluster per cell, and the column reached.
pub open spec fn string_written(b: BufferView, x: u16, y: u16, string: Seq<char>, width: usize, style: Style) -> (
    BufferView,
    int,
) {
    clusters_at(b, x, y, grapheme_clusters(string), cluster_widths(grapheme_clusters(string)), width, style)
}

/// A cluster `w` columns wide written where it has room takes the cell at
/// the position, over which its symbol and `style` are set, and blanks the
/// `w - 1` cells after it that it covers; every other cell is left as it
/// was, and the writing ends `w` columns on.
pub proof fn lemma_cluster_covers_cells(
    b: BufferView,
    x: u16,
    y: u16,
    g: Seq<char>,
    w: int,
    width: usize,
    style: Style,
)
    requires
        b.content.len() == b.area.spec_area(),
        in_area(b.area, x as int, y as int),
        1 <= w <= width,
        x + w <= b.area.x + b.area.width,
        x + w <= u16::MAX,
    ensures
        ({
            let r = clusters_at(b, x, y, seq![g], seq![w], width, style);
            let i = index_in(b.area, x as int, y as int);
            &&& r.1 == x + w
            &&& r.0.area == b.area
            &&& r.0.content.len() == b.content.len()
            &&& r.0.content[i] == styled_cell(CellView { symbol: g, ..b.content[i] }, style)
            &&& forall|k: int| i < k < i + w ==> #[trigger] r.0.content[k] == blank_cell()
            &&& forall|k: int|
                0 <= k < b.content.len() && (k < i || k >= i + w) ==> #[trigger] r.0.content[k] == b.content[k]
        }),
{
    let i = index_in(b.area, x as int, y as int);
    lemma_row_room(b.area, x as int, y as int, x as int, w);
    let lim = string_limit(b.area, x, width);
    assert(seq![g].drop_first() =~= Seq::<Seq<char>>::empty());
    assert(seq![w].drop_first() =~= Seq::<int>::empty());
    assert(seq![g][0] == g);
    assert(seq![w][0] == w);
    reveal_with_fuel(clusters_written, 2);
    assert(clusters_written(b.content, seq![g], seq![w], i, x as int, lim, style) == (
        glyph_written(b.content, i, w, g, style),
        x + w,
    ));
}

/// The widest of the lines, each width cut to 16 bits.
pub open spec fn max_line_width(lines: Seq<Seq<char>>) -> u16
    decreases lines.len(),
{
    if lines.len() == 0 {
        0
    } else {
        let w = #[verifier::truncate] (display_width(lines.last()) as u16);
        let m = max_line_width(lines.drop_last());
        if w > m {
            w
        } else {
            m
        }
    }
}

/// The buffer after the first `k` lines are written, line `y` at column 0
/// of row `y`, with the default style.
pub open spec fn lines_written(b: BufferView, lines: Seq<Seq<char>>, k: nat) -> BufferView
    decreases k,
{
    if k == 0 {
        b
    } else {
        string_written(
            lines_written(b, lines, (k - 1) as nat),
            0,
            #[verifier::truncate] ((k - 1) as u16),
            lines[k - 1],
            usize::MAX,
            Style::spec_default(),
        ).0
    }
}

impl Buffer {
    /// Puts `cell` at place `i`.
    fn set_index(&mut self, i: usize, cell: Cell)
        requires
            i < old(self)@.content.len(),
        ensures
            final(self)@.area == old(self)@.area,
            final(self)@.content == old(self)@.content.update(i as int, cell@),
        no_unwind
    {
        proof {
            use_type_invariant(&*self);
        }
        let ghost before = self.content@;
        self.content[i] = cell;
        proof {
            assert(self.content@.map_values(|c: Cell| c@) =~= before.map_values(|c: Cell| c@).update(
                i as int,
                cell@,
            ));
        }
    }

    /// Writes the grapheme clusters `clusters` at `(x, y)`, cluster `i`
    /// taking `widths[i]` columns, one cluster per cell (a wide cluster
    /// covers the cells after it, which are made blank), within the area's
    /// row and at most `width` columns; each written cell gets `style`.
    /// Returns the column after the written text and the row.  Nothing is
    /// written where `(x, y)` is outside the area.
    pub fn set_clusters(
        &mut self,
        x: u16,
        y: u16,
        clusters: &Vec<String>,
        widths: &Vec<usize>,
        width: usize,
        style: Style,
    ) -> (r: (u16, u16))
        requires
            clusters.len() == widths.len(),
        ensures
            final(self)@ == clusters_at(
                old(self)@,
                x,
                y,
                clusters@.map_values(|g: String| g@),
                widths@.map_values(|w: usize| w as int),
                width,
                style,
            ).0,
            r == ((clusters_at(
                old(self)@,
                x,
                y,
                clusters@.map_values(|g: String| g@),
                widths@.map_values(|w: usize| w as int),
                width,
                style,
            ).1) as u16, y),
    {
        let barea = self.area();
        if !self.in_bounds(x, y) {
            return (x, y);
        }
        let ghost start = self@;
        let ghost n = start.content.len();
        let mut index = self.index_of(x, y);
        let ghost index0 = index as int;
        let mut x_offset = x as usize;
        let gs = clusters;
        let ghost all = clusters@.map_values(|g: String| g@);
        let ghost wsq = widths@.map_values(|w: usize| w as int);
        let right = barea.right() as usize;
        let lim = width.saturating_add(x as usize);
        let max_offset = if right < lim { right } else { lim };
        let ghost target = clusters_written(start.content, all, wsq, index0, x as int, max_offset as int, style);
        proof {
            lemma_index_in_bounds(barea, x as int, y as int);
            assert(all.skip(0) =~= all);
            assert(wsq.skip(0) =~= wsq);
        }
        let cell_count = barea.area();
        proof {
            assert(n == cell_count);
        }
        let mut i: usize = 0;
        let mut stop = false;
        while i < gs.len() && !stop
            invariant
                i <= gs@.len(),
                gs@.map_values(|g: String| g@) == all,
                widths@.map_values(|w: usize| w as int) == wsq,
                gs@.len() == widths@.len(),
                barea == start.area,
                self@.area == start.area,
                n == start.content.len(),
                n == barea.spec_area(),
                n <= usize::MAX,
                self@.content.len() == n,
                in_area(barea, x as int, y as int),
                index0 == index_in(barea, x as int, y as int),
                index == index0 + (x_offset - x),
                x <= x_offset <= max_offset,
                max_offset <= barea.x + barea.width,
                clusters_written(self@.content, all.skip(i as int), wsq.skip(i as int), index as int, x_offset as int, max_offset as int, style)
                    == target,
                stop ==> i < gs@.len() && wsq[i as int] != 0 && wsq[i as int] > sat_sub(
                    max_offset as int,
                    x_offset as int,
                ),
            decreases gs.len() - i, if stop { 0int } else { 1int },
        {
            let g = &gs[i];
            let w = widths[i];
            proof {
                assert(all.skip(i as int)[0] == all[i as int]);
                assert(all.skip(i as int).drop_first() =~= all.skip(i + 1));
                assert(wsq.skip(i as int)[0] == wsq[i as int]);
                assert(wsq.skip(i as int).drop_first() =~= wsq.skip(i + 1));
            }
            if w == 0 {
                i = i + 1;
            } else if w > max_offset.saturating_sub(x_offset) {
                stop = true;
            } else {
                proof {
                    lemma_row_room(barea, x as int, y as int, x_offset as int, w as int);
                }
                let ghost before = self@.content;
                let mut cell = self.content[index].duplicate();
                cell.set_symbol(g.as_str());
                cell.set_style(style);
                self.set_index(index, cell);
                let end = index + w;
                let mut j = index + 1;
                while j < end
                    invariant
                        index < j <= end,
                        end == index + w,
                        end <= n,
                        barea == start.area,
                        self@.area == start.area,
                        n == barea.spec_area(),
                        before.len() == n,
                        self@.content.len() == n,
                        forall|k: int|
                            0 <= k < n ==> #[trigger] self@.content[k] == (if k == index {
                                glyph_cell(before[index as int], g@, style)
                            } else if index < k < j {
                                blank_cell()
                            } else {
                                before[k]
                            }),
                    decreases end - j,
                {
                    self.set_index(j, Cell::blank());
                    j = j + 1;
                }
                proof {
                    assert(self@.content =~= glyph_written(before, index as int, w as int, g@, style));
                }
                index = index + w;
                x_offset = x_offset + w;
                i = i + 1;
            }
        }
        proof {
            if !stop {
                assert(all.skip(i as int) =~= Seq::<Seq<char>>::empty());
                assert(wsq.skip(i as int) =~= Seq::<int>::empty());
            }
        }
        (x_offset as u16, y)
    }

    /// Writes `string` at `(x, y)`, one grapheme cluster per cell (a wide
    /// cluster covers the cells after it, which are made blank), within the
    /// area's row and at most `width` columns; each written cell gets
    /// `style`.  Returns the column after the written text and the row.
    /// Nothing is written where `(x, y)` is outside the area.
    pub fn set_stringn(&mut self, x: u16, y: u16, string: &str, width: usize, style: Style) -> (r: (u16, u16))
        ensures
            final(self)@ == string_written(old(self)@, x, y, string@, width, style).0,
            r == ((string_written(old(self)@, x, y, string@, width, style).1) as u16, y),
    {
        let clusters = graphemes(string);
        let ghost all = grapheme_clusters(string@);
        let mut widths: Vec<usize> = Vec::new();
        let mut i: usize = 0;
        while i < clusters.len()
            invariant
                i <= clusters@.len(),
                clusters@.map_values(|g: String| g@) == all,
                widths@.map_values(|w: usize| w as int) =~= cluster_widths(all).take(i as int),
            decreases clusters.len() - i,
        {
            let w = text_width(clusters[i].as_str());
            proof {
                assert(all[i as int] == clusters@[i as int]@);
                assert(cluster_widths(all)[i as int] == w as int);
            }
            let ghost before = widths@;
            widths.push(w);
            proof {
                assert(widths@.map_values(|v: usize| v as int) =~= before.map_values(|v: usize| v as int).push(
                    w as int,
                ));
                assert(cluster_widths(all).take(i + 1) =~= cluster_widths(all).take(i as int).push(w as int));
            }
            i = i + 1;
        }
        proof {
            assert(cluster_widths(all).take(i as int) =~= cluster_widths(all));
        }
        self.set_clusters(x, y, &clusters, &widths, width, style)
    }

    /// Writes `string` at `(x, y)` within the area's row.
    pub fn set_string(&mut self, x: u16, y: u16, string: &str, style: Style)
        ensures
            final(self)@ == string_written(old(self)@, x, y, string@, usize::MAX, style).0,
    {
        self.set_stringn(x, y, string, usize::MAX, style);
    }

    /// A buffer as wide as the widest line and one row per line, with line
    /// `y` written at the start of row `y`; widths, the line count and row
    /// numbers are cut to 16 bits.
    pub fn with_lines(lines: Vec<&str>) -> (r: Buffer)
        ensures
            r@ == lines_written(
                BufferView {
                    area: Rect {
                        x: 0,
                        y: 0,
                        width: max_line_width(lines@.map_values(|l: &str| l@)),
                        height: #[verifier::truncate] (lines.len() as u16),
                    },
                    content: Seq::new(
                        (max_line_width(lines@.map_values(|l: &str| l@)) * (#[verifier::truncate] (lines.len() as u16))) as nat,
                        |i: int| blank_cell(),
                    ),
                },
                lines@.map_values(|l: &str| l@),
                lines.len() as nat,
            ),
    {
        let ghost ls = lines@.map_values(|l: &str| l@);
        let height = #[verifier::truncate] (lines.len() as u16);
        let mut max_width: u16 = 0;
        let mut k: usize = 0;
        while k < lines.len()
            invariant
                k <= lines@.len(),
                ls == lines@.map_values(|l: &str| l@),
                max_width == max_line_width(ls.take(k as int)),
            decreases lines.len() - k,
        {
            let w = #[verifier::truncate] (text_width(lines[k]) as u16);
            proof {
                assert(ls.take(k + 1).drop_last() =~= ls.take(k as int));
            }
            if w > max_width {
                max_width = w;
            }
            k = k + 1;
        }
        proof {
            assert(ls.take(k as int) =~= ls);
        }
        let mut buffer = Buffer::empty(Rect { x: 0, y: 0, width: max_width, height });
        let ghost b0 = buffer@;
        let mut y: usize = 0;
        while y < lines.len()
            invariant
                y <= lines@.len(),
                ls == lines@.map_values(|l: &str| l@),
                buffer@ == lines_written(b0, ls, y as nat),
            decreases lines.len() - y,
        {
            buffer.set_string(0, #[verifier::truncate] (y as u16), lines[y], Style::new());
            y = y + 1;
        }
        buffer
    }
}

/// A string written at column `offset` of row `y`, with room for a cluster of
/// width `w` before the area's right edge, stays in that row of the content.
proof fn lemma_row_room(area: Rect, x: int, y: int, offset: int, w: int)
    requires
        in_area(area, x, y),
        x <= offset,
        offset + w <= area.x + area.width,
        w > 0,
    ensures
        index_in(area, x, y) + (offset - x) + w <= area.spec_area(),
        index_in(area, x, y) + (offset - x) >= 0,
{
    let dy = y - area.y;
    assert(dy * area.width + area.width <= area.width * area.height) by (nonlinear_arith)
        requires
            0 <= dy < area.height,
            0 <= area.width,
    ;
    assert(0 <= dy * area.width) by (nonlinear_arith)
        requires
            0 <= dy,
            0 <= area.width,
    ;
}

/// Changing one cell of a sequence changes that cell of its view alone.
proof fn lemma_cells_update(s: Seq<Cell>, i: int)
    requires
        0 <= i < s.len(),
    ensures
        forall|v: Cell|
            (#[trigger] s.update(i, v)).map_values(|c: Cell| c@) == s.map_values(|c: Cell| c@).update(i, v@),
{
    assert forall|v: Cell|
        (#[trigger] s.update(i, v)).map_values(|c: Cell| c@) == s.map_values(|c: Cell| c@).update(i, v@) by {
        assert(s.update(i, v).map_values(|c: Cell| c@) =~= s.map_values(|c: Cell| c@).update(i, v@));
    }
}

/// A cell inside the area is held inside the content.
pub proof fn lemma_index_in_bounds(area: Rect, x: int, y: int)
    requires
        in_area(area, x, y),
    ensures
        0 <= index_in(area, x, y) < area.spec_area(),
        index_in(area, x, y) <= usize::MAX,
{
    let dy = y - area.y;
    let dx = x - area.x;
    assert(dy * area.width + dx < area.width * area.height) by (nonlinear_arith)
        requires
            0 <= dy < area.height,
            0 <= dx < area.width,
    ;
    assert(0 <= dy * area.width) by (nonlinear_arith)
        requires
            0 <= dy,
            0 <= area.width,
    ;
    assert(area.width * area.height <= 65535 * 65535) by (nonlinear_arith)
        requires
            area.width <= 65535,
            area.height <= 65535,
    ;
}

impl Clone for Buffer {
    fn clone(&self) -> (r: Buffer)
        ensures
            r@ == self@,
    {
        proof {
            use_type_invariant(self);
        }
        let n = self.content.len();
        let mut content: Vec<Cell> = Vec::new();
        let mut i: usize = 0;
        while i < n
            invariant
                n == self.content@.len(),
                i <= n,
                content@.map_values(|c: Cell| c@) =~= self@.content.take(i as int),
            decreases n - i,
        {
            let ghost b = content@;
            content.push(self.content[i].duplicate());
            proof {
                assert(content@.map_values(|c: Cell| c@) =~= b.map_values(|c: Cell| c@).push(
                    self@.content[i as int],
                ));
            }
            i = i + 1;
        }
        proof {
            assert(self@.content.take(n as int) =~= self@.content);
        }
        Buffer { area: self.area, content }
    }
}

/// The state of comparing `prev` with `next` after their first `i` cells:
/// the places to redraw, how many cells on are still covered by a wide
/// symbol of either buffer (and so redrawn), and how many cells on are
/// covered by a wide symbol of `next` (and so passed over).  A place is
/// redrawn where its cell changed or it is still covered, unless it is
/// passed over.
pub open spec fn diff_state(prev: Seq<CellView>, next: Seq<CellView>, i: int) -> (Seq<int>, int, int)
    decreases i,
{
    if i <= 0 {
        (Seq::empty(), 0, 0)
    } else {
        let (u, invalidated, to_skip) = diff_state(prev, next, i - 1);
        let current = next[i - 1];
        let previous = prev[i - 1];
        let u2 = if (current != previous || invalidated > 0) && to_skip == 0 {
            u.push(i - 1)
        } else {
            u
        };
        let cw = display_width(current.symbol) as int;
        let pw = display_width(previous.symbol) as int;
        (u2, sat_sub(max_int(max_int(cw, pw), invalidated), 1), sat_sub(cw, 1))
    }
}

/// The places listed after more cells are compared start with those listed
/// after fewer, and every place listed lies among the cells compared.
proof fn lemma_diff_state_grows(prev: Seq<CellView>, next: Seq<CellView>, m1: int, m2: int)
    requires
        0 <= m1 <= m2,
    ensures
        diff_state(prev, next, m1).0.len() <= diff_state(prev, next, m2).0.len(),
        diff_state(prev, next, m2).0.take(diff_state(prev, next, m1).0.len() as int) =~= diff_state(
            prev,
            next,
            m1,
        ).0,
        forall|k: int|
            0 <= k < diff_state(prev, next, m2).0.len() ==> 0 <= #[trigger] diff_state(prev, next, m2).0[k] < m2,
    decreases m2,
{
    if m2 > 0 {
        if m1 < m2 {
            lemma_diff_state_grows(prev, next, m1, m2 - 1);
        } else {
            lemma_diff_state_grows(prev, next, m1 - 1, m2 - 1);
        }
        let a = diff_state(prev, next, m2 - 1).0;
        let b = diff_state(prev, next, m2).0;
        assert forall|k: int| 0 <= k < b.len() implies 0 <= #[trigger] b[k] < m2 by {
            if k < a.len() {
                assert(b[k] == a[k]);
            }
        }
        if m1 < m2 {
            let c = diff_state(prev, next, m1).0;
            assert(b.take(c.len() as int) =~= a.take(c.len() as int));
        }
    }
}

/// A cell that differs in anything (symbol, colours, underline or
/// modifiers) from the one at its place before is redrawn, at its place,
/// unless the cell before it in the new frame holds a wide symbol that
/// covers it.
pub proof fn lemma_diff_redraws_changed(prev: BufferView, next: BufferView, i: int)
    requires
        0 <= i < prev.content.len(),
        i < next.content.len(),
        i == 0 || display_width(next.content[i - 1].symbol) <= 1,
        next.content[i] != prev.content[i],
    ensures
        exists|k: int|
            0 <= k < diff_updates(prev, next).len() && #[trigger] diff_updates(prev, next)[k] == (
                #[verifier::truncate] (position_x(prev.area, i) as u16),
                #[verifier::truncate] (position_y(prev.area, i) as u16),
                next.content[i],
            ),
{
    let n = min_int(prev.content.len() as int, next.content.len() as int);
    let before = diff_state(prev.content, next.content, i);
    let after = diff_state(prev.content, next.content, i + 1);
    if i > 0 {
        assert(before.2 == sat_sub(display_width(next.content[i - 1].symbol) as int, 1));
    }
    assert(before.2 == 0);
    assert(after.0 == before.0.push(i));
    lemma_diff_state_grows(prev.content, next.content, i + 1, n);
    let k = before.0.len() as int;
    let all = diff_state(prev.content, next.content, n).0;
    assert(all.take(after.0.len() as int)[k] == i);
    assert(all[k] == i);
    assert(diff_updates(prev, next)[k] == (
        #[verifier::truncate] (position_x(prev.area, i) as u16),
        #[verifier::truncate] (position_y(prev.area, i) as u16),
        next.content[i],
    ));
}

/// Every cell the comparison lists is a cell of the new frame, at the
/// position of its place, and from a place both frames hold.
pub proof fn lemma_diff_lists_next_cells(prev: BufferView, next: BufferView, k: int)
    requires
        0 <= k < diff_updates(prev, next).len(),
    ensures
        exists|i: int|
            0 <= i < prev.content.len() && i < next.content.len() && diff_updates(prev, next)[k] == (
                #[verifier::truncate] (position_x(prev.area, i) as u16),
                #[verifier::truncate] (position_y(prev.area, i) as u16),
                next.content[i],
            ),
{
    let n = min_int(prev.content.len() as int, next.content.len() as int);
    lemma_diff_state_grows(prev.content, next.content, 0, n);
    let i = diff_state(prev.content, next.content, n).0[k];
    assert(0 <= i < n);
}

/// The cells to draw to turn the screen showing `prev` into one showing
/// `next`, each with its column and row in `prev`'s area (cut to 16 bits).
pub open spec fn diff_updates(prev: BufferView, next: BufferView) -> Seq<(u16, u16, CellView)> {
    let n = min_int(prev.content.len() as int, next.content.len() as int);
    diff_state(prev.content, next.content, n).0.map_values(
        |k: int|
            (
                #[verifier::truncate] (position_x(prev.area, k) as u16),
                #[verifier::truncate] (position_y(prev.area, k) as u16),
                next.content[k],
            ),
    )
}

impl Buffer {
    /// The cells of `other` to draw over a screen showing `self`: every cell
    /// that differs from the one at its place, and every cell still covered
    /// by a wide symbol of either buffer, except those that a wide symbol of
    /// `other` covers; each with its column and row.
    pub fn diff<'a>(&self, other: &'a Buffer) -> (r: Vec<(u16, u16, &'a Cell)>)
        ensures
            r@.map_values(|t: (u16, u16, &Cell)| (t.0, t.1, t.2@)) == diff_updates(self@, other@),
    {
        proof {
            use_type_invariant(self);
            use_type_invariant(other);
        }
        let ghost prev = self@.content;
        let ghost next = other@.content;
        let n = if self.content.len() < other.content.len() {
            self.content.len()
        } else {
            other.content.len()
        };
        let w = self.area.width as usize;
        let mut updates: Vec<(u16, u16, &'a Cell)> = Vec::new();
        let mut invalidated: usize = 0;
        let mut to_skip: usize = 0;
        let mut i: usize = 0;
        while i < n
            invariant
                prev == self@.content,
                next == other@.content,
                n == min_int(prev.len() as int, next.len() as int),
                prev.len() == self.area.spec_area(),
                w == self.area.width,
                i <= n,
                updates@.map_values(|t: (u16, u16, &Cell)| (t.0, t.1, t.2@)) =~= diff_state(prev, next, i as int).0.map_values(
                    |k: int|
                        (
                            #[verifier::truncate] (position_x(self.area, k) as u16),
                            #[verifier::truncate] (position_y(self.area, k) as u16),
                            next[k],
                        ),
                ),
                invalidated == diff_state(prev, next, i as int).1,
                to_skip == diff_state(prev, next, i as int).2,
            decreases n - i,
        {
            let current: &'a Cell = &other.content[i];
            let previous = &self.content[i];
            if (!current.same_as(previous) || invalidated > 0) && to_skip == 0 {
                proof {
                    assert(w > 0) by (nonlinear_arith)
                        requires
                            i < prev.len(),
                            prev.len() == self.area.width * self.area.height,
                            w == self.area.width,
                    ;
                    assert(i / w < self.area.height) by (nonlinear_arith)
                        requires
                            i < prev.len(),
                            prev.len() == self.area.width * self.area.height,
                            w == self.area.width,
                            w > 0,
                    ;
                }
                let x = #[verifier::truncate] ((self.area.x as usize + i % w) as u16);
                let y = #[verifier::truncate] ((self.area.y as usize + i / w) as u16);
                let ghost b = updates@;
                updates.push((x, y, current));
                proof {
                    assert(updates@.map_values(|t: (u16, u16, &Cell)| (t.0, t.1, t.2@)) =~= b.map_values(
                        |t: (u16, u16, &Cell)| (t.0, t.1, t.2@),
                    ).push((x, y, next[i as int])));
                }
            }
            let cw = text_width(current.symbol.as_str());
            let pw = text_width(previous.symbol.as_str());
            to_skip = cw.saturating_sub(1);
            let affected = if cw > pw {
                cw
            } else {
                pw
            };
            let m = if affected > invalidated {
                affected
            } else {
                invalidated
            };
            invalidated = m.saturating_sub(1);
            i = i + 1;
        }
        updates
    }
}

} // verus!
