//! Editor views drawn with the widgets: the info popup's layout, table state,
//! and block helpers.

use vstd::prelude::*;
use crate::graphics::{Color, Rect, sat_sub};
use crate::buffer::{
    Buffer, BufferView, CellView, in_area, index_in, position_x, position_y, lemma_index_of_position,
    lemma_position_of_index,
};
use crate::compat::{
    cell_from_ratatui, convert_cell_back, convert_rect, convert_rect_back, rect_from_ratatui, rect_to_ratatui,
};
use crate::ratatui_types as rt;
use crate::widgets::{Block, inner_area};

verus! {

/// A popup of text with a title, `width` columns by `height` rows of text.
pub struct Info {
    pub title: String,
    pub text: String,
    pub width: u16,
    pub height: u16,
}

/// Where the info popup goes: its whole area, and the area its text is drawn
/// in.
#[derive(Debug, Clone, Copy, PartialEq, Eq, Structural)]
pub struct InfoLayout {
    pub area: Rect,
    pub inner: Rect,
}

/// The popup's outer size: the text plus a border and a column of margin on
/// the left and on the right, and a border on the top and on the bottom.
pub open spec fn popup_size(text_width: u16, text_height: u16) -> (int, int) {
    (text_width + 4, text_height + 2)
}

/// The popup's area: its size, at the bottom right of the viewport, above
/// the two rows kept for the status line, cut to the viewport.
pub open spec fn popup_area(viewport: Rect, text_width: u16, text_height: u16) -> Rect {
    let (w, h) = popup_size(text_width, text_height);
    viewport.spec_intersection(
        Rect {
            x: sat_sub(viewport.width as int, w) as u16,
            y: sat_sub(viewport.height as int, h + 2) as u16,
            width: w as u16,
            height: h as u16,
        },
    )
}

/// The area the popup's text goes in: inside the bordered and titled block
/// over `area`, one column in from each side.
pub open spec fn popup_text_area(area: Rect) -> Rect {
    rect_from_ratatui(
        rt::titled_block_inner(rt::Borders { bits: 15u8 }, rect_to_ratatui(area)).spec_inner(rt::Margin { horizontal: 1, vertical: 0 }),
    )
}

impl Info {
    /// Where the popup goes in `viewport`.
    pub fn layout(&self, viewport: Rect) -> (r: InfoLayout)
        requires
            self.width <= u16::MAX - 4,
            self.height <= u16::MAX - 4,
        ensures
            r.area == popup_area(viewport, self.width, self.height),
            r.inner == popup_text_area(r.area),
    {
        let width = self.width + 2 + 2;
        let height = self.height + 2;
        let area = viewport.intersection(
            Rect::new(viewport.width.saturating_sub(width), viewport.height.saturating_sub(height + 2), width, height),
        );
        let ratatui_area = convert_rect(area);
        let all = rt::Borders { bits: 0b1111 };
        let ratatui_inner = rt::block_inner_titled(all, self.title.as_str(), ratatui_area);
        let margin = rt::Margin { horizontal: 1, vertical: 0 };
        let ratatui_inner_with_margin = rt::rect_inner(ratatui_inner, margin);
        let inner = convert_rect_back(ratatui_inner_with_margin);
        InfoLayout { area, inner }
    }
}

/// In a viewport at the origin with room for it, the popup has its full size
/// and sits at the bottom right, its bottom edge two rows above the
/// viewport's.
pub proof fn lemma_popup_bottom_right(viewport: Rect, text_width: u16, text_height: u16)
    requires
        viewport.x == 0,
        viewport.y == 0,
        viewport.width >= text_width + 4,
        viewport.height >= text_height + 4,
    ensures
        popup_area(viewport, text_width, text_height) == (Rect {
            x: (viewport.width - text_width - 4) as u16,
            y: (viewport.height - text_height - 4) as u16,
            width: (text_width + 4) as u16,
            height: (text_height + 2) as u16,
        }),
{
}

/// The popup never reaches outside the viewport, and its text area lies
/// inside it.
pub proof fn lemma_popup_within(viewport: Rect, text_width: u16, text_height: u16)
    requires
        text_width <= u16::MAX - 4,
        text_height <= u16::MAX - 4,
        popup_area(viewport, text_width, text_height).width > 0,
        popup_area(viewport, text_width, text_height).height > 0,
    ensures
        ({
            let a = popup_area(viewport, text_width, text_height);
            &&& viewport.x <= a.x
            &&& viewport.y <= a.y
            &&& a.x + a.width <= viewport.spec_right()
            &&& a.y + a.height <= viewport.spec_bottom()
        }),
{
}

/// The popup's text goes one row below its top edge and two columns in from
/// its left edge (border and margin), and is four columns narrower and two
/// rows shorter than the popup, where the popup is at least that large and
/// does not reach `u16::MAX`.
pub proof fn lemma_popup_text_area(area: Rect)
    requires
        area.width >= 4,
        area.height >= 2,
        area.x + area.width <= u16::MAX,
        area.y + area.height <= u16::MAX,
    ensures
        popup_text_area(area) == (Rect {
            x: (area.x + 2) as u16,
            y: (area.y + 1) as u16,
            width: (area.width - 4) as u16,
            height: (area.height - 2) as u16,
        }),
{
    assert(15u8 & 8u8 == 8u8 && 15u8 & 2u8 == 2u8 && 15u8 & 4u8 == 4u8) by (bit_vector);
}

/// Which rows of a table are shown: the first row drawn, and the row picked
/// if any.
#[derive(Debug, Clone, Copy, PartialEq, Eq, Structural)]
pub struct TableState {
    pub offset: usize,
    pub selected: Option<usize>,
}

/// A table state from its first drawn row and its picked row.
pub fn table_state(offset: usize, selected: Option<usize>) -> (r: TableState)
    ensures
        r == (TableState { offset, selected }),
{
    TableState { offset, selected }
}

/// The area inside a block's borders.
pub fn get_block_inner_area(block: &Block<'_>, area: Rect) -> (r: Rect)
    ensures
        r == inner_area(block.borders, area),
{
    block.inner(area)
}

/// A plain block with a border on every side.
pub fn bordered_block() -> (r: Block<'static>)
    ensures
        r.title is None,
        r.borders.spec_bits() == 15u8,
        r.border_type == crate::widgets::BorderType::Plain,
        r.style == crate::graphics::Style::spec_default(),
{
    Block::bordered()
}

/// The cell that replaces `existing` when the ratatui cell `rendered` is
/// copied over it: the rendered cell converted, keeping the existing
/// background where the rendered cell has none of its own (so that a popup's
/// background shows through).
pub open spec fn merged_cell(rendered: rt::CellView, existing: CellView) -> CellView {
    let c = cell_from_ratatui(rendered);
    if c.bg == Color::Reset && existing.bg != Color::Reset {
        CellView { bg: existing.bg, ..c }
    } else {
        c
    }
}

/// Whether `(x, y)` lies in the rendered area (whose right and bottom edges
/// saturate at `u16::MAX`).
pub open spec fn in_rendered(area: rt::Rect, x: int, y: int) -> bool {
    area.x <= x < area.spec_right() && area.y <= y < area.spec_bottom()
}

/// Where a ratatui buffer over `area` holds the cell at `(x, y)`.
pub open spec fn rendered_index(area: rt::Rect, x: int, y: int) -> int {
    (y - area.y) * area.width + (x - area.x)
}

/// The cell at place `i` of `surface` once the cells rendered at
/// positions before row `row`, or in row `row` before column `col`, are
/// copied over it.
pub open spec fn copied_before(surface: BufferView, rendered: rt::BufferView, i: int, col: int, row: int) -> CellView {
    let x = position_x(surface.area, i);
    let y = position_y(surface.area, i);
    if in_rendered(rendered.area, x, y) && (y < row || (y == row && x < col)) {
        merged_cell(rendered.content[rendered_index(rendered.area, x, y)], surface.content[i])
    } else {
        surface.content[i]
    }
}

/// The cell at place `i` of `surface` once every rendered cell is copied over.
pub open spec fn copied_cell(surface: BufferView, rendered: rt::BufferView, i: int) -> CellView {
    let x = position_x(surface.area, i);
    let y = position_y(surface.area, i);
    if in_rendered(rendered.area, x, y) {
        merged_cell(rendered.content[rendered_index(rendered.area, x, y)], surface.content[i])
    } else {
        surface.content[i]
    }
}

/// Each position of the surface inside the rendered area takes the cell
/// rendered at that same position, ratatui's buffer being held row by row
/// from the area's corner: its symbol, colours and modifiers converted,
/// and the surface's own background where the rendered cell has none.
/// Positions outside the rendered area keep their cells.
pub proof fn lemma_copy_takes_same_position(surface: BufferView, rendered: rt::BufferView, x: int, y: int)
    requires
        surface.content.len() == surface.area.spec_area(),
        in_area(surface.area, x, y),
    ensures
        ({
            let i = index_in(surface.area, x, y);
            let a = rendered.area;
            let r = rendered.content[(y - a.y) * a.width + (x - a.x)];
            let c = copied_cell(surface, rendered, i);
            &&& in_rendered(a, x, y) ==> {
                &&& c.symbol == r.symbol
                &&& c.fg == cell_from_ratatui(r).fg
                &&& c.modifier == cell_from_ratatui(r).modifier
                &&& c.bg == (if cell_from_ratatui(r).bg == Color::Reset {
                    surface.content[i].bg
                } else {
                    cell_from_ratatui(r).bg
                })
            }
            &&& !in_rendered(a, x, y) ==> c == surface.content[i]
        }),
{
    lemma_position_of_index(surface.area, x, y);
}

/// Copies the cells of a ratatui buffer, rendered over its own area, into the
/// surface where the surface has those positions; each copied cell keeps the
/// surface's background where it has none of its own.
pub fn copy_rendered_cells(surface: &mut Buffer, rendered: &rt::Buffer)
    requires
        crate::backend::rt_buffer_wf(rendered@),
        rendered@.area.width * rendered@.area.height <= u16::MAX,
    ensures
        final(surface)@.area == old(surface)@.area,
        final(surface)@.content == Seq::new(
            old(surface)@.content.len(),
            |i: int| copied_cell(old(surface)@, rendered@, i),
        ),
{
    let area = rendered.area;
    let top = area.y;
    let bottom = area.y.saturating_add(area.height);
    let left = area.x;
    let right = area.x.saturating_add(area.width);
    let sarea = surface.area();
    let ghost old_view = surface@;
    let ghost n = old_view.content.len();
    let mut y = top;
    while y < bottom
        invariant
            top <= y <= bottom,
            top == area.y,
            left == area.x,
            bottom == area.spec_bottom(),
            right == area.spec_right(),
            area == rendered@.area,
            crate::backend::rt_buffer_wf(rendered@),
            area.width * area.height <= u16::MAX,
            surface@.area == old_view.area,
            sarea == old_view.area,
            n == old_view.content.len(),
            n == sarea.spec_area(),
            surface@.content.len() == n,
            forall|i: int| 0 <= i < n ==> #[trigger] surface@.content[i] == copied_before(old_view, rendered@, i, left as int, y as int),
        decreases bottom - y,
    {
        let mut x = left;
        while x < right
            invariant
                left <= x <= right,
                top <= y < bottom,
                top == area.y,
                left == area.x,
                bottom == area.spec_bottom(),
                right == area.spec_right(),
                area == rendered@.area,
                crate::backend::rt_buffer_wf(rendered@),
                area.width * area.height <= u16::MAX,
                surface@.area == old_view.area,
                sarea == old_view.area,
                n == old_view.content.len(),
                n == sarea.spec_area(),
                surface@.content.len() == n,
                forall|i: int| 0 <= i < n ==> #[trigger] surface@.content[i] == copied_before(old_view, rendered@, i, x as int, y as int),
            decreases right - x,
        {
            proof {
                let w = area.width as int;
                let h = area.height as int;
                let dy = y - area.y;
                let dx = x - area.x;
                assert(dy * w + dx < w * h) by (nonlinear_arith)
                    requires
                        0 <= dy < h,
                        0 <= dx < w,
                ;
                assert(0 <= dy * w) by (nonlinear_arith)
                    requires
                        0 <= dy,
                        0 <= w,
                ;
            }
            let index = ((y - area.y) * area.width + (x - area.x)) as usize;
            let ratatui_cell = &rendered.content[index];
            let ghost before = surface@;
            let existing_bg = match surface.get(x, y) {
                Some(c) => Some(c.bg),
                None => None,
            };
            match existing_bg {
                Some(bg) => {
                    let mut helix_cell = convert_cell_back(ratatui_cell);
                    if helix_cell.bg == Color::Reset && bg != Color::Reset {
                        helix_cell.bg = bg;
                    }
                    surface.set(x, y, helix_cell);
                    proof {
                        let k = index_in(sarea, x as int, y as int);
                        lemma_position_of_index(sarea, x as int, y as int);
                        assert forall|i: int| 0 <= i < n implies #[trigger] surface@.content[i] == copied_before(
                            old_view,
                            rendered@,
                            i,
                            x + 1,
                            y as int,
                        ) by {
                            lemma_index_of_position(sarea, i);
                            if i == k {
                                assert(before.content[i] == old_view.content[i]);
                            }
                        }
                    }
                },
                None => {
                    proof {
                        assert forall|i: int| 0 <= i < n implies #[trigger] surface@.content[i] == copied_before(
                            old_view,
                            rendered@,
                            i,
                            x + 1,
                            y as int,
                        ) by {
                            lemma_index_of_position(sarea, i);
                        }
                    }
                },
            }
            x = x + 1;
        }
        proof {
            assert forall|i: int| 0 <= i < n implies #[trigger] surface@.content[i] == copied_before(
                old_view,
                rendered@,
                i,
                left as int,
                y + 1,
            ) by {
                lemma_index_of_position(sarea, i);
            }
        }
        y = y + 1;
    }
    proof {
        assert(surface@.content =~= Seq::new(n, |i: int| copied_cell(old_view, rendered@, i)));
    }
}

} // verus!
