//! Backends: the in-memory test backend, the decisions of the adapter that
//! drives a ratatui backend, and the terminal set-up sequences.

use vstd::prelude::*;
use crate::buffer::{Buffer, BufferView, Cell, CellView, index_in, in_area, blank_cell};
use crate::graphics::{CursorKind, Rect};
use crate::compat::{cell_to_ratatui, convert_cell};
use crate::ratatui_types as rt;

verus! {

/// `std::io::Error`, the error of terminal operations.
#[verifier::external_type_specification]
#[verifier::external_body]
pub struct ExIoError(std::io::Error);

/// Terminal settings.
#[derive(Debug, Clone, Copy, PartialEq, Eq, Structural)]
pub struct Config {
    /// Whether mouse events are reported.
    pub enable_mouse_capture: bool,
}

/// The cells to draw, each with the column and row it goes to.
pub open spec fn draw_list(content: Seq<(u16, u16, &Cell)>) -> Seq<(u16, u16, CellView)> {
    content.map_values(|t: (u16, u16, &Cell)| (t.0, t.1, t.2@))
}

/// The cells of a buffer over `area` after each cell of `cells` has been put
/// at its position, in order (a later cell at the same position wins).
pub open spec fn drawn(content: Seq<CellView>, area: Rect, cells: Seq<(u16, u16, CellView)>) -> Seq<
    CellView,
>
    decreases cells.len(),
{
    if cells.len() == 0 {
        content
    } else {
        let last = cells.last();
        drawn(content, area, cells.drop_last()).update(index_in(area, last.0 as int, last.1 as int), last.2)
    }
}

/// A backend that draws into a buffer in memory, for tests.
pub struct TestBackend {
    width: u16,
    buffer: Buffer,
    height: u16,
    cursor: bool,
    pos: (u16, u16),
}

pub struct TestBackendView {
    pub width: u16,
    pub height: u16,
    pub buffer: BufferView,
    pub cursor: bool,
    pub pos: (u16, u16),
}

impl View for TestBackend {
    type V = TestBackendView;

    closed spec fn view(&self) -> TestBackendView {
        TestBackendView {
            width: self.width,
            height: self.height,
            buffer: self.buffer@,
            cursor: self.cursor,
            pos: self.pos,
        }
    }
}

impl TestBackend {
    /// A `width` by `height` backend of blank cells, its cursor hidden at the
    /// origin.
    pub fn new(width: u16, height: u16) -> (r: TestBackend)
        ensures
            r@.width == width,
            r@.height == height,
            r@.buffer.area == (Rect { x: 0, y: 0, width, height }),
            r@.buffer.content == Seq::new((width * height) as nat, |i: int| blank_cell()),
            !r@.cursor,
            r@.pos == (0u16, 0u16),
    {
        TestBackend {
            width,
            height,
            buffer: Buffer::empty(Rect::new(0, 0, width, height)),
            cursor: false,
            pos: (0, 0),
        }
    }

    pub fn buffer(&self) -> (r: &Buffer)
        ensures
            r@ == self@.buffer,
    {
        &self.buffer
    }

    /// Changes the size; the buffer keeps the cells that still fit and is
    /// padded with blank cells.
    pub fn resize(&mut self, width: u16, height: u16)
        ensures
            final(self)@.width == width,
            final(self)@.height == height,
            final(self)@.buffer.area == (Rect { x: 0, y: 0, width, height }),
            final(self)@.buffer.content == crate::buffer::resized_content(
                old(self)@.buffer.content,
                (width * height) as nat,
            ),
            final(self)@.cursor == old(self)@.cursor,
            final(self)@.pos == old(self)@.pos,
    {
        self.buffer.resize(Rect::new(0, 0, width, height));
        self.width = width;
        self.height = height;
    }

    pub fn claim(&mut self, config: Config) -> (r: Result<(), std::io::Error>)
        ensures
            r is Ok,
            final(self)@ == old(self)@,
    {
        Ok(())
    }

    pub fn reconfigure(&mut self, config: Config) -> (r: Result<(), std::io::Error>)
        ensures
            r is Ok,
            final(self)@ == old(self)@,
    {
        Ok(())
    }

    pub fn restore(&mut self, config: Config) -> (r: Result<(), std::io::Error>)
        ensures
            r is Ok,
            final(self)@ == old(self)@,
    {
        Ok(())
    }

    pub fn force_restore() -> (r: Result<(), std::io::Error>)
        ensures
            r is Ok,
    {
        Ok(())
    }

    /// Puts each cell at its position, in order.
    pub fn draw(&mut self, content: &[(u16, u16, &Cell)]) -> (r: Result<(), std::io::Error>)
        requires
            forall|i: int|
                0 <= i < content@.len() ==> #[trigger] in_area(
                    old(self)@.buffer.area,
                    content@[i].0 as int,
                    content@[i].1 as int,
                ),
        ensures
            r is Ok,
            final(self)@.buffer.area == old(self)@.buffer.area,
            final(self)@.buffer.content == drawn(
                old(self)@.buffer.content,
                old(self)@.buffer.area,
                draw_list(content@),
            ),
            final(self)@.width == old(self)@.width,
            final(self)@.height == old(self)@.height,
            final(self)@.cursor == old(self)@.cursor,
            final(self)@.pos == old(self)@.pos,
    {
        let ghost area = self.buffer@.area;
        let ghost start = self.buffer@.content;
        let mut i: usize = 0;
        while i < content.len()
            invariant
                i <= content@.len(),
                self.buffer@.area == area,
                self@.width == old(self)@.width,
                self@.height == old(self)@.height,
                self@.cursor == old(self)@.cursor,
                self@.pos == old(self)@.pos,
                area == old(self)@.buffer.area,
                start == old(self)@.buffer.content,
                forall|k: int|
                    0 <= k < content@.len() ==> #[trigger] in_area(
                        area,
                        content@[k].0 as int,
                        content@[k].1 as int,
                    ),
                self.buffer@.content == drawn(start, area, draw_list(content@).take(i as int)),
            decreases content.len() - i,
        {
            let (x, y, c) = content[i];
            self.buffer.set(x, y, c.duplicate());
            proof {
                assert(draw_list(content@).take(i + 1).drop_last() =~= draw_list(content@).take(i as int));
            }
            i = i + 1;
        }
        proof {
            assert(draw_list(content@).take(i as int) =~= draw_list(content@));
        }
        Ok(())
    }

    pub fn hide_cursor(&mut self) -> (r: Result<(), std::io::Error>)
        ensures
            r is Ok,
            final(self)@ == (TestBackendView { cursor: false, ..old(self)@ }),
    {
        self.cursor = false;
        Ok(())
    }

    /// Shows the cursor, whatever its shape.
    pub fn show_cursor(&mut self, kind: CursorKind) -> (r: Result<(), std::io::Error>)
        ensures
            r is Ok,
            final(self)@ == (TestBackendView { cursor: true, ..old(self)@ }),
    {
        self.cursor = true;
        Ok(())
    }

    pub fn get_cursor(&mut self) -> (r: Result<(u16, u16), std::io::Error>)
        ensures
            r == Ok::<(u16, u16), std::io::Error>(cursor_read(old(self)@)),
            final(self)@ == old(self)@,
    {
        Ok(self.pos)
    }

    /// Moves the cursor; any position is accepted.
    pub fn set_cursor(&mut self, x: u16, y: u16) -> (r: Result<(), std::io::Error>)
        ensures
            r is Ok,
            final(self)@ == cursor_moved(old(self)@, x, y),
    {
        self.pos = (x, y);
        Ok(())
    }

    /// Makes every cell blank.
    pub fn clear(&mut self) -> (r: Result<(), std::io::Error>)
        ensures
            r is Ok,
            final(self)@.buffer.area == old(self)@.buffer.area,
            final(self)@.buffer.content == Seq::new(old(self)@.buffer.content.len(), |i: int| blank_cell()),
            final(self)@.width == old(self)@.width,
            final(self)@.height == old(self)@.height,
            final(self)@.cursor == old(self)@.cursor,
            final(self)@.pos == old(self)@.pos,
    {
        self.buffer.reset();
        Ok(())
    }

    /// The backend's size, from the origin.
    pub fn size(&self) -> (r: Result<Rect, std::io::Error>)
        ensures
            r == Ok::<Rect, std::io::Error>(Rect { x: 0, y: 0, width: self@.width, height: self@.height }),
    {
        Ok(Rect::new(0, 0, self.width, self.height))
    }

    pub fn flush(&mut self) -> (r: Result<(), std::io::Error>)
        ensures
            r is Ok,
            final(self)@ == old(self)@,
    {
        Ok(())
    }
}

/// The position a test backend reports for its cursor.
pub open spec fn cursor_read(v: TestBackendView) -> (u16, u16) {
    v.pos
}

/// A test backend after its cursor is moved to `(x, y)`.
pub open spec fn cursor_moved(v: TestBackendView, x: u16, y: u16) -> TestBackendView {
    TestBackendView { pos: (x, y), ..v }
}

/// The cursor reads back where it was last moved, and showing or hiding it
/// does not move it.
pub proof fn lemma_cursor_reads_back(v: TestBackendView, x: u16, y: u16, shown: bool)
    ensures
        cursor_read(cursor_moved(v, x, y)) == (x, y),
        cursor_read(TestBackendView { cursor: shown, ..cursor_moved(v, x, y) }) == (x, y),
{
}

/// Every cell of the buffer's (saturated) area is held.
pub open spec fn rt_buffer_wf(b: rt::BufferView) -> bool {
    b.content.len() == b.area.spec_area()
}

/// The buffer after it is matched to the terminal's size: resized where its
/// area differs, left alone where it is the same.
pub open spec fn synced(b: rt::BufferView, size: rt::Rect) -> rt::BufferView {
    if b.area != size {
        rt::resized(b, size)
    } else {
        b
    }
}

/// The buffer after `c` is put at column `x` and row `y`, counted from the
/// buffer's corner; a position outside the area or past the held cells is
/// passed over.
pub open spec fn placed(b: rt::BufferView, x: u16, y: u16, c: rt::CellView) -> rt::BufferView {
    let idx = y * b.area.width + x;
    if x < b.area.width && y < b.area.height && idx < b.content.len() {
        rt::BufferView { content: b.content.update(idx, c), ..b }
    } else {
        b
    }
}

/// The buffer after each cell of `cells`, converted to ratatui's, is placed
/// in order.
pub open spec fn placed_all(b: rt::BufferView, cells: Seq<(u16, u16, CellView)>) -> rt::BufferView
    decreases cells.len(),
{
    if cells.len() == 0 {
        b
    } else {
        let last = cells.last();
        placed(placed_all(b, cells.drop_last()), last.0, last.1, cell_to_ratatui(last.2))
    }
}

/// Every cell of the buffer with its column and row: the cell held at `i`
/// goes to column `i % width`, row `i / width`.
pub open spec fn frame_of(b: rt::BufferView) -> Seq<(u16, u16, rt::CellView)> {
    Seq::new(
        b.content.len(),
        |i: int| ((i % (b.area.width as int)) as u16, (i / (b.area.width as int)) as u16, b.content[i]),
    )
}

pub open spec fn frame_view(f: Seq<(u16, u16, rt::Cell)>) -> Seq<(u16, u16, rt::CellView)> {
    f.map_values(|t: (u16, u16, rt::Cell)| (t.0, t.1, t.2@))
}

/// The ratatui cells of a frame being built: one cell for each position of
/// its area.
pub struct FrameBuffer {
    buffer: rt::Buffer,
}

impl View for FrameBuffer {
    type V = rt::BufferView;

    closed spec fn view(&self) -> rt::BufferView {
        self.buffer@
    }
}

impl FrameBuffer {
    #[verifier::type_invariant]
    closed spec fn inv(self) -> bool {
        rt_buffer_wf(self.buffer@)
    }

    /// Blank cells over `area`.
    pub fn empty(area: rt::Rect) -> (r: FrameBuffer)
        ensures
            r@ == (rt::BufferView { area, content: rt::blank_cells(area.spec_area() as nat) }),
    {
        FrameBuffer { buffer: rt::Buffer::empty(area) }
    }

    /// The area; every position of it holds a cell.
    pub fn area(&self) -> (r: rt::Rect)
        ensures
            r == self@.area,
            rt_buffer_wf(self@),
    {
        proof {
            use_type_invariant(self);
        }
        self.buffer.area
    }

    pub fn len(&self) -> (r: usize)
        ensures
            r == self@.content.len(),
    {
        self.buffer.content.len()
    }

    /// The cell held at `k`.
    pub fn cell(&self, k: usize) -> (r: &rt::Cell)
        requires
            k < self@.content.len(),
        ensures
            r@ == self@.content[k as int],
    {
        &self.buffer.content[k]
    }

    /// Puts `cell` at place `k`.
    pub fn put(&mut self, k: usize, cell: rt::Cell)
        requires
            k < old(self)@.content.len(),
        ensures
            final(self)@ == (rt::BufferView { content: old(self)@.content.update(k as int, cell@), ..old(self)@ }),
        no_unwind
    {
        proof {
            use_type_invariant(&*self);
        }
        let ghost before = self.buffer.content@;
        self.buffer.content[k] = cell;
        proof {
            assert(self.buffer.content@.map_values(|c: rt::Cell| c@) =~= before.map_values(|c: rt::Cell| c@).update(
                k as int,
                cell@,
            ));
        }
    }

    /// Matches the buffer to `size`: resized where its area differs.
    pub fn sync(&mut self, size: rt::Rect)
        ensures
            final(self)@ == synced(old(self)@, size),
    {
        proof {
            use_type_invariant(&*self);
        }
        if self.buffer.area != size {
            let mut b = rt::Buffer::empty(rt::Rect { x: 0, y: 0, width: 0, height: 0 });
            std::mem::swap(&mut self.buffer, &mut b);
            b.resize(size);
            self.buffer = b;
        }
    }
}

/// Drives a ratatui backend with frames of this crate's cells: it keeps a
/// ratatui buffer the size of the terminal, puts the converted cells in it,
/// and hands the whole buffer to the backend.
pub struct RatatuiBackendAdapter<B> {
    backend: B,
    /// The ratatui cells of the frame being built.
    ratatui_buffer: FrameBuffer,
}

impl<B> RatatuiBackendAdapter<B> {
    pub closed spec fn spec_backend(&self) -> B {
        self.backend
    }

    pub closed spec fn spec_buffer(&self) -> rt::BufferView {
        self.ratatui_buffer@
    }

    /// An adapter for `backend`, whose terminal is `size`: its buffer holds a
    /// blank cell for each cell of that size.
    pub fn new(backend: B, size: rt::Rect) -> (r: Self)
        ensures
            r.spec_backend() == backend,
            r.spec_buffer() == (rt::BufferView { area: size, content: rt::blank_cells(size.spec_area() as nat) }),
            rt_buffer_wf(r.spec_buffer()),
    {
        let ratatui_buffer = FrameBuffer::empty(size);
        RatatuiBackendAdapter { backend, ratatui_buffer }
    }

    pub fn inner(&self) -> (r: &B)
        ensures
            *r == self.spec_backend(),
            rt_buffer_wf(self.spec_buffer()),
    {
        proof {
            use_type_invariant(&self.ratatui_buffer);
        }
        &self.backend
    }

    pub fn inner_mut(&mut self) -> (r: &mut B)
        ensures
            *r == old(self).spec_backend(),
            final(self).spec_backend() == *final(r),
            final(self).spec_buffer() == old(self).spec_buffer(),
            rt_buffer_wf(final(self).spec_buffer()),
    {
        proof {
            use_type_invariant(&self.ratatui_buffer);
        }
        &mut self.backend
    }

    /// The area of the frame being built; it holds one cell for each
    /// position of that area.
    pub fn frame_area(&self) -> (r: rt::Rect)
        ensures
            r == self.spec_buffer().area,
            rt_buffer_wf(self.spec_buffer()),
    {
        self.ratatui_buffer.area()
    }

    /// Matches the buffer to the terminal's size: resizes it where its area
    /// differs from `size`.
    pub fn sync_buffer_size(&mut self, size: rt::Rect)
        ensures
            final(self).spec_buffer() == synced(old(self).spec_buffer(), size),
            final(self).spec_backend() == old(self).spec_backend(),
            rt_buffer_wf(old(self).spec_buffer()),
            rt_buffer_wf(final(self).spec_buffer()),
            final(self).spec_buffer().area == size,
    {
        proof {
            use_type_invariant(&self.ratatui_buffer);
        }
        self.ratatui_buffer.sync(size);
        proof {
            use_type_invariant(&self.ratatui_buffer);
        }
    }

    /// Builds the frame to draw on a terminal of `size`: matches the buffer to
    /// the size, puts each cell of `content` (converted) at its position where
    /// that lies inside the buffer, and returns every cell of the buffer with
    /// its column and row.
    pub fn compose_frame(&mut self, size: rt::Rect, content: &[(u16, u16, &Cell)]) -> (r: Vec<
        (u16, u16, rt::Cell),
    >)
        ensures
            final(self).spec_buffer() == placed_all(synced(old(self).spec_buffer(), size), draw_list(content@)),
            frame_view(r@) == frame_of(final(self).spec_buffer()),
            final(self).spec_backend() == old(self).spec_backend(),
            rt_buffer_wf(old(self).spec_buffer()),
            rt_buffer_wf(final(self).spec_buffer()),
            final(self).spec_buffer().area == size,
            r@.len() == size.spec_area(),
    {
        self.sync_buffer_size(size);
        let ghost start = self.spec_buffer();
        let mut i: usize = 0;
        while i < content.len()
            invariant
                i <= content@.len(),
                self.spec_backend() == old(self).spec_backend(),
                self.spec_buffer() == placed_all(start, draw_list(content@).take(i as int)),
                self.spec_buffer().area == start.area,
            decreases content.len() - i,
        {
            let (x, y, helix_cell) = content[i];
            let ratatui_cell = convert_cell(helix_cell);
            let area = self.ratatui_buffer.area();
            if x < area.width && y < area.height {
                proof {
                    let w = area.width as int;
                    assert(y * w + x < 65535 * 65535) by (nonlinear_arith)
                        requires
                            0 <= y < 65535,
                            0 <= x < w,
                            w <= 65535,
                    ;
                }
                let index = (y as usize * area.width as usize) + x as usize;
                if index < self.ratatui_buffer.len() {
                    self.ratatui_buffer.put(index, ratatui_cell);
                }
            }
            proof {
                assert(draw_list(content@).take(i + 1).drop_last() =~= draw_list(content@).take(i as int));
            }
            i = i + 1;
        }
        proof {
            assert(draw_list(content@).take(i as int) =~= draw_list(content@));
        }
        let area = self.ratatui_buffer.area();
        let width = area.width;
        let n = self.ratatui_buffer.len();
        let mut frame: Vec<(u16, u16, rt::Cell)> = Vec::new();
        let mut k: usize = 0;
        while k < n
            invariant
                k <= n,
                n == self.spec_buffer().content.len(),
                area == self.spec_buffer().area,
                width == area.width,
                rt_buffer_wf(self.spec_buffer()),
                frame@.len() == k,
                forall|j: int| 0 <= j < k ==> #[trigger] frame_view(frame@)[j] == frame_of(self.spec_buffer())[j],
            decreases n - k,
        {
            proof {
                lemma_frame_position(k as int, width as int, area.height as int);
            }
            let x = (k % width as usize) as u16;
            let y = (k / width as usize) as u16;
            let ghost before = frame@;
            frame.push((x, y, self.ratatui_buffer.cell(k).duplicate()));
            proof {
                assert(frame_view(frame@) =~= frame_view(before).push(frame_of(self.spec_buffer())[k as int]));
            }
            k = k + 1;
        }
        proof {
            assert(frame_view(frame@) =~= frame_of(self.spec_buffer()));
        }
        frame
    }
}

/// A position held in a buffer of `width` by `height` cells has a column
/// below the width and a row below the height.
proof fn lemma_frame_position(k: int, width: int, height: int)
    requires
        0 <= k < width * height,
        0 <= width <= 65535,
        0 <= height <= 65535,
    ensures
        width > 0,
        0 <= k % width < width,
        0 <= k / width < height,
{
    assert(width > 0) by (nonlinear_arith)
        requires
            0 <= k < width * height,
            0 <= width,
            0 <= height,
    ;
    assert(0 <= k / width < height) by (nonlinear_arith)
        requires
            0 <= k < width * height,
            0 < width,
            0 <= height,
    ;
}

/// Placing cells keeps the buffer's area and its number of cells.
pub proof fn lemma_placed_all_keeps(b: rt::BufferView, cells: Seq<(u16, u16, CellView)>)
    ensures
        placed_all(b, cells).area == b.area,
        placed_all(b, cells).content.len() == b.content.len(),
    decreases cells.len(),
{
    if cells.len() > 0 {
        lemma_placed_all_keeps(b, cells.drop_last());
    }
}

/// Every frame built for a terminal of `size` holds one cell for each
/// position of the terminal, row by row: the cell held at `i` is drawn at
/// column `i % width` and row `i / width`.
pub proof fn lemma_frame_covers_terminal(b: rt::BufferView, size: rt::Rect, cells: Seq<(u16, u16, CellView)>)
    requires
        rt_buffer_wf(b),
    ensures
        ({
            let f = placed_all(synced(b, size), cells);
            &&& f.area == size
            &&& rt_buffer_wf(f)
            &&& frame_of(f).len() == size.spec_area()
            &&& forall|i: int|
                0 <= i < size.spec_area() ==> #[trigger] frame_of(f)[i] == (
                    (i % (size.width as int)) as u16,
                    (i / (size.width as int)) as u16,
                    f.content[i],
                )
        }),
{
    lemma_placed_all_keeps(synced(b, size), cells);
}

/// A cell placed inside the buffer shows up in the frame at the position it
/// was placed at.
pub proof fn lemma_frame_shows_placed(b: rt::BufferView, x: u16, y: u16, c: rt::CellView)
    requires
        rt_buffer_wf(b),
        x < b.area.width,
        y < b.area.height,
        y * b.area.width + x < b.content.len(),
    ensures
        frame_of(placed(b, x, y, c))[y * b.area.width + x] == (x, y, c),
{
    let w = b.area.width as int;
    vstd::arithmetic::div_mod::lemma_fundamental_div_mod_converse(y * w + x, w, y as int, x as int);
}

/// What the adapter asks of the backend's cursor.
#[derive(Debug, Clone, Copy, PartialEq, Eq, Structural)]
pub enum CursorRequest {
    Hide,
    Show,
}

/// Ratatui backends show one cursor shape: the hidden shape hides the cursor,
/// every other shape shows it.
pub fn show_cursor_request(kind: CursorKind) -> (r: CursorRequest)
    ensures
        r == (if kind == CursorKind::Hidden { CursorRequest::Hide } else { CursorRequest::Show }),
{
    match kind {
        CursorKind::Hidden => CursorRequest::Hide,
        _ => CursorRequest::Show,
    }
}

/// One terminal mode change.
#[derive(Debug, Clone, Copy, PartialEq, Eq, Structural)]
pub enum TerminalOp {
    EnableRawMode,
    DisableRawMode,
    EnterAlternateScreen,
    LeaveAlternateScreen,
    EnableFocusChange,
    DisableFocusChange,
    EnableBracketedPaste,
    DisableBracketedPaste,
    EnableMouseCapture,
    DisableMouseCapture,
}

/// What a failed step means for the sequence it is part of.
#[derive(Debug, Clone, Copy, PartialEq, Eq, Structural)]
pub enum OnError {
    /// The sequence stops with the error.
    Propagate,
    /// The sequence goes on where the terminal does not support the step, and
    /// stops with any other error.
    IgnoreUnsupported,
    /// The sequence goes on.
    Ignore,
}

/// Mode changes sent to the terminal together, and what a failure of them
/// means.
pub struct TerminalStep {
    pub ops: Vec<TerminalOp>,
    pub on_error: OnError,
}

pub open spec fn steps_view(steps: Seq<TerminalStep>) -> Seq<(Seq<TerminalOp>, OnError)> {
    steps.map_values(|s: TerminalStep| (s.ops@, s.on_error))
}

/// Taking the terminal over: raw mode; the alternate screen and focus
/// reports; bracketed paste, which a terminal may not support; and mouse
/// capture where the configuration asks for it.
pub open spec fn claim_sequence(config: Config) -> Seq<(Seq<TerminalOp>, OnError)> {
    let base = seq![
        (seq![TerminalOp::EnableRawMode], OnError::Propagate),
        (seq![TerminalOp::EnterAlternateScreen, TerminalOp::EnableFocusChange], OnError::Propagate),
        (seq![TerminalOp::EnableBracketedPaste], OnError::IgnoreUnsupported),
    ];
    if config.enable_mouse_capture {
        base.push((seq![TerminalOp::EnableMouseCapture], OnError::Propagate))
    } else {
        base
    }
}

/// Applying a changed configuration: mouse capture on or off as it asks.
pub open spec fn reconfigure_sequence(config: Config) -> Seq<(Seq<TerminalOp>, OnError)> {
    if config.enable_mouse_capture {
        seq![(seq![TerminalOp::EnableMouseCapture], OnError::Propagate)]
    } else {
        seq![(seq![TerminalOp::DisableMouseCapture], OnError::Propagate)]
    }
}

/// Giving the terminal back: mouse capture off where it was on; bracketed
/// paste off; focus reports off and the alternate screen left; raw mode off.
pub open spec fn restore_sequence(config: Config) -> Seq<(Seq<TerminalOp>, OnError)> {
    let rest = seq![
        (seq![TerminalOp::DisableBracketedPaste], OnError::Propagate),
        (seq![TerminalOp::DisableFocusChange, TerminalOp::LeaveAlternateScreen], OnError::Propagate),
        (seq![TerminalOp::DisableRawMode], OnError::Propagate),
    ];
    if config.enable_mouse_capture {
        seq![(seq![TerminalOp::DisableMouseCapture], OnError::Propagate)] + rest
    } else {
        rest
    }
}

/// Giving the terminal back whatever state it is in: every mode change of a
/// restore with mouse capture, each tried whatever the others gave.
pub open spec fn force_restore_sequence() -> Seq<(Seq<TerminalOp>, OnError)> {
    seq![
        (seq![TerminalOp::DisableMouseCapture], OnError::Ignore),
        (seq![TerminalOp::DisableBracketedPaste], OnError::Ignore),
        (seq![TerminalOp::DisableFocusChange, TerminalOp::LeaveAlternateScreen], OnError::Ignore),
        (seq![TerminalOp::DisableRawMode], OnError::Ignore),
    ]
}

fn step1(op: TerminalOp, on_error: OnError) -> (r: TerminalStep)
    ensures
        r.ops@ == seq![op],
        r.on_error == on_error,
{
    let mut ops = Vec::new();
    ops.push(op);
    proof {
        assert(ops@ =~= seq![op]);
    }
    TerminalStep { ops, on_error }
}

fn step2(first: TerminalOp, second: TerminalOp, on_error: OnError) -> (r: TerminalStep)
    ensures
        r.ops@ == seq![first, second],
        r.on_error == on_error,
{
    let mut ops = Vec::new();
    ops.push(first);
    ops.push(second);
    proof {
        assert(ops@ =~= seq![first, second]);
    }
    TerminalStep { ops, on_error }
}

/// The steps that take the terminal over.
pub fn claim_steps(config: Config) -> (r: Vec<TerminalStep>)
    ensures
        steps_view(r@) == claim_sequence(config),
{
    let mut steps = Vec::new();
    steps.push(step1(TerminalOp::EnableRawMode, OnError::Propagate));
    steps.push(step2(TerminalOp::EnterAlternateScreen, TerminalOp::EnableFocusChange, OnError::Propagate));
    steps.push(step1(TerminalOp::EnableBracketedPaste, OnError::IgnoreUnsupported));
    if config.enable_mouse_capture {
        steps.push(step1(TerminalOp::EnableMouseCapture, OnError::Propagate));
    }
    proof {
        assert(steps_view(steps@) =~= claim_sequence(config));
    }
    steps
}

/// The steps that apply a changed configuration.
pub fn reconfigure_steps(config: Config) -> (r: Vec<TerminalStep>)
    ensures
        steps_view(r@) == reconfigure_sequence(config),
{
    let mut steps = Vec::new();
    if config.enable_mouse_capture {
        steps.push(step1(TerminalOp::EnableMouseCapture, OnError::Propagate));
    } else {
        steps.push(step1(TerminalOp::DisableMouseCapture, OnError::Propagate));
    }
    proof {
        assert(steps_view(steps@) =~= reconfigure_sequence(config));
    }
    steps
}

/// The steps that give the terminal back.
pub fn restore_steps(config: Config) -> (r: Vec<TerminalStep>)
    ensures
        steps_view(r@) == restore_sequence(config),
{
    let mut steps = Vec::new();
    if config.enable_mouse_capture {
        steps.push(step1(TerminalOp::DisableMouseCapture, OnError::Propagate));
    }
    steps.push(step1(TerminalOp::DisableBracketedPaste, OnError::Propagate));
    steps.push(step2(TerminalOp::DisableFocusChange, TerminalOp::LeaveAlternateScreen, OnError::Propagate));
    steps.push(step1(TerminalOp::DisableRawMode, OnError::Propagate));
    proof {
        assert(steps_view(steps@) =~= restore_sequence(config));
    }
    steps
}

/// The steps that give the terminal back whatever fails.
pub fn force_restore_steps() -> (r: Vec<TerminalStep>)
    ensures
        steps_view(r@) == force_restore_sequence(),
{
    let mut steps = Vec::new();
    steps.push(step1(TerminalOp::DisableMouseCapture, OnError::Ignore));
    steps.push(step1(TerminalOp::DisableBracketedPaste, OnError::Ignore));
    steps.push(step2(TerminalOp::DisableFocusChange, TerminalOp::LeaveAlternateScreen, OnError::Ignore));
    steps.push(step1(TerminalOp::DisableRawMode, OnError::Ignore));
    proof {
        assert(steps_view(steps@) =~= force_restore_sequence());
    }
    steps
}

/// Whether a sequence goes on after a step failed: always where its failures
/// are ignored, only where the terminal does not support the step where
/// unsupported steps are passed over, and never where failures stop it.
pub fn continues_after_failure(on_error: OnError, unsupported: bool) -> (r: bool)
    ensures
        r == match on_error {
            OnError::Propagate => false,
            OnError::IgnoreUnsupported => unsupported,
            OnError::Ignore => true,
        },
{
    match on_error {
        OnError::Propagate => false,
        OnError::IgnoreUnsupported => unsupported,
        OnError::Ignore => true,
    }
}

/// The mode change that undoes `op`.
pub open spec fn undoing(op: TerminalOp) -> TerminalOp {
    match op {
        TerminalOp::EnableRawMode => TerminalOp::DisableRawMode,
        TerminalOp::DisableRawMode => TerminalOp::EnableRawMode,
        TerminalOp::EnterAlternateScreen => TerminalOp::LeaveAlternateScreen,
        TerminalOp::LeaveAlternateScreen => TerminalOp::EnterAlternateScreen,
        TerminalOp::EnableFocusChange => TerminalOp::DisableFocusChange,
        TerminalOp::DisableFocusChange => TerminalOp::EnableFocusChange,
        TerminalOp::EnableBracketedPaste => TerminalOp::DisableBracketedPaste,
        TerminalOp::DisableBracketedPaste => TerminalOp::EnableBracketedPaste,
        TerminalOp::EnableMouseCapture => TerminalOp::DisableMouseCapture,
        TerminalOp::DisableMouseCapture => TerminalOp::EnableMouseCapture,
    }
}

/// Whether some step of `steps` makes the mode change `op`.
pub open spec fn sequence_has(steps: Seq<(Seq<TerminalOp>, OnError)>, op: TerminalOp) -> bool {
    exists|i: int, j: int| 0 <= i < steps.len() && 0 <= j < steps[i].0.len() && steps[i].0[j] == op
}

/// Taking the terminal over puts it in raw mode first, enters the alternate
/// screen, turns focus reports and bracketed paste on, and captures the
/// mouse exactly where the configuration asks; every failure stops it but
/// that of bracketed paste on a terminal without it.
pub proof fn lemma_claim_takes_over(config: Config)
    ensures
        claim_sequence(config)[0] == (seq![TerminalOp::EnableRawMode], OnError::Propagate),
        sequence_has(claim_sequence(config), TerminalOp::EnterAlternateScreen),
        sequence_has(claim_sequence(config), TerminalOp::EnableFocusChange),
        sequence_has(claim_sequence(config), TerminalOp::EnableBracketedPaste),
        sequence_has(claim_sequence(config), TerminalOp::EnableMouseCapture) <==> config.enable_mouse_capture,
        forall|i: int|
            0 <= i < claim_sequence(config).len() ==> (#[trigger] claim_sequence(config)[i]).1 == (if claim_sequence(
                config,
            )[i].0 == seq![TerminalOp::EnableBracketedPaste] {
                OnError::IgnoreUnsupported
            } else {
                OnError::Propagate
            }),
{
    let c = claim_sequence(config);
    assert(c[1].0[0] == TerminalOp::EnterAlternateScreen);
    assert(c[1].0[1] == TerminalOp::EnableFocusChange);
    assert(c[2].0[0] == TerminalOp::EnableBracketedPaste);
    if config.enable_mouse_capture {
        assert(c[3].0[0] == TerminalOp::EnableMouseCapture);
    } else {
        assert forall|i: int, j: int| 0 <= i < c.len() && 0 <= j < c[i].0.len() implies c[i].0[j]
            != TerminalOp::EnableMouseCapture by {
            assert(0 <= i < 3);
        }
    }
    assert(c[0].0 != seq![TerminalOp::EnableBracketedPaste]) by {
        assert(c[0].0[0] != seq![TerminalOp::EnableBracketedPaste][0]);
    }
    assert(c[1].0 != seq![TerminalOp::EnableBracketedPaste]) by {
        assert(c[1].0.len() != seq![TerminalOp::EnableBracketedPaste].len());
    }
    if config.enable_mouse_capture {
        assert(c[3].0 != seq![TerminalOp::EnableBracketedPaste]) by {
            assert(c[3].0[0] != seq![TerminalOp::EnableBracketedPaste][0]);
        }
    }
}

/// Restoring makes no change that does not undo one that taking over made,
/// and it ends by leaving raw mode.
pub proof fn lemma_restore_only_undoes(config: Config, i: int, j: int)
    requires
        0 <= i < restore_sequence(config).len(),
        0 <= j < restore_sequence(config)[i].0.len(),
    ensures
        sequence_has(claim_sequence(config), undoing(restore_sequence(config)[i].0[j])),
        restore_sequence(config).last() == (seq![TerminalOp::DisableRawMode], OnError::Propagate),
{
    let c = claim_sequence(config);
    let r = restore_sequence(config);
    let op = r[i].0[j];
    assert(c[0].0[0] == TerminalOp::EnableRawMode);
    assert(c[1].0[0] == TerminalOp::EnterAlternateScreen);
    assert(c[1].0[1] == TerminalOp::EnableFocusChange);
    assert(c[2].0[0] == TerminalOp::EnableBracketedPaste);
    if config.enable_mouse_capture {
        assert(c[3].0[0] == TerminalOp::EnableMouseCapture);
    }
}

/// Restoring undoes taking over: for the same configuration, every mode
/// change that taking the terminal over makes is undone by restoring it, and
/// by forcing it back.
pub proof fn lemma_restore_undoes_claim(config: Config, i: int, j: int)
    requires
        0 <= i < claim_sequence(config).len(),
        0 <= j < claim_sequence(config)[i].0.len(),
    ensures
        sequence_has(restore_sequence(config), undoing(claim_sequence(config)[i].0[j])),
        sequence_has(force_restore_sequence(), undoing(claim_sequence(config)[i].0[j])),
{
    let op = claim_sequence(config)[i].0[j];
    let r = restore_sequence(config);
    let f = force_restore_sequence();
    let off = if config.enable_mouse_capture { 1int } else { 0int };
    if op == TerminalOp::EnableRawMode {
        assert(r[2 + off].0[0] == undoing(op));
    } else if op == TerminalOp::EnterAlternateScreen {
        assert(r[1 + off].0[1] == undoing(op));
    } else if op == TerminalOp::EnableFocusChange {
        assert(r[1 + off].0[0] == undoing(op));
    } else if op == TerminalOp::EnableBracketedPaste {
        assert(r[off].0[0] == undoing(op));
    } else {
        assert(op == TerminalOp::EnableMouseCapture);
        assert(r[0].0[0] == undoing(op));
    }
    if op == TerminalOp::EnableRawMode {
        assert(f[3].0[0] == undoing(op));
    } else if op == TerminalOp::EnterAlternateScreen {
        assert(f[2].0[1] == undoing(op));
    } else if op == TerminalOp::EnableFocusChange {
        assert(f[2].0[0] == undoing(op));
    } else if op == TerminalOp::EnableBracketedPaste {
        assert(f[1].0[0] == undoing(op));
    } else {
        assert(f[0].0[0] == undoing(op));
    }
}

} // verus!
