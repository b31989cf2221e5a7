# helix_tui

Terminal UI building blocks for a text editor, with their behaviour proved
by Verus:

- `graphics`: colours, modifiers, styles and rectangles.
- `buffer`: cells and the buffer a frame is drawn into (reading and writing
  cells, writing text cluster by cluster, clearing, resizing, and the
  difference between two frames).
- `ratatui_types`: the values of ratatui's data model that the library
  reads and writes, and the two ratatui layout calls it makes.
- `compat`: the conversions between this crate's graphics model and
  ratatui's, with their round-trip laws.
- `widgets`: borders, border types, blocks and paragraphs, and the ratatui
  widget settings they stand for.
- `backend`: the in-memory test backend, the frame the ratatui adapter
  builds, and the terminal set-up and tear-down sequences.
- `ui`: the info popup's layout, table state and copying rendered cells
  back into a buffer.
- `text`: styled text (spans, lines, text split into lines), and grapheme
  clusters and display widths, through `unicode-segmentation` and
  `unicode-width`.

`app/` holds what Verus does not see: the backend trait and its
implementations that talk to the terminal through crossterm, and widget
rendering through ratatui.
