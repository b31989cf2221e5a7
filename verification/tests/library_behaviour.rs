use helix_tui::backend::{
    claim_steps, continues_after_failure, force_restore_steps, reconfigure_steps, restore_steps,
    show_cursor_request, Config, CursorRequest, OnError, RatatuiBackendAdapter, TerminalOp, TestBackend,
};
use helix_tui::buffer::{Buffer, Cell};
use helix_tui::compat::{
    convert_border_type, convert_borders, convert_cell, convert_cell_back, convert_color, convert_color_back,
    convert_cursor_kind, convert_modifier, convert_modifier_back, convert_style,
};
use helix_tui::graphics::{Color, CursorKind, Modifier, Rect, Style, UnderlineStyle};
use helix_tui::ratatui_types as rt;
use helix_tui::ui::{bordered_block, copy_rendered_cells, get_block_inner_area, table_state, Info, TableState};
use helix_tui::text::{Span, Spans, Text};
use helix_tui::widgets::{Alignment, Block, BorderType, Borders, Paragraph, Wrap};

fn all_colors() -> Vec<Color> {
    let mut v = vec![
        Color::Reset,
        Color::Black,
        Color::Red,
        Color::Green,
        Color::Yellow,
        Color::Blue,
        Color::Magenta,
        Color::Cyan,
        Color::Gray,
        Color::LightRed,
        Color::LightGreen,
        Color::LightYellow,
        Color::LightBlue,
        Color::LightMagenta,
        Color::LightCyan,
        Color::LightGray,
        Color::White,
    ];
    v.push(Color::Rgb(1, 2, 3));
    v.push(Color::Indexed(200));
    v
}

#[test]
fn color_round_trip_every_variant() {
    for c in all_colors() {
        assert_eq!(convert_color_back(convert_color(c)), c);
    }
    assert_eq!(convert_color(Color::Gray), rt::Color::DarkGray);
    assert_eq!(convert_color(Color::LightGray), rt::Color::Gray);
    assert_eq!(convert_color_back(rt::Color::DarkGray), Color::Gray);
    assert_eq!(convert_color_back(rt::Color::Gray), Color::LightGray);
}

#[test]
fn modifier_conversion_keeps_flags_and_drops_underlined() {
    let m = Modifier::bold().union(Modifier::slow_blink()).union(Modifier::crossed_out());
    let r = convert_modifier(m);
    assert_eq!(r.bits(), 0b1_0001_0001);
    assert_eq!(convert_modifier_back(r), m);
    let u = rt::Modifier::underlined().union(rt::Modifier::hidden());
    assert_eq!(convert_modifier_back(u).bits(), 0b1000_0000);
    assert_eq!(convert_modifier(Modifier::from_bits_truncate(0xffff)).bits(), 0b1_1111_0111);
}

#[test]
fn style_conversion_drops_underline_and_removals() {
    let style = Style::default()
        .fg(Color::Gray)
        .underline_color(Color::Red)
        .underline_style(UnderlineStyle::Curl)
        .remove_modifier(Modifier::dim())
        .add_modifier(Modifier::hidden());
    let r = convert_style(style);
    assert_eq!(r.fg, Some(rt::Color::DarkGray));
    assert_eq!(r.bg, None);
    assert_eq!(r.underline_color, None);
    assert_eq!(r.add_modifier.bits(), 0b1000_0000);
    assert_eq!(r.sub_modifier.bits(), 0);
}

#[test]
fn cell_conversion_round_trip_resets_underline() {
    let cell = Cell {
        symbol: "λ".to_string(),
        fg: Color::LightGray,
        bg: Color::Rgb(9, 8, 7),
        underline_color: Color::Blue,
        underline_style: UnderlineStyle::Dotted,
        modifier: Modifier::dim().union(Modifier::hidden()),
    };
    let r = convert_cell(&cell);
    assert_eq!(r.symbol(), "λ");
    assert_eq!(r.fg, rt::Color::Gray);
    assert_eq!(r.underline_color, rt::Color::Reset);
    assert!(!r.skip);
    let back = convert_cell_back(&r);
    assert_eq!(back.symbol, "λ");
    assert_eq!(back.fg, Color::LightGray);
    assert_eq!(back.bg, Color::Rgb(9, 8, 7));
    assert_eq!(back.modifier, cell.modifier);
    assert_eq!(back.underline_color, Color::Reset);
    assert_eq!(back.underline_style, UnderlineStyle::Reset);
}

#[test]
fn cursor_kind_passes_through() {
    assert_eq!(convert_cursor_kind(CursorKind::Bar), CursorKind::Bar);
    assert_eq!(show_cursor_request(CursorKind::Hidden), CursorRequest::Hide);
    assert_eq!(show_cursor_request(CursorKind::Underline), CursorRequest::Show);
}

#[test]
fn block_inner_shrinks_by_borders() {
    let area = Rect::new(10, 20, 30, 8);
    assert_eq!(Block::bordered().inner(area), Rect::new(11, 21, 28, 6));
    assert_eq!(Block::new().inner(area), area);
    let top_left = Block::new().borders(Borders::top().union(Borders::left()));
    assert_eq!(top_left.inner(area), Rect::new(11, 21, 29, 7));
    // Saturation at both ends.
    assert_eq!(Block::bordered().inner(Rect::new(u16::MAX, u16::MAX, 1, 0)), Rect::new(u16::MAX, u16::MAX, 0, 0));
    assert_eq!(get_block_inner_area(&bordered_block(), area), Rect::new(11, 21, 28, 6));
}

#[test]
fn block_builders_set_fields() {
    let b = Block::new().title("T").border_type(BorderType::Double).style(Style::default().fg(Color::Red));
    assert_eq!(b.title, Some("T"));
    assert_eq!(b.border_type, BorderType::Double);
    assert_eq!(b.style.fg, Some(Color::Red));
    let b = b.border_style(Style::default().bg(Color::Blue));
    assert_eq!(b.style.fg, None);
    assert_eq!(b.style.bg, Some(Color::Blue));
    assert_eq!(BorderType::line_symbols(BorderType::Thick), BorderType::Thick);
    assert_eq!(BorderType::Rounded.horizontal(), "-");
    assert_eq!(BorderType::default(), BorderType::Plain);
    assert_eq!(Wrap::default(), Wrap { trim: false });
    assert_eq!(Alignment::default(), Alignment::Left);

    let cfg = b.to_ratatui_block();
    assert_eq!(cfg.title.as_deref(), Some("T"));
    assert_eq!(cfg.borders.bits, 0);
    assert_eq!(cfg.border_type, rt::BorderType::Double);
    assert_eq!(cfg.style.bg, Some(rt::Color::Blue));
    assert_eq!(convert_borders(Borders::all()).bits, 0b1111);
    assert_eq!(convert_border_type(BorderType::Plain), rt::BorderType::Plain);
}

#[test]
fn paragraph_builders_and_settings() {
    let text = Text::from_spans(Spans(vec![
        Span::raw("hello "),
        Span::styled("world", Style::default().fg(Color::Red).add_modifier(Modifier::bold())),
    ]));
    let p = Paragraph::new(text)
        .block(Block::bordered().title("x"))
        .style(Style::default().fg(Color::Green))
        .wrap(Wrap { trim: true })
        .alignment(Alignment::Center)
        .scroll((2, 3));
    assert_eq!(p.required_size(40), (1, 1));
    let cfg = p.to_ratatui_paragraph();
    assert_eq!(cfg.text.lines.len(), 1);
    let spans = &cfg.text.lines[0].spans;
    assert_eq!(spans.len(), 2);
    assert_eq!(spans[0].content, "hello ");
    assert_eq!(spans[0].style.fg, None);
    assert_eq!(spans[1].content, "world");
    assert_eq!(spans[1].style.fg, Some(rt::Color::Red));
    assert!(spans[1].style.add_modifier.contains(rt::Modifier::bold()));
    assert_eq!(cfg.alignment, rt::Alignment::Center);
    assert_eq!(cfg.wrap, Some(rt::Wrap { trim: true }));
    assert_eq!(cfg.scroll, (2, 3));
    assert_eq!(cfg.style.fg, Some(rt::Color::Green));
    let blk = cfg.block.unwrap();
    assert_eq!(blk.borders.bits, 0b1111);
    assert_eq!(blk.title.as_deref(), Some("x"));
    let plain = Paragraph::new(Text::raw("a")).to_ratatui_paragraph();
    assert!(plain.block.is_none());
    assert!(plain.wrap.is_none());
    assert_eq!(plain.alignment, rt::Alignment::Left);
}

#[test]
fn info_popup_sits_bottom_right() {
    let info = Info { title: "Help".to_string(), text: "abc".to_string(), width: 10, height: 3 };
    let layout = info.layout(Rect::new(0, 0, 80, 24));
    assert_eq!(layout.area, Rect::new(66, 17, 14, 5));
    // Border on every side, one column of margin on the left and right.
    assert_eq!(layout.inner, Rect::new(68, 18, 10, 3));

    // A viewport too small for the popup: it is cut to the viewport.
    let small = info.layout(Rect::new(0, 0, 8, 4));
    assert_eq!(small.area, Rect::new(0, 0, 8, 4));
    assert_eq!(small.inner, Rect::new(2, 1, 4, 2));

    // Too narrow for the margin: the text area is empty.
    let tiny = info.layout(Rect::new(0, 0, 3, 3));
    assert_eq!(tiny.inner, Rect::new(0, 0, 0, 0));
}

#[test]
fn table_state_holds_its_arguments() {
    assert_eq!(table_state(3, Some(5)), TableState { offset: 3, selected: Some(5) });
}

#[test]
fn copy_rendered_cells_keeps_background() {
    let mut surface = Buffer::empty(Rect::new(0, 0, 4, 2));
    surface.set(1, 0, Cell { bg: Color::Blue, ..Cell::default() });
    surface.set(2, 0, Cell { bg: Color::Blue, ..Cell::default() });
    let mut rendered = rt::Buffer::empty(rt::Rect { x: 1, y: 0, width: 2, height: 1 });
    rendered.content[0].set_symbol("a");
    rendered.content[1].set_symbol("b");
    rendered.content[1].bg = rt::Color::Red;
    copy_rendered_cells(&mut surface, &rendered);
    let c1 = surface.get(1, 0).unwrap();
    assert_eq!(c1.symbol, "a");
    assert_eq!(c1.bg, Color::Blue);
    let c2 = surface.get(2, 0).unwrap();
    assert_eq!(c2.symbol, "b");
    assert_eq!(c2.bg, Color::Red);
    assert_eq!(surface.get(0, 0).unwrap().symbol, " ");
    assert_eq!(surface.get(3, 0).unwrap().symbol, " ");

    // Rendered positions outside the surface are passed over.
    let mut small = Buffer::empty(Rect::new(0, 0, 1, 1));
    let wide = rt::Buffer::empty(rt::Rect { x: 0, y: 0, width: 3, height: 2 });
    copy_rendered_cells(&mut small, &wide);
    assert_eq!(small.area(), Rect::new(0, 0, 1, 1));
}

#[test]
fn adapter_composes_full_frame() {
    let size = rt::Rect { x: 0, y: 0, width: 3, height: 2 };
    let mut adapter = RatatuiBackendAdapter::new((), size);
    let a = Cell { symbol: "A".to_string(), fg: Color::Red, ..Cell::default() };
    let z = Cell { symbol: "Z".to_string(), ..Cell::default() };
    let cells = vec![(2, 1, &a), (5, 0, &z), (0, 0, &z)];
    let frame = adapter.compose_frame(size, &cells);
    assert_eq!(frame.len(), 6);
    assert_eq!((frame[5].0, frame[5].1), (2, 1));
    assert_eq!(frame[5].2.symbol(), "A");
    assert_eq!(frame[5].2.fg, rt::Color::Red);
    assert_eq!(frame[0].2.symbol(), "Z");
    assert_eq!((frame[4].0, frame[4].1), (1, 1));
    assert_eq!(frame[4].2.symbol(), " ");

    // A larger terminal: the buffer grows, the old cells stay in front.
    let bigger = rt::Rect { x: 0, y: 0, width: 4, height: 2 };
    let frame = adapter.compose_frame(bigger, &[]);
    assert_eq!(frame.len(), 8);
    assert_eq!(frame[0].2.symbol(), "Z");
    assert_eq!((frame[7].0, frame[7].1), (3, 1));
    adapter.sync_buffer_size(rt::Rect { x: 0, y: 0, width: 1, height: 1 });
    assert_eq!(adapter.compose_frame(rt::Rect { x: 0, y: 0, width: 1, height: 1 }, &[]).len(), 1);
}

#[test]
fn terminal_sequences() {
    let on = Config { enable_mouse_capture: true };
    let off = Config { enable_mouse_capture: false };
    let claim = claim_steps(on);
    assert_eq!(claim.len(), 4);
    assert_eq!(claim[0].ops, vec![TerminalOp::EnableRawMode]);
    assert_eq!(claim[2].on_error, OnError::IgnoreUnsupported);
    assert_eq!(claim[3].ops, vec![TerminalOp::EnableMouseCapture]);
    assert_eq!(claim_steps(off).len(), 3);
    assert_eq!(reconfigure_steps(off)[0].ops, vec![TerminalOp::DisableMouseCapture]);
    assert_eq!(reconfigure_steps(on)[0].ops, vec![TerminalOp::EnableMouseCapture]);
    let restore = restore_steps(on);
    assert_eq!(restore.len(), 4);
    assert_eq!(restore[0].ops, vec![TerminalOp::DisableMouseCapture]);
    assert_eq!(restore[2].ops, vec![TerminalOp::DisableFocusChange, TerminalOp::LeaveAlternateScreen]);
    assert_eq!(restore_steps(off).len(), 3);
    let force = force_restore_steps();
    assert_eq!(force.len(), 4);
    assert!(force.iter().all(|s| s.on_error == OnError::Ignore));
    assert!(!continues_after_failure(OnError::Propagate, true));
    assert!(continues_after_failure(OnError::IgnoreUnsupported, true));
    assert!(!continues_after_failure(OnError::IgnoreUnsupported, false));
    assert!(continues_after_failure(OnError::Ignore, false));
}

#[test]
fn test_backend_draw_clear_and_resize() {
    let mut backend = TestBackend::new(3, 2);
    let x = Cell { symbol: "x".to_string(), ..Cell::default() };
    let y = Cell { symbol: "y".to_string(), ..Cell::default() };
    assert!(backend.draw(&vec![(1, 1, &x), (1, 1, &y)]).is_ok());
    assert_eq!(backend.buffer().get(1, 1).unwrap().symbol, "y");
    assert!(backend.buffer().get(3, 0).is_none());
    backend.resize(2, 1);
    assert_eq!(backend.buffer().content().len(), 2);
    backend.resize(3, 2);
    assert_eq!(backend.buffer().get(2, 1).unwrap().symbol, " ");
    assert!(backend.draw(&vec![(0, 0, &x)]).is_ok());
    assert!(backend.clear().is_ok());
    assert_eq!(backend.buffer().get(0, 0).unwrap().symbol, " ");
}

#[test]
fn buffer_reset_and_style() {
    let mut buffer = Buffer::empty(Rect::new(2, 3, 2, 2));
    assert!(buffer.get(1, 3).is_none());
    assert_eq!(buffer.index_of(3, 4), 3);
    let mut cell = Cell::default();
    cell.set_style(Style::default().fg(Color::Red).add_modifier(Modifier::bold()).remove_modifier(Modifier::dim()));
    assert_eq!(cell.fg, Color::Red);
    assert!(cell.modifier.contains(Modifier::bold()));
    buffer.set(3, 4, cell);
    assert_eq!(buffer.get(3, 4).unwrap().fg, Color::Red);
    buffer.reset();
    assert_eq!(buffer.get(3, 4).unwrap().fg, Color::Reset);
    let mut cell = Cell::default();
    cell.set_fg(Color::Blue);
    cell.set_bg(Color::Green);
    cell.reset();
    assert_eq!(cell.fg, Color::Reset);
    assert_eq!(cell.bg, Color::Reset);
    assert_eq!(cell.modifier, Modifier::empty());
}

#[test]
fn rect_intersection_and_area() {
    let a = Rect::new(0, 0, 10, 10);
    let b = Rect::new(5, 5, 10, 10);
    assert_eq!(a.intersection(b), Rect::new(5, 5, 5, 5));
    assert_eq!(a.intersection(Rect::new(20, 20, 1, 1)).width, 0);
    assert_eq!(Rect::new(0, 0, 300, 300).area(), 90000);
    assert_eq!(rt::Rect { x: 0, y: 0, width: 300, height: 300 }.area(), u16::MAX);
    assert_eq!(Rect::new(u16::MAX, 0, 5, 1).right(), u16::MAX);
}

#[test]
fn raw_text_splits_lines_like_str_lines() {
    let t = Text::raw("one\r\ntwo\n\nthree\r");
    let got: Vec<&str> = t.lines.iter().map(|l| l.0[0].content.as_str()).collect();
    assert_eq!(got, vec!["one", "two", "", "three\r"]);
    assert!(t.lines.iter().all(|l| l.0.len() == 1 && l.0[0].style == Style::default()));
    assert_eq!(Text::raw("").height(), 0);
    assert_eq!(Text::raw("a\n").height(), 1);
    assert_eq!(Text::raw("\n").height(), 1);
    for s in ["x", "a\nb", "a\r\nb\r\n", "\n\n", "\r\n"] {
        let lines: Vec<&str> = s.lines().collect();
        let t = Text::raw(s);
        let got: Vec<&str> = t.lines.iter().map(|l| l.0[0].content.as_str()).collect();
        assert_eq!(got, lines);
    }
}

#[test]
fn styled_text_patches_every_span() {
    let mut t = Text::styled("a\nb", Style::default().fg(Color::Red));
    assert_eq!(t.height(), 2);
    assert_eq!(t.lines[1].0[0].style.fg, Some(Color::Red));
    t.patch_style(Style::default().bg(Color::Blue));
    assert_eq!(t.lines[0].0[0].style.fg, Some(Color::Red));
    assert_eq!(t.lines[0].0[0].style.bg, Some(Color::Blue));
    let c = t.clone();
    assert_eq!(c, t);
}

#[test]
fn text_conversion_keeps_spans_and_converts_styles() {
    let t = Text::from_spans(Spans(vec![Span::styled("g", Style::default().fg(Color::Gray))]));
    let r = helix_tui::compat::convert_text(&t);
    assert_eq!(r.lines.len(), 1);
    assert_eq!(r.lines[0].spans[0].content, "g");
    assert_eq!(r.lines[0].spans[0].style.fg, Some(rt::Color::DarkGray));
}
