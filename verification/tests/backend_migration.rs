use helix_tui::compat::{convert_cell, convert_cell_back, convert_color, convert_color_back, convert_rect, convert_rect_back, convert_style};
use helix_tui::ratatui_types as rt;
use helix_tui::backend::{Config, TestBackend};
use helix_tui::buffer::Cell;
use helix_tui::graphics::{Color, CursorKind, Modifier, Rect, Style, UnderlineStyle};

/// Test basic backend operations work consistently across implementations
#[test]
fn test_backend_trait_consistency() {
    let mut test_backend = TestBackend::new(80, 24);
    let config1 = Config { enable_mouse_capture: false };
    let config2 = Config { enable_mouse_capture: false };
    let config3 = Config { enable_mouse_capture: false };

    assert!(test_backend.claim(config1).is_ok());
    assert!(test_backend.reconfigure(config2).is_ok());
    assert!(test_backend.hide_cursor().is_ok());
    assert!(test_backend.show_cursor(CursorKind::Block).is_ok());
    assert!(test_backend.set_cursor(10, 5).is_ok());
    assert!(test_backend.get_cursor().is_ok());
    assert!(test_backend.clear().is_ok());
    assert!(test_backend.flush().is_ok());
    assert!(test_backend.restore(config3).is_ok());

    let size = test_backend.size().unwrap();
    assert_eq!(size.width, 80);
    assert_eq!(size.height, 24);
}

/// Test backend cell drawing operations
#[test]
fn test_backend_cell_drawing() {
    let mut backend = TestBackend::new(40, 15);

    let test_cells = vec![
        (
            0,
            0,
            Cell {
                symbol: "H".to_string(),
                fg: Color::Red,
                bg: Color::Reset,
                modifier: Modifier::bold(),
                underline_color: Color::Reset,
                underline_style: UnderlineStyle::Reset,
            },
        ),
        (
            1,
            0,
            Cell {
                symbol: "i".to_string(),
                fg: Color::Green,
                bg: Color::Yellow,
                modifier: Modifier::italic(),
                underline_color: Color::Reset,
                underline_style: UnderlineStyle::Reset,
            },
        ),
        (
            5,
            2,
            Cell {
                symbol: "!".to_string(),
                fg: Color::Blue,
                bg: Color::Reset,
                modifier: Modifier::crossed_out(),
                underline_color: Color::Cyan,
                underline_style: UnderlineStyle::Curl,
            },
        ),
    ];

    let cells: Vec<(u16, u16, &Cell)> = test_cells.iter().map(|(x, y, cell)| (*x, *y, cell)).collect();
    assert!(backend.draw(&cells).is_ok());

    let buffer = backend.buffer();
    assert_eq!(buffer.get(0, 0).unwrap().symbol, "H");
    assert_eq!(buffer.get(1, 0).unwrap().symbol, "i");
    assert_eq!(buffer.get(5, 2).unwrap().symbol, "!");
}

/// Test backend edge cases and error handling
#[test]
fn test_backend_edge_cases() {
    let mut backend = TestBackend::new(10, 5);

    // Out-of-bounds cursor positions are accepted
    assert!(backend.set_cursor(15, 10).is_ok());

    // Zero-size operations
    let mut zero_backend = TestBackend::new(0, 0);
    assert!(zero_backend.clear().is_ok());
    assert!(zero_backend.flush().is_ok());

    // Drawing nothing
    let empty_cells: Vec<(u16, u16, &Cell)> = vec![];
    assert!(backend.draw(&empty_cells).is_ok());
}

/// Test backend resizing behavior
#[test]
fn test_backend_resize_behavior() {
    let mut backend = TestBackend::new(20, 10);

    let cell = Cell {
        symbol: "X".to_string(),
        fg: Color::White,
        bg: Color::Black,
        modifier: Modifier::empty(),
        underline_color: Color::Reset,
        underline_style: UnderlineStyle::Reset,
    };

    let cells = vec![(5, 5, &cell)];
    assert!(backend.draw(&cells).is_ok());

    backend.resize(40, 20);

    let size = backend.size().unwrap();
    assert_eq!(size.width, 40);
    assert_eq!(size.height, 20);

    let buffer = backend.buffer();
    assert_eq!(buffer.area(), Rect::new(0, 0, 40, 20));
}

/// Test backend with large content
#[test]
fn test_backend_performance_baseline() {
    let mut backend = TestBackend::new(200, 100);

    let mut cells = Vec::new();
    for y in 0u16..100 {
        for x in 0u16..200 {
            cells.push((
                x,
                y,
                Cell {
                    symbol: (((x + y) % 26 + 65) as u8 as char).to_string(),
                    fg: Color::Indexed(((x + y) % 256) as u8),
                    bg: Color::Reset,
                    modifier: if (x + y) % 3 == 0 { Modifier::bold() } else { Modifier::empty() },
                    underline_color: Color::Reset,
                    underline_style: UnderlineStyle::Reset,
                },
            ));
        }
    }

    let cell_refs: Vec<(u16, u16, &Cell)> = cells.iter().map(|(x, y, cell)| (*x, *y, cell)).collect();

    assert!(backend.draw(&cell_refs).is_ok());
    assert!(backend.flush().is_ok());

    let buffer = backend.buffer();
    assert!(!buffer.content().is_empty());
}

/// Test that two backends do not share content
#[test]
fn test_backend_isolation() {
    let mut backend1 = TestBackend::new(20, 10);
    let mut backend2 = TestBackend::new(30, 15);

    let cell1 = Cell {
        symbol: "1".to_string(),
        fg: Color::Red,
        bg: Color::Reset,
        modifier: Modifier::bold(),
        underline_color: Color::Reset,
        underline_style: UnderlineStyle::Reset,
    };

    let cell2 = Cell {
        symbol: "2".to_string(),
        fg: Color::Blue,
        bg: Color::Yellow,
        modifier: Modifier::italic(),
        underline_color: Color::Reset,
        underline_style: UnderlineStyle::Reset,
    };

    assert!(backend1.draw(&vec![(5, 5, &cell1)]).is_ok());
    assert!(backend2.draw(&vec![(10, 8, &cell2)]).is_ok());

    assert_eq!(backend1.buffer().get(5, 5).unwrap().symbol, "1");
    assert_eq!(backend2.buffer().get(10, 8).unwrap().symbol, "2");

    assert_ne!(backend1.buffer().get(10, 8).unwrap().symbol, "2");
}

/// Test backend compatibility with various cell styles
#[test]
fn test_backend_style_compatibility() {
    let mut backend = TestBackend::new(50, 20);

    let style_test_cases = vec![
        ("Basic colors", Style::default().fg(Color::Red).bg(Color::Blue)),
        ("RGB colors", Style::default().fg(Color::Rgb(128, 64, 255)).bg(Color::Rgb(32, 128, 16))),
        ("Indexed colors", Style::default().fg(Color::Indexed(196)).bg(Color::Indexed(46))),
        ("Bold modifier", Style::default().add_modifier(Modifier::bold())),
        (
            "Multiple modifiers",
            Style::default().add_modifier(Modifier::bold().union(Modifier::italic()).union(Modifier::crossed_out())),
        ),
        ("Underline style", Style::default().underline_color(Color::Cyan).underline_style(UnderlineStyle::Curl)),
        (
            "Complex style",
            Style::default()
                .fg(Color::LightMagenta)
                .bg(Color::Gray)
                .add_modifier(Modifier::dim().union(Modifier::reversed()))
                .underline_color(Color::LightGreen)
                .underline_style(UnderlineStyle::DoubleLine),
        ),
    ];

    for (i, (name, style)) in style_test_cases.iter().enumerate() {
        let cell = Cell {
            symbol: format!("{}", i),
            fg: style.fg.unwrap_or(Color::Reset),
            bg: style.bg.unwrap_or(Color::Reset),
            modifier: style.add_modifier,
            underline_color: style.underline_color.unwrap_or(Color::Reset),
            underline_style: style.underline_style.unwrap_or(UnderlineStyle::Reset),
        };

        assert!(backend.draw(&vec![(i as u16, 0, &cell)]).is_ok(), "Failed to draw cell for style test: {}", name);
    }

    assert!(backend.flush().is_ok());
}

/// Test cell conversion between this crate's and ratatui's formats
#[test]
fn test_cell_conversion_compatibility() {

    let helix_cell = Cell {
        symbol: "★".to_string(),
        fg: Color::Rgb(255, 128, 0),
        bg: Color::Indexed(42),
        modifier: Modifier::bold().union(Modifier::reversed()),
        underline_color: Color::Green,
        underline_style: UnderlineStyle::Curl,
    };

    let ratatui_cell = convert_cell(&helix_cell);
    let converted_back = convert_cell_back(&ratatui_cell);

    assert_eq!(helix_cell.symbol, converted_back.symbol);
    assert_eq!(helix_cell.fg, converted_back.fg);
    assert_eq!(helix_cell.bg, converted_back.bg);
    assert_eq!(helix_cell.modifier, converted_back.modifier);
}

/// Test that conversion functions work correctly
#[test]
fn test_conversion_functions() {

    let colors = vec![Color::Reset, Color::Red, Color::Green, Color::Blue, Color::Rgb(255, 128, 64), Color::Indexed(42)];

    for color in colors {
        let ratatui_color = convert_color(color);
        let back_color = convert_color_back(ratatui_color);
        assert_eq!(color, back_color, "Color conversion round-trip failed for {:?}", color);
    }

    let rect = Rect::new(15, 25, 100, 50);
    let ratatui_rect = convert_rect(rect);
    let back_rect = convert_rect_back(ratatui_rect);
    assert_eq!(rect, back_rect);

    let style = Style::default().fg(Color::Yellow).bg(Color::Magenta).add_modifier(Modifier::bold().union(Modifier::italic()));

    let ratatui_style = convert_style(style);
    assert_eq!(ratatui_style.fg, Some(rt::Color::Yellow));
    assert_eq!(ratatui_style.bg, Some(rt::Color::Magenta));
    assert!(ratatui_style.add_modifier.contains(rt::Modifier::bold()));
    assert!(ratatui_style.add_modifier.contains(rt::Modifier::italic()));
}
