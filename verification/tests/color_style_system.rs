use helix_tui::buffer::Cell;
use helix_tui::graphics::{Color, Modifier, Style};

#[test]
fn test_color_combinations() {
    let colors = vec![
        Color::Black,
        Color::Red,
        Color::Green,
        Color::Yellow,
        Color::Blue,
        Color::Magenta,
        Color::Cyan,
        Color::Gray,
        Color::LightGray,
        Color::LightRed,
        Color::LightGreen,
        Color::LightYellow,
        Color::LightBlue,
        Color::LightMagenta,
        Color::LightCyan,
        Color::White,
        Color::Rgb(128, 128, 128),
        Color::Indexed(42),
    ];

    for fg in &colors {
        for bg in &colors {
            let style = Style::default().fg(*fg).bg(*bg);
            assert_eq!(style.fg, Some(*fg));
            assert_eq!(style.bg, Some(*bg));
        }
    }
}

#[test]
fn test_style_modifiers() {
    let modifiers = vec![
        Modifier::bold(),
        Modifier::dim(),
        Modifier::italic(),
        Modifier::slow_blink(),
        Modifier::rapid_blink(),
        Modifier::reversed(),
        Modifier::hidden(),
        Modifier::crossed_out(),
    ];

    for modifier in &modifiers {
        let style = Style::default().add_modifier(*modifier);
        assert!(style.add_modifier.contains(*modifier));

        let style = Style::default().remove_modifier(*modifier);
        assert!(style.sub_modifier.contains(*modifier));
    }

    let style = Style::default()
        .add_modifier(Modifier::bold())
        .add_modifier(Modifier::italic())
        .add_modifier(Modifier::crossed_out());

    assert!(style.add_modifier.contains(Modifier::bold()));
    assert!(style.add_modifier.contains(Modifier::italic()));
    assert!(style.add_modifier.contains(Modifier::crossed_out()));
}

#[test]
fn test_style_patches() {
    let base_style = Style::default().fg(Color::Red).bg(Color::Blue).add_modifier(Modifier::bold());

    let patch_style = Style::default().fg(Color::Green).add_modifier(Modifier::italic());

    let patched = base_style.patch(patch_style);

    assert_eq!(patched.fg, Some(Color::Green));
    assert_eq!(patched.bg, Some(Color::Blue));
    assert!(patched.add_modifier.contains(Modifier::bold()));
    assert!(patched.add_modifier.contains(Modifier::italic()));
}

#[test]
fn test_cell_symbol_and_style() {
    let mut cell = Cell::default();

    cell.set_symbol("A");
    assert_eq!(cell.symbol, "A");

    let style = Style::default().fg(Color::Yellow);
    cell.set_style(style);
    let cell_style = cell.style();
    assert_eq!(cell_style.fg, Some(Color::Yellow));

    cell.set_symbol("B");
    cell.set_style(Style::default().bg(Color::Magenta));
    assert_eq!(cell.symbol, "B");
    assert_eq!(cell.style().bg, Some(Color::Magenta));
}

#[test]
fn test_color_parsing_rgb() {
    let _color1 = Color::Rgb(255, 0, 0);
    let _color2 = Color::Rgb(0, 255, 0);
    let _color3 = Color::Rgb(0, 0, 255);

    for i in 0..=255 {
        let _color = Color::Indexed(i);
    }

    assert_eq!(Color::Red, Color::Red);
    assert_ne!(Color::Red, Color::Blue);
    assert_eq!(Color::Rgb(255, 0, 0), Color::Rgb(255, 0, 0));
    assert_ne!(Color::Rgb(255, 0, 0), Color::Rgb(0, 255, 0));
}

#[test]
fn test_style_reset() {
    let style = Style::default().fg(Color::Red).bg(Color::Blue).add_modifier(Modifier::bold()).add_modifier(Modifier::italic());

    let _no_fg = Style::default().bg(Color::Blue).add_modifier(Modifier::bold()).add_modifier(Modifier::italic());

    let reset_style = Style {
        fg: None,
        bg: style.bg,
        underline_color: style.underline_color,
        underline_style: style.underline_style,
        add_modifier: style.add_modifier,
        sub_modifier: style.sub_modifier,
    };

    assert_eq!(reset_style.fg, None);
    assert_eq!(reset_style.bg, Some(Color::Blue));
}

#[test]
fn test_buffer_cell_styling() {
    let mut buffer = helix_tui::buffer::Buffer::empty(helix_tui::graphics::Rect::new(0, 0, 10, 10));

    let style1 = Style::default().fg(Color::Red).bg(Color::Blue);
    let style2 = Style::default().fg(Color::Green).add_modifier(Modifier::bold());

    if let Some(cell1) = buffer.get_mut(0, 0) {
        cell1.set_style(style1);
        let cell_style = cell1.style();
        assert_eq!(cell_style.fg, Some(Color::Red));
        assert_eq!(cell_style.bg, Some(Color::Blue));
    }

    if let Some(cell2) = buffer.get_mut(1, 1) {
        cell2.set_style(style2);
        let cell_style = cell2.style();
        assert_eq!(cell_style.fg, Some(Color::Green));
        assert!(cell_style.add_modifier.contains(Modifier::bold()));
    }

    if let Some(cell) = buffer.get(0, 0) {
        let cell_style = cell.style();
        assert_eq!(cell_style.fg, Some(Color::Red));
        assert_eq!(cell_style.bg, Some(Color::Blue));
    }
    if let Some(cell) = buffer.get(1, 1) {
        let cell_style = cell.style();
        assert_eq!(cell_style.fg, Some(Color::Green));
        assert!(cell_style.add_modifier.contains(Modifier::bold()));
    }
}
