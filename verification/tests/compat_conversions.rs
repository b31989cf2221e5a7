use helix_tui::backend::RatatuiBackendAdapter;
use ratatui::backend::{Backend, TestBackend};
use helix_tui::compat::{convert_color, convert_color_back, convert_rect, convert_rect_back, convert_style};
use helix_tui::graphics::{Color, Modifier, Rect, Style};
use helix_tui::ratatui_types as rt;

#[test]
fn test_color_conversion() {
    // Basic colors
    assert_eq!(convert_color(Color::Red), rt::Color::Red);
    assert_eq!(convert_color(Color::Blue), rt::Color::Blue);
    assert_eq!(convert_color(Color::Green), rt::Color::Green);

    // RGB
    assert_eq!(convert_color(Color::Rgb(255, 128, 64)), rt::Color::Rgb(255, 128, 64));

    // Indexed
    assert_eq!(convert_color(Color::Indexed(42)), rt::Color::Indexed(42));

    // Round trip
    let original = Color::LightCyan;
    let converted = convert_color(original);
    let back = convert_color_back(converted);
    assert_eq!(original, back);
}

#[test]
fn test_style_conversion() {
    let style = Style::default().fg(Color::Red).bg(Color::Blue).add_modifier(Modifier::bold().union(Modifier::italic()));

    let ratatui_style = convert_style(style);

    assert_eq!(ratatui_style.fg, Some(rt::Color::Red));
    assert_eq!(ratatui_style.bg, Some(rt::Color::Blue));
    assert!(ratatui_style.add_modifier.contains(rt::Modifier::bold()));
    assert!(ratatui_style.add_modifier.contains(rt::Modifier::italic()));
}

#[test]
fn test_rect_conversion() {
    let rect = Rect::new(10, 20, 80, 24);
    let ratatui_rect = convert_rect(rect);
    let back_rect = convert_rect_back(ratatui_rect);

    assert_eq!(rect, back_rect);
    assert_eq!(ratatui_rect.x, 10);
    assert_eq!(ratatui_rect.y, 20);
    assert_eq!(ratatui_rect.width, 80);
    assert_eq!(ratatui_rect.height, 24);
}

#[test]
fn test_ratatui_adapter_creation() {

    let ratatui_backend = TestBackend::new(80, 24);
    let s = ratatui_backend.size().unwrap();
    let adapter =
        RatatuiBackendAdapter::new(ratatui_backend, rt::Rect { x: s.x, y: s.y, width: s.width, height: s.height });

    let s = adapter.inner().size().unwrap();
    let size = convert_rect_back(rt::Rect { x: s.x, y: s.y, width: s.width, height: s.height });
    assert_eq!(size.width, 80);
    assert_eq!(size.height, 24);
}
