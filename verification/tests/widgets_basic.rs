use helix_tui::buffer::Buffer;
use helix_tui::graphics::{Color, Rect, Style};

#[test]
fn test_buffer_with_lines_basic() {
    let lines = vec![
        "Line 1",
        "Line 2 is longer",
        "Short",
        "",
        "Final line",
    ];

    let buffer = Buffer::with_lines(lines.clone());

    assert_eq!(buffer.area().height, 5);
    assert_eq!(buffer.area().width, 16);

    let content = buffer.content();
    assert_eq!(content.len(), 5 * 16);
}

#[test]
fn test_buffer_string_setting() {
    let mut buffer = Buffer::empty(Rect::new(0, 0, 20, 10));
    let style = Style::default().fg(Color::Yellow);

    buffer.set_string(0, 0, "Top left", style);
    buffer.set_string(5, 5, "Middle", style);
    buffer.set_string(0, 9, "Bottom", style);

    buffer.set_string(0, 1, "Unicode: 日本語", style);
    buffer.set_string(0, 2, "Emojis: 🚀🎉", style);

    if let Some(cell) = buffer.get(0, 0) {
        assert_ne!(cell.symbol, " ");
    }
    if let Some(cell) = buffer.get(5, 5) {
        assert_ne!(cell.symbol, " ");
    }
}
