use helix_tui::buffer::Buffer;
use helix_tui::graphics::{Color, Modifier, Rect, Style, UnderlineStyle};

#[test]
fn test_buffer_basic_operations() {
    let mut buffer = Buffer::empty(Rect::new(0, 0, 10, 10));

    buffer.get_mut(0, 0).unwrap().set_char('X').set_fg(Color::Red);
    buffer.get_mut(1, 0).unwrap().set_char('Y').set_bg(Color::Blue);

    assert_eq!(buffer.get(0, 0).unwrap().symbol, "X");
    assert_eq!(buffer.get(0, 0).unwrap().fg, Color::Red);
    assert_eq!(buffer.get(1, 0).unwrap().bg, Color::Blue);
}

#[test]
fn test_buffer_cell_style_operations() {
    let mut buffer = Buffer::empty(Rect::new(0, 0, 5, 5));

    let style = Style::default()
        .fg(Color::Red)
        .bg(Color::Blue)
        .add_modifier(Modifier::bold())
        .underline_style(UnderlineStyle::Curl);

    buffer.get_mut(2, 2).unwrap().set_style(style);

    let cell = buffer.get(2, 2).unwrap();
    assert_eq!(cell.fg, Color::Red);
    assert_eq!(cell.bg, Color::Blue);
    assert!(cell.modifier.contains(Modifier::bold()));
    assert_eq!(cell.underline_style, UnderlineStyle::Curl);
}

#[test]
fn test_buffer_resize_and_bounds() {
    let mut buffer = Buffer::empty(Rect::new(0, 0, 10, 10));
    buffer.get_mut(5, 5).unwrap().set_char('X');

    assert!(buffer.get(0, 0).is_some());
    assert!(buffer.get(9, 9).is_some());
    assert!(buffer.get(10, 10).is_none());
    assert!(buffer.get(5, 10).is_none());

    assert_eq!(buffer.get(5, 5).unwrap().symbol, "X");
}

#[test]
fn test_buffer_with_lines() {
    let lines = vec![
        "Hello, world!",
        "Second line",
        "Third line with unicode: 🦀",
    ];

    let buffer = Buffer::with_lines(lines.clone());

    assert_eq!(buffer.area().height, 3);
    // the crab takes two columns
    assert_eq!(buffer.area().width, 27);

    let reconstructed: Vec<String> = (0..buffer.area().height)
        .map(|y| {
            (0..buffer.area().width)
                .map(|x| buffer.get(x, y).map(|c| c.symbol.as_str()).unwrap_or(" "))
                .collect::<String>()
                .trim_end()
                .to_string()
        })
        .collect();

    assert_eq!(reconstructed[0], "Hello, world!");
    assert_eq!(reconstructed[1], "Second line");
    assert!(reconstructed[2].contains("🦀"));
}

#[test]
fn test_buffer_set_string() {
    let mut buffer = Buffer::empty(Rect::new(0, 0, 20, 5));

    let style = Style::default().fg(Color::Green).add_modifier(Modifier::bold());
    buffer.set_string(2, 1, "Hello", style);

    for i in 0..5 {
        let cell = buffer.get(2 + i, 1).unwrap();
        assert_eq!(cell.fg, Color::Green);
        assert!(cell.modifier.contains(Modifier::bold()));
    }

    assert_eq!(buffer.get(2, 1).unwrap().symbol, "H");
    assert_eq!(buffer.get(6, 1).unwrap().symbol, "o");
}

#[test]
fn test_buffer_edge_cases() {
    let buffer = Buffer::empty(Rect::new(0, 0, 0, 0));
    assert_eq!(buffer.content().len(), 0);
    assert!(buffer.get(0, 0).is_none());

    let mut buffer = Buffer::empty(Rect::new(0, 0, 1, 1));
    buffer.get_mut(0, 0).unwrap().set_char('X');
    assert_eq!(buffer.get(0, 0).unwrap().symbol, "X");

    let buffer = Buffer::empty(Rect::new(0, 0, 100, 100));
    assert_eq!(buffer.content().len(), 10_000);
}

#[test]
fn test_buffer_cell_reset() {
    let mut buffer = Buffer::empty(Rect::new(0, 0, 5, 5));

    let cell = buffer.get_mut(2, 2).unwrap();
    cell.set_char('X')
        .set_fg(Color::Red)
        .set_bg(Color::Blue)
        .set_style(Style::default().add_modifier(Modifier::bold()));

    cell.reset();

    assert_eq!(cell.symbol, " ");
    assert_eq!(cell.fg, Color::Reset);
    assert_eq!(cell.bg, Color::Reset);
    assert_eq!(cell.modifier, Modifier::empty());
}

#[test]
fn test_buffer_unicode_handling() {
    let mut buffer = Buffer::empty(Rect::new(0, 0, 20, 5));

    let unicode_chars = vec!['🦀', '🚀', '💻', '📝', '🎯'];

    for (i, ch) in unicode_chars.iter().enumerate() {
        buffer.get_mut(i as u16, 0).unwrap().set_char(*ch);
        assert_eq!(buffer.get(i as u16, 0).unwrap().symbol, ch.to_string());
    }

    buffer.set_string(0, 1, "👋🏽", Style::default());
}

#[test]
fn set_string_covers_wide_clusters_and_stops_at_the_edge() {
    let mut buffer = Buffer::empty(Rect::new(0, 0, 5, 2));
    let end = buffer.set_stringn(0, 0, "a🦀bcd", usize::MAX, Style::default());
    // the crab takes columns 1 and 2; "d" would pass the right edge
    assert_eq!(end, (5, 0));
    assert_eq!(buffer.get(0, 0).unwrap().symbol, "a");
    assert_eq!(buffer.get(1, 0).unwrap().symbol, "🦀");
    assert_eq!(buffer.get(2, 0).unwrap().symbol, " ");
    assert_eq!(buffer.get(3, 0).unwrap().symbol, "b");
    assert_eq!(buffer.get(4, 0).unwrap().symbol, "c");
    assert_eq!(buffer.get(0, 1).unwrap().symbol, " ");

    // two columns from column 1 leave room for "x" and "y" only
    let end = buffer.set_stringn(1, 1, "xyz", 2, Style::default().fg(Color::Red));
    assert_eq!(end, (3, 1));
    assert_eq!(buffer.get(1, 1).unwrap().symbol, "x");
    assert_eq!(buffer.get(2, 1).unwrap().fg, Color::Red);
    assert_eq!(buffer.get(3, 1).unwrap().symbol, " ");

    // nothing is written outside the area
    let end = buffer.set_stringn(9, 9, "q", 4, Style::default());
    assert_eq!(end, (9, 9));
}

#[test]
fn set_clusters_uses_the_given_widths() {
    let mut buffer = Buffer::empty(Rect::new(0, 0, 6, 1));
    let clusters = vec!["a".to_string(), "b".to_string(), "c".to_string()];
    let widths = vec![2usize, 0, 3];
    let end = buffer.set_clusters(0, 0, &clusters, &widths, usize::MAX, Style::default());
    assert_eq!(end, (5, 0));
    assert_eq!(buffer.get(0, 0).unwrap().symbol, "a");
    assert_eq!(buffer.get(1, 0).unwrap().symbol, " ");
    assert_eq!(buffer.get(2, 0).unwrap().symbol, "c");
    assert_eq!(buffer.get(5, 0).unwrap().symbol, " ");
}

#[test]
fn with_lines_sizes_by_the_widest_line() {
    let buffer = Buffer::with_lines(vec!["ab", "日本", ""]);
    assert_eq!(buffer.area(), Rect::new(0, 0, 4, 3));
    assert_eq!(buffer.get(0, 1).unwrap().symbol, "日");
    assert_eq!(buffer.get(1, 1).unwrap().symbol, " ");
    assert_eq!(buffer.get(2, 1).unwrap().symbol, "本");
    assert_eq!(buffer.get(2, 0).unwrap().symbol, " ");
}

#[test]
fn a_written_cell_reads_back_and_leaves_the_others() {
    let mut buffer = Buffer::empty(Rect::new(2, 3, 4, 2));
    let mut cell = helix_tui::buffer::Cell::default();
    cell.set_char('z').set_fg(Color::Cyan);
    buffer.set(5, 4, cell);
    assert_eq!(buffer.get(5, 4).unwrap().symbol, "z");
    assert_eq!(buffer.get(5, 4).unwrap().fg, Color::Cyan);
    assert_eq!(buffer.get(4, 4).unwrap().symbol, " ");
    assert_eq!(buffer.get(5, 3).unwrap().fg, Color::Reset);
    assert!(buffer.get(6, 4).is_none());
    assert_eq!(buffer.content()[7].symbol, "z");
}

#[test]
fn diff_lists_changed_cells_and_handles_wide_symbols() {
    let area = Rect::new(1, 2, 4, 2);
    let before = Buffer::empty(area);
    let mut after = Buffer::empty(area);
    after.set_string(1, 2, "a", Style::default());
    after.set_string(2, 3, "日x", Style::default());
    let d = before.diff(&after);
    let got: Vec<(u16, u16, &str)> = d.iter().map(|(x, y, c)| (*x, *y, c.symbol.as_str())).collect();
    // the cell that the wide symbol covers is passed over
    assert_eq!(got, vec![(1, 2, "a"), (2, 3, "日"), (4, 3, "x")]);
    assert!(after.diff(&after.clone()).is_empty());

    // drawing over a wide symbol redraws the cell it covered
    let back = after.diff(&before);
    let got: Vec<(u16, u16, &str)> = back.iter().map(|(x, y, c)| (*x, *y, c.symbol.as_str())).collect();
    assert_eq!(got, vec![(1, 2, " "), (2, 3, " "), (3, 3, " "), (4, 3, " ")]);
}

#[test]
fn cloned_buffer_is_equal() {
    let mut b = Buffer::empty(Rect::new(0, 0, 3, 1));
    b.set_string(0, 0, "hey", Style::default().fg(Color::Red));
    let c = b.clone();
    assert_eq!(c.area(), b.area());
    assert!(c.content().iter().zip(b.content()).all(|(x, y)| x.same_as(y) && x == y));
}
