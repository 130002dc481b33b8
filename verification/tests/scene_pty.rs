use ratatui::buffer::Buffer;
use ratatui::widgets::{Block, Borders, Clear, Paragraph, Table, Widget, Wrap};
use tepegoz_tui::geometry::Rect;
use tepegoz_tui::pty::PaneEntry;
use tepegoz_tui::scene::pty::render;
use tepegoz_tui::scene::{Color, Draw, Extent, Line, Modifier, Span, Style, TableRow};

/// A ratatui rectangle.
fn rat_rect(r: Rect) -> ratatui::layout::Rect {
    ratatui::layout::Rect { x: r.x, y: r.y, width: r.width, height: r.height }
}

fn rat_color(c: Color) -> ratatui::style::Color {
    match c {
        Color::Black => ratatui::style::Color::Black,
        Color::Red => ratatui::style::Color::Red,
        Color::Green => ratatui::style::Color::Green,
        Color::Yellow => ratatui::style::Color::Yellow,
        Color::Blue => ratatui::style::Color::Blue,
        Color::Cyan => ratatui::style::Color::Cyan,
        Color::Gray => ratatui::style::Color::Gray,
        Color::DarkGray => ratatui::style::Color::DarkGray,
        Color::White => ratatui::style::Color::White,
        Color::Indexed(i) => ratatui::style::Color::Indexed(i),
        Color::Rgb(r, g, b) => ratatui::style::Color::Rgb(r, g, b),
    }
}

fn rat_modifier(m: Modifier) -> ratatui::style::Modifier {
    let mut out = ratatui::style::Modifier::empty();
    if m.bold {
        out |= ratatui::style::Modifier::BOLD;
    }
    if m.dim {
        out |= ratatui::style::Modifier::DIM;
    }
    if m.italic {
        out |= ratatui::style::Modifier::ITALIC;
    }
    if m.underlined {
        out |= ratatui::style::Modifier::UNDERLINED;
    }
    if m.slow_blink {
        out |= ratatui::style::Modifier::SLOW_BLINK;
    }
    if m.reversed {
        out |= ratatui::style::Modifier::REVERSED;
    }
    out
}

fn rat_style(s: Style) -> ratatui::style::Style {
    let mut out = ratatui::style::Style::default().add_modifier(rat_modifier(s.modifier));
    if let Some(c) = s.fg {
        out = out.fg(rat_color(c));
    }
    if let Some(c) = s.bg {
        out = out.bg(rat_color(c));
    }
    out
}

fn rat_spans(spans: &[Span]) -> Vec<ratatui::text::Span<'static>> {
    spans
        .iter()
        .map(|s| ratatui::text::Span::styled(s.text.clone(), rat_style(s.style)))
        .collect()
}

fn rat_line(l: &Line) -> ratatui::text::Line<'static> {
    let line = ratatui::text::Line::from(rat_spans(&l.spans));
    if l.centered {
        line.centered()
    } else {
        line
    }
}

fn rat_row(r: &TableRow) -> ratatui::widgets::Row<'static> {
    ratatui::widgets::Row::new(rat_spans(&r.cells)).style(rat_style(r.style))
}

fn rat_widths(widths: &[Extent]) -> Vec<ratatui::layout::Constraint> {
    widths
        .iter()
        .map(|w| match w {
            Extent::Length(n) => ratatui::layout::Constraint::Length(*n),
            Extent::Min(n) => ratatui::layout::Constraint::Min(*n),
        })
        .collect()
}

/// Paints drawing operations, in order, onto a blank screen.
fn paint(draws: &[Draw], width: u16, height: u16) -> Buffer {
    let mut buf = Buffer::empty(ratatui::layout::Rect::new(0, 0, width, height));
    let screen = buf.area;
    for draw in draws {
        match draw {
            Draw::Clear { area } => Clear.render(rat_rect(*area).intersection(screen), &mut buf),
            Draw::Frame { area, title, title_style, border_style } => Block::default()
                .borders(Borders::ALL)
                .title(title.clone())
                .title_style(rat_style(*title_style))
                .border_style(rat_style(*border_style))
                .render(rat_rect(*area), &mut buf),
            Draw::Text { area, lines, centered, wrap } => {
                let mut text = Paragraph::new(lines.iter().map(rat_line).collect::<Vec<_>>());
                if *centered {
                    text = text.centered();
                }
                if *wrap {
                    text = text.wrap(Wrap { trim: false });
                }
                text.render(rat_rect(*area), &mut buf);
            }
            Draw::Table { area, header, rows, widths } => {
                let mut table =
                    Table::new(rows.iter().map(rat_row), rat_widths(widths)).column_spacing(1);
                if let Some(header) = header {
                    table = table.header(rat_row(header));
                }
                Widget::render(table, rat_rect(*area), &mut buf);
            }
            Draw::Cell { x, y, symbol, style } => {
                if let Some(cell) = buf.cell_mut((*x, *y)) {
                    cell.set_symbol(symbol);
                    cell.set_style(rat_style(*style));
                }
            }
            Draw::Reverse { x, y } => {
                if let Some(cell) = buf.cell_mut((*x, *y)) {
                    let style = cell.style().add_modifier(ratatui::style::Modifier::REVERSED);
                    cell.set_style(style);
                }
            }
        }
    }
    buf
}

/// The rows of a painted screen.
fn painted_rows(draws: &[Draw], width: u16, height: u16) -> Vec<String> {
    paint(draws, width, height)
        .content()
        .chunks(width as usize)
        .map(|row| row.iter().map(|c| c.symbol()).collect::<String>())
        .collect()
}

fn pane(label: &str, rows: u16, cols: u16) -> PaneEntry {
    PaneEntry::new(1, 1, label.to_string(), rows, cols, 100)
}

fn render_to_rows(panes: &Vec<PaneEntry>, active: usize, focused: bool) -> Vec<String> {
    render_to_rows_sized(panes, active, focused, 50, 12)
}

fn render_to_rows_sized(
    panes: &Vec<PaneEntry>,
    active: usize,
    focused: bool,
    width: u16,
    height: u16,
) -> Vec<String> {
    painted_rows(
        &render(panes, active, Rect::new(0, 0, width, height), focused),
        width,
        height,
    )
}

#[test]
fn pty_tile_renders_vt100_screen_contents() {
    let mut entry = pane("zsh", 9, 48);
    entry.output(b"hello world");
    let panes = vec![entry];
    let rows = render_to_rows(&panes, 0, false);
    let joined = rows.join("\n");
    assert!(
        joined.contains("hello world"),
        "pty cells must appear inside the tile: {joined}"
    );
    assert!(rows[0].contains('─'));
    assert!(rows[11].contains('─'));
}

#[test]
fn pty_tile_places_vt100_cursor_when_focused() {
    let mut entry = pane("zsh", 9, 48);
    entry.output(b"\x1b[3;6HX");
    let panes = vec![entry];

    let buffer = paint(&render(&panes, 0, Rect::new(0, 0, 50, 12), true), 50, 12);
    let marker_cell = buffer.cell((6u16, 4u16)).unwrap();
    assert_eq!(
        marker_cell.symbol(),
        "X",
        "vt100 cursor positioning must land the marker at the expected cell"
    );
}

#[test]
fn pty_tile_handles_empty_screen() {
    let panes = vec![pane("zsh", 9, 48)];
    paint(&render(&panes, 0, Rect::new(0, 0, 50, 12), false), 50, 12);
}

#[test]
fn tab_strip_renders_slot_numbers_and_labels() {
    let panes = vec![
        pane("zsh", 9, 48),
        pane("ssh:staging", 9, 48),
    ];
    let rows = render_to_rows(&panes, 0, true);
    assert!(
        rows[1].contains("[1 zsh*]"),
        "active pane marked with *; got: {}",
        rows[1]
    );
    assert!(
        rows[1].contains("[2 ssh:staging]"),
        "inactive pane without *; got: {}",
        rows[1]
    );
}

#[test]
fn tab_strip_moves_star_to_active_slot() {
    let panes = vec![
        pane("zsh", 9, 48),
        pane("ssh:staging", 9, 48),
    ];
    let rows = render_to_rows(&panes, 1, true);
    assert!(rows[1].contains("[1 zsh]"), "inactive got: {}", rows[1]);
    assert!(
        rows[1].contains("[2 ssh:staging*]"),
        "active got: {}",
        rows[1]
    );
}

#[test]
fn tab_strip_shows_overflow_indicator_beyond_nine_panes() {
    let panes: Vec<PaneEntry> = (0..12)
        .map(|i| pane(&format!("p{i}"), 9, 118))
        .collect();
    let rows = render_to_rows_sized(&panes, 0, true, 120, 12);
    assert!(
        rows[1].contains("[+3]"),
        "12 panes should show [+3] overflow; got: {}",
        rows[1]
    );
    assert!(
        rows[1].contains("[1 p0*]"),
        "first pane still rendered: {}",
        rows[1]
    );
}

#[test]
fn tab_strip_caps_at_nine_slots_plus_overflow() {
    let panes: Vec<PaneEntry> = (0..10)
        .map(|i| pane(&format!("p{i}"), 9, 118))
        .collect();
    let rows = render_to_rows_sized(&panes, 0, true, 120, 12);
    assert!(
        rows[1].contains("[+1]"),
        "10 panes still show [+1] overflow with 9 numbered slots; got: {}",
        rows[1]
    );
    for digit in 1..=9 {
        assert!(
            rows[1].contains(&format!("[{digit} p{}", digit - 1)),
            "slot {digit} should render; got: {}",
            rows[1]
        );
    }
    assert!(
        !rows[1].contains("[0 p"),
        "digit 0 is keybind-only; got: {}",
        rows[1]
    );
}
