use ratatui::buffer::Buffer;
use ratatui::widgets::{Block, Borders, Clear, Paragraph, Table, Widget, Wrap};
use tepegoz_tui::fleet::{FleetScope, FleetScopeState};
use tepegoz_tui::geometry::Rect;
use tepegoz_tui::picker::{HostPickerModal, HostPickerTargetTile};
use tepegoz_tui::proto::{HostEntry, HostState};
use tepegoz_tui::scene::picker::render;
use tepegoz_tui::scene::{Color, Draw, Extent, Line, Modifier, Span, Style, TableRow};
use vstd::hash_map::StringHashMap;

/// A ratatui rectangle.
fn rat_rect(r: Rect) -> ratatui::layout::Rect {
    ratatui::layout::Rect { x: r.x, y: r.y, width: r.width, height: r.height }
}

fn rat_color(c: Color) -> ratatui::style::Color {
    match c {
        Color::Black => ratatui::style::Color::Black,
        Color::Red => ratatui::style::Color::Red,
        Color::Green => ratatui::style::Color::Green,
        Color::Yellow => ratatui::style::Color::Yellow,
        Color::Blue => ratatui::style::Color::Blue,
        Color::Cyan => ratatui::style::Color::Cyan,
        Color::Gray => ratatui::style::Color::Gray,
        Color::DarkGray => ratatui::style::Color::DarkGray,
        Color::White => ratatui::style::Color::White,
        Color::Indexed(i) => ratatui::style::Color::Indexed(i),
        Color::Rgb(r, g, b) => ratatui::style::Color::Rgb(r, g, b),
    }
}

fn rat_modifier(m: Modifier) -> ratatui::style::Modifier {
    let mut out = ratatui::style::Modifier::empty();
    if m.bold {
        out |= ratatui::style::Modifier::BOLD;
    }
    if m.dim {
        out |= ratatui::style::Modifier::DIM;
    }
    if m.italic {
        out |= ratatui::style::Modifier::ITALIC;
    }
    if m.underlined {
        out |= ratatui::style::Modifier::UNDERLINED;
    }
    if m.slow_blink {
        out |= ratatui::style::Modifier::SLOW_BLINK;
    }
    if m.reversed {
        out |= ratatui::style::Modifier::REVERSED;
    }
    out
}

fn rat_style(s: Style) -> ratatui::style::Style {
    let mut out = ratatui::style::Style::default().add_modifier(rat_modifier(s.modifier));
    if let Some(c) = s.fg {
        out = out.fg(rat_color(c));
    }
    if let Some(c) = s.bg {
        out = out.bg(rat_color(c));
    }
    out
}

fn rat_spans(spans: &[Span]) -> Vec<ratatui::text::Span<'static>> {
    spans
        .iter()
        .map(|s| ratatui::text::Span::styled(s.text.clone(), rat_style(s.style)))
        .collect()
}

fn rat_line(l: &Line) -> ratatui::text::Line<'static> {
    let line = ratatui::text::Line::from(rat_spans(&l.spans));
    if l.centered {
        line.centered()
    } else {
        line
    }
}

fn rat_row(r: &TableRow) -> ratatui::widgets::Row<'static> {
    ratatui::widgets::Row::new(rat_spans(&r.cells)).style(rat_style(r.style))
}

fn rat_widths(widths: &[Extent]) -> Vec<ratatui::layout::Constraint> {
    widths
        .iter()
        .map(|w| match w {
            Extent::Length(n) => ratatui::layout::Constraint::Length(*n),
            Extent::Min(n) => ratatui::layout::Constraint::Min(*n),
        })
        .collect()
}

/// Paints drawing operations, in order, onto a blank screen.
fn paint(draws: &[Draw], width: u16, height: u16) -> Buffer {
    let mut buf = Buffer::empty(ratatui::layout::Rect::new(0, 0, width, height));
    let screen = buf.area;
    for draw in draws {
        match draw {
            Draw::Clear { area } => Clear.render(rat_rect(*area).intersection(screen), &mut buf),
            Draw::Frame { area, title, title_style, border_style } => Block::default()
                .borders(Borders::ALL)
                .title(title.clone())
                .title_style(rat_style(*title_style))
                .border_style(rat_style(*border_style))
                .render(rat_rect(*area), &mut buf),
            Draw::Text { area, lines, centered, wrap } => {
                let mut text = Paragraph::new(lines.iter().map(rat_line).collect::<Vec<_>>());
                if *centered {
                    text = text.centered();
                }
                if *wrap {
                    text = text.wrap(Wrap { trim: false });
                }
                text.render(rat_rect(*area), &mut buf);
            }
            Draw::Table { area, header, rows, widths } => {
                let mut table =
                    Table::new(rows.iter().map(rat_row), rat_widths(widths)).column_spacing(1);
                if let Some(header) = header {
                    table = table.header(rat_row(header));
                }
                Widget::render(table, rat_rect(*area), &mut buf);
            }
            Draw::Cell { x, y, symbol, style } => {
                if let Some(cell) = buf.cell_mut((*x, *y)) {
                    cell.set_symbol(symbol);
                    cell.set_style(rat_style(*style));
                }
            }
            Draw::Reverse { x, y } => {
                if let Some(cell) = buf.cell_mut((*x, *y)) {
                    let style = cell.style().add_modifier(ratatui::style::Modifier::REVERSED);
                    cell.set_style(style);
                }
            }
        }
    }
    buf
}

/// The rows of a painted screen.
fn painted_rows(draws: &[Draw], width: u16, height: u16) -> Vec<String> {
    paint(draws, width, height)
        .content()
        .chunks(width as usize)
        .map(|row| row.iter().map(|c| c.symbol()).collect::<String>())
        .collect()
}

fn test_fleet(fleet_hosts: Vec<(&str, HostState)>) -> FleetScope {
    let hosts: Vec<HostEntry> = fleet_hosts
        .iter()
        .map(|(alias, _)| HostEntry {
            alias: (*alias).into(),
            hostname: format!("{alias}.example"),
            user: "test".into(),
            port: 22,
            identity_files: vec![],
            proxy_jump: None,
        })
        .collect();
    let mut states = StringHashMap::new();
    for (alias, state) in fleet_hosts {
        states.insert(alias.to_string(), state);
    }
    let mut fleet = FleetScope::new(1);
    fleet.state = FleetScopeState::Available {
        hosts,
        states,
        source: "test".into(),
    };
    fleet
}

fn render_frame(
    fleet: &FleetScope,
    picker: &HostPickerModal,
    width: u16,
    height: u16,
) -> Vec<String> {
    painted_rows(&render(fleet, picker, Rect::new(0, 0, width, height)), width, height)
}

#[test]
fn local_row_first_even_with_hosts() {
    let fleet = test_fleet(vec![("alpha", HostState::Connected)]);
    let picker = HostPickerModal {
        target_tile: HostPickerTargetTile::Docker,
        required_capability: "docker".into(),
        selected: 0,
    };
    let rows = render_frame(&fleet, &picker, 100, 20);
    let joined = rows.join("\n");
    let local_y = joined.find("Local").expect("local row present");
    let alpha_y = joined.find("alpha").expect("alpha row present");
    assert!(
        local_y < alpha_y,
        "Local must appear before any Fleet alias"
    );
}

#[test]
fn disconnected_host_row_renders_annotation() {
    let fleet = test_fleet(vec![("gone", HostState::Disconnected)]);
    let picker = HostPickerModal {
        target_tile: HostPickerTargetTile::Docker,
        required_capability: "docker".into(),
        selected: 0,
    };
    let rows = render_frame(&fleet, &picker, 100, 20);
    let joined = rows.join("\n");
    assert!(
        joined.contains("not connected"),
        "disconnected host must show (not connected): {joined}"
    );
}

#[test]
fn connected_host_row_renders_connected_marker() {
    let fleet = test_fleet(vec![("alive", HostState::Connected)]);
    let picker = HostPickerModal {
        target_tile: HostPickerTargetTile::Docker,
        required_capability: "docker".into(),
        selected: 0,
    };
    let rows = render_frame(&fleet, &picker, 100, 20);
    let joined = rows.join("\n");
    assert!(
        joined.contains("●"),
        "connected host must show the green ● glyph: {joined}"
    );
    assert!(
        joined.contains("connected"),
        "connected host must be labeled connected: {joined}"
    );
}

#[test]
fn selected_row_gets_marker() {
    let fleet = test_fleet(vec![("alpha", HostState::Connected)]);
    let picker = HostPickerModal {
        target_tile: HostPickerTargetTile::Docker,
        required_capability: "docker".into(),
        selected: 1,
    };
    let rows = render_frame(&fleet, &picker, 100, 20);
    let joined = rows.join("\n");
    assert!(
        joined.contains("▶"),
        "selected row must carry the ▶ marker: {joined}"
    );
}

#[test]
fn tiny_terminal_falls_back_to_hint_line() {
    let fleet = test_fleet(vec![]);
    let picker = HostPickerModal {
        target_tile: HostPickerTargetTile::Docker,
        required_capability: "docker".into(),
        selected: 0,
    };
    let rows = render_frame(&fleet, &picker, 20, 4);
    let joined = rows.join("\n");
    assert!(
        joined.contains("too small"),
        "tiny terminal must show a fallback hint: {joined}"
    );
}
