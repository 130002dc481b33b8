use ratatui::buffer::Buffer;
use ratatui::widgets::{Block, Borders, Clear, Paragraph, Table, Widget, Wrap};
use tepegoz_tui::app::App;
use tepegoz_tui::event::{AppEvent, ToastKind};
use tepegoz_tui::fleet::FleetScopeState;
use tepegoz_tui::geometry::Rect;
use tepegoz_tui::proto::{Envelope, Event, EventFrame, Payload, StatusSnapshot};
use tepegoz_tui::scene::screen::render_tiles;
use tepegoz_tui::scene::status::render as render_status;
use tepegoz_tui::scene::{Color, Draw, Extent, Line, Modifier, Span, Style, TableRow};
use tepegoz_tui::status::ConnectionState;
use tepegoz_tui::tile::TileId;
use vstd::hash_map::StringHashMap;

/// A ratatui rectangle.
fn rat_rect(r: Rect) -> ratatui::layout::Rect {
    ratatui::layout::Rect { x: r.x, y: r.y, width: r.width, height: r.height }
}

fn rat_color(c: Color) -> ratatui::style::Color {
    match c {
        Color::Black => ratatui::style::Color::Black,
        Color::Red => ratatui::style::Color::Red,
        Color::Green => ratatui::style::Color::Green,
        Color::Yellow => ratatui::style::Color::Yellow,
        Color::Blue => ratatui::style::Color::Blue,
        Color::Cyan => ratatui::style::Color::Cyan,
        Color::Gray => ratatui::style::Color::Gray,
        Color::DarkGray => ratatui::style::Color::DarkGray,
        Color::White => ratatui::style::Color::White,
        Color::Indexed(i) => ratatui::style::Color::Indexed(i),
        Color::Rgb(r, g, b) => ratatui::style::Color::Rgb(r, g, b),
    }
}

fn rat_modifier(m: Modifier) -> ratatui::style::Modifier {
    let mut out = ratatui::style::Modifier::empty();
    if m.bold {
        out |= ratatui::style::Modifier::BOLD;
    }
    if m.dim {
        out |= ratatui::style::Modifier::DIM;
    }
    if m.italic {
        out |= ratatui::style::Modifier::ITALIC;
    }
    if m.underlined {
        out |= ratatui::style::Modifier::UNDERLINED;
    }
    if m.slow_blink {
        out |= ratatui::style::Modifier::SLOW_BLINK;
    }
    if m.reversed {
        out |= ratatui::style::Modifier::REVERSED;
    }
    out
}

fn rat_style(s: Style) -> ratatui::style::Style {
    let mut out = ratatui::style::Style::default().add_modifier(rat_modifier(s.modifier));
    if let Some(c) = s.fg {
        out = out.fg(rat_color(c));
    }
    if let Some(c) = s.bg {
        out = out.bg(rat_color(c));
    }
    out
}

fn rat_spans(spans: &[Span]) -> Vec<ratatui::text::Span<'static>> {
    spans
        .iter()
        .map(|s| ratatui::text::Span::styled(s.text.clone(), rat_style(s.style)))
        .collect()
}

fn rat_line(l: &Line) -> ratatui::text::Line<'static> {
    let line = ratatui::text::Line::from(rat_spans(&l.spans));
    if l.centered {
        line.centered()
    } else {
        line
    }
}

fn rat_row(r: &TableRow) -> ratatui::widgets::Row<'static> {
    ratatui::widgets::Row::new(rat_spans(&r.cells)).style(rat_style(r.style))
}

fn rat_widths(widths: &[Extent]) -> Vec<ratatui::layout::Constraint> {
    widths
        .iter()
        .map(|w| match w {
            Extent::Length(n) => ratatui::layout::Constraint::Length(*n),
            Extent::Min(n) => ratatui::layout::Constraint::Min(*n),
        })
        .collect()
}

/// Paints drawing operations, in order, onto a blank screen.
fn paint(draws: &[Draw], width: u16, height: u16) -> Buffer {
    let mut buf = Buffer::empty(ratatui::layout::Rect::new(0, 0, width, height));
    let screen = buf.area;
    for draw in draws {
        match draw {
            Draw::Clear { area } => Clear.render(rat_rect(*area).intersection(screen), &mut buf),
            Draw::Frame { area, title, title_style, border_style } => Block::default()
                .borders(Borders::ALL)
                .title(title.clone())
                .title_style(rat_style(*title_style))
                .border_style(rat_style(*border_style))
                .render(rat_rect(*area), &mut buf),
            Draw::Text { area, lines, centered, wrap } => {
                let mut text = Paragraph::new(lines.iter().map(rat_line).collect::<Vec<_>>());
                if *centered {
                    text = text.centered();
                }
                if *wrap {
                    text = text.wrap(Wrap { trim: false });
                }
                text.render(rat_rect(*area), &mut buf);
            }
            Draw::Table { area, header, rows, widths } => {
                let mut table =
                    Table::new(rows.iter().map(rat_row), rat_widths(widths)).column_spacing(1);
                if let Some(header) = header {
                    table = table.header(rat_row(header));
                }
                Widget::render(table, rat_rect(*area), &mut buf);
            }
            Draw::Cell { x, y, symbol, style } => {
                if let Some(cell) = buf.cell_mut((*x, *y)) {
                    cell.set_symbol(symbol);
                    cell.set_style(rat_style(*style));
                }
            }
            Draw::Reverse { x, y } => {
                if let Some(cell) = buf.cell_mut((*x, *y)) {
                    let style = cell.style().add_modifier(ratatui::style::Modifier::REVERSED);
                    cell.set_style(style);
                }
            }
        }
    }
    buf
}

/// The rows of a painted screen.
fn painted_rows(draws: &[Draw], width: u16, height: u16) -> Vec<String> {
    paint(draws, width, height)
        .content()
        .chunks(width as usize)
        .map(|row| row.iter().map(|c| c.symbol()).collect::<String>())
        .collect()
}

const NOW: u64 = 1_000_000;

fn output(app: &mut App, data: &[u8]) {
    let payload = Payload::Event(EventFrame {
        subscription_id: app.pane_sub,
        event: Event::PaneOutput { data: data.to_vec() },
    });
    app.handle_event(AppEvent::DaemonEnvelope(Envelope { payload }), NOW);
}

#[test]
fn the_god_view_shows_every_tile() {
    let mut app = App::new(7, (40, 120));
    output(&mut app, b"$ make test");
    let rows = painted_rows(&render_tiles(&app), 120, 40);
    let all = rows.join("\n");
    for text in [
        "$ make test",
        "docker · local",
        "Connecting to docker engine",
        "Connecting to the ports probe",
        "Discovering SSH hosts",
    ] {
        assert!(all.contains(text), "{text} is missing from\n{all}");
    }
    assert!(rows[0].starts_with("┌pty"));
}

#[test]
fn a_small_terminal_shows_only_a_notice() {
    let app = App::new(7, (10, 40));
    let rows = painted_rows(&render_tiles(&app), 40, 10);
    let all = rows.join("\n");
    assert!(all.contains("Terminal too small for god view"), "{all}");
    assert!(all.contains("80×24") && !all.contains("docker"), "{all}");
}

#[test]
fn toasts_lie_on_top_of_the_tiles() {
    let mut app = App::new(7, (40, 120));
    let mut actions = Vec::new();
    app.push_toast_at(NOW, ToastKind::Error, "disk full".into(), &mut actions);
    let rows = painted_rows(&render_tiles(&app), 120, 40);
    assert!(rows[36].starts_with(" err: disk full"), "{:?}", rows[36]);
}

#[test]
fn the_cursor_is_shown_only_when_focused_and_not_hidden() {
    let mut app = App::new(7, (40, 120));
    output(&mut app, b"ab");
    let reversed = |app: &App| {
        paint(&render_tiles(app), 120, 40)
            .cell((3u16, 1u16))
            .unwrap()
            .modifier
            .contains(ratatui::style::Modifier::REVERSED)
    };
    assert!(reversed(&app));
    app.handle_event(AppEvent::StdinChunk(b"\x02j".to_vec()), NOW);
    assert!(!reversed(&app));
    app.handle_event(AppEvent::StdinChunk(b"\x02k".to_vec()), NOW);
    output(&mut app, b"\x1b[?25l");
    assert!(!reversed(&app));
}

#[test]
fn terminal_colours_and_attributes_are_kept() {
    let mut app = App::new(7, (40, 120));
    output(&mut app, b"\x1b[1;31;44mA\x1b[0;3;4;38;2;1;2;3mB\x1b[0;7mC");
    let buf = paint(&render_tiles(&app), 120, 40);
    let a = buf.cell((1u16, 1u16)).unwrap();
    assert_eq!(a.symbol(), "A");
    assert_eq!(a.fg, ratatui::style::Color::Indexed(1));
    assert_eq!(a.bg, ratatui::style::Color::Indexed(4));
    assert!(a.modifier.contains(ratatui::style::Modifier::BOLD));
    let b = buf.cell((2u16, 1u16)).unwrap();
    assert_eq!(b.fg, ratatui::style::Color::Rgb(1, 2, 3));
    let italic_underlined =
        ratatui::style::Modifier::ITALIC | ratatui::style::Modifier::UNDERLINED;
    assert!(b.modifier.contains(italic_underlined));
    let c = buf.cell((3u16, 1u16)).unwrap();
    assert!(c.modifier.contains(ratatui::style::Modifier::REVERSED));
}

#[test]
fn the_focused_tile_is_bright_and_the_hovered_one_lit() {
    let mut app = App::new(7, (40, 120));
    let docker = app.view.layout.rect_of(TileId::Docker).unwrap();
    let ports = app.view.layout.rect_of(TileId::Ports).unwrap();
    app.handle_event(AppEvent::MouseHover { x: docker.x + 1, y: docker.y + 1 }, NOW);
    let buf = paint(&render_tiles(&app), 120, 40);
    let corner = |r: Rect| buf.cell((r.x, r.y + 1)).unwrap();
    assert_eq!(corner(docker).fg, ratatui::style::Color::Cyan);
    assert!(corner(docker).modifier.contains(ratatui::style::Modifier::DIM));
    assert_eq!(corner(ports).fg, ratatui::style::Color::DarkGray);
    let pty = buf.cell((0u16, 1u16)).unwrap();
    assert_eq!(pty.fg, ratatui::style::Color::Cyan);
    assert!(!pty.modifier.contains(ratatui::style::Modifier::DIM));
}

#[test]
fn a_label_is_cut_between_characters() {
    let mut app = App::new(7, (24, 80));
    let width = app.view.layout.rect_of(TileId::Fleet).unwrap().width - 2;
    assert!(width < 38);
    app.fleet.state = FleetScopeState::Available {
        hosts: vec![],
        states: StringHashMap::new(),
        source: "é".repeat(40),
    };
    render_tiles(&app);
    let mut wide = App::new(7, (40, 240));
    wide.fleet.state = FleetScopeState::Available {
        hosts: vec![],
        states: StringHashMap::new(),
        source: format!("{}x", "é".repeat(60)),
    };
    let inside = wide.view.layout.rect_of(TileId::Fleet).unwrap().width as usize - 2;
    let kept = (inside - 31) / 2;
    let rows = painted_rows(&render_tiles(&wide), 240, 40);
    let label = format!("source: …{}x ", "é".repeat(kept));
    assert!(rows.iter().any(|r| r.contains(&label)));
}

#[test]
fn the_status_view_shows_the_last_snapshot() {
    let snapshot = StatusSnapshot {
        daemon_pid: 42,
        daemon_version: "0.0.9".into(),
        socket_path: "/run/tepegoz.sock".into(),
        uptime_seconds: 3_661,
        clients_now: 2,
        clients_total: 17,
        events_sent: 123_456,
    };
    let area = Rect::new(0, 0, 60, 14);
    let rows = painted_rows(
        &render_status(&ConnectionState::Connected, "0.0.1", &Some(snapshot), area),
        60,
        14,
    );
    assert!(rows[0].starts_with(" Tepegöz   v0.0.1  ● connected"), "{:?}", rows[0]);
    let all = rows.join("\n");
    for text in [
        " daemon status ",
        "  daemon pid      42",
        "  daemon version  0.0.9",
        "  socket          /run/tepegoz.sock",
        "  uptime          01:01:01",
        "  clients now     2",
        "  clients total   17",
        "  events sent     123456",
    ] {
        assert!(all.contains(text), "{text} is missing from\n{all}");
    }
    assert!(rows[13].starts_with(" q  quit   Esc  quit"), "{:?}", rows[13]);
}

#[test]
fn the_status_view_waits_and_says_why_it_is_lost() {
    let area = Rect::new(0, 0, 60, 10);
    let rows =
        painted_rows(&render_status(&ConnectionState::Connecting, "1", &None, area), 60, 10);
    assert!(rows[0].contains("● connecting"));
    assert!(rows.join("\n").contains("waiting for first snapshot..."));
    let lost = ConnectionState::Disconnected("connect: refused".into());
    let rows = painted_rows(&render_status(&lost, "1", &None, area), 60, 10);
    assert!(rows[0].starts_with(" Tepegöz   ● disconnected — connect: refused"), "{:?}", rows[0]);
}
