use ratatui::buffer::Buffer;
use ratatui::widgets::{Block, Borders, Clear, Paragraph, Table, Widget, Wrap};
use std::collections::HashMap;
use tepegoz_tui::fleet::{FleetScope, FleetScopeState};
use tepegoz_tui::geometry::Rect;
use tepegoz_tui::proto::{HostEntry, HostState};
use tepegoz_tui::scene::fleet::render;
use tepegoz_tui::scene::{Color, Draw, Extent, Line, Modifier, Span, Style, TableRow};
use vstd::hash_map::StringHashMap;

/// A ratatui rectangle.
fn rat_rect(r: Rect) -> ratatui::layout::Rect {
    ratatui::layout::Rect { x: r.x, y: r.y, width: r.width, height: r.height }
}

fn rat_color(c: Color) -> ratatui::style::Color {
    match c {
        Color::Black => ratatui::style::Color::Black,
        Color::Red => ratatui::style::Color::Red,
        Color::Green => ratatui::style::Color::Green,
        Color::Yellow => ratatui::style::Color::Yellow,
        Color::Blue => ratatui::style::Color::Blue,
        Color::Cyan => ratatui::style::Color::Cyan,
        Color::Gray => ratatui::style::Color::Gray,
        Color::DarkGray => ratatui::style::Color::DarkGray,
        Color::White => ratatui::style::Color::White,
        Color::Indexed(i) => ratatui::style::Color::Indexed(i),
        Color::Rgb(r, g, b) => ratatui::style::Color::Rgb(r, g, b),
    }
}

fn rat_modifier(m: Modifier) -> ratatui::style::Modifier {
    let mut out = ratatui::style::Modifier::empty();
    if m.bold {
        out |= ratatui::style::Modifier::BOLD;
    }
    if m.dim {
        out |= ratatui::style::Modifier::DIM;
    }
    if m.italic {
        out |= ratatui::style::Modifier::ITALIC;
    }
    if m.underlined {
        out |= ratatui::style::Modifier::UNDERLINED;
    }
    if m.slow_blink {
        out |= ratatui::style::Modifier::SLOW_BLINK;
    }
    if m.reversed {
        out |= ratatui::style::Modifier::REVERSED;
    }
    out
}

fn rat_style(s: Style) -> ratatui::style::Style {
    let mut out = ratatui::style::Style::default().add_modifier(rat_modifier(s.modifier));
    if let Some(c) = s.fg {
        out = out.fg(rat_color(c));
    }
    if let Some(c) = s.bg {
        out = out.bg(rat_color(c));
    }
    out
}

fn rat_spans(spans: &[Span]) -> Vec<ratatui::text::Span<'static>> {
    spans
        .iter()
        .map(|s| ratatui::text::Span::styled(s.text.clone(), rat_style(s.style)))
        .collect()
}

fn rat_line(l: &Line) -> ratatui::text::Line<'static> {
    let line = ratatui::text::Line::from(rat_spans(&l.spans));
    if l.centered {
        line.centered()
    } else {
        line
    }
}

fn rat_row(r: &TableRow) -> ratatui::widgets::Row<'static> {
    ratatui::widgets::Row::new(rat_spans(&r.cells)).style(rat_style(r.style))
}

fn rat_widths(widths: &[Extent]) -> Vec<ratatui::layout::Constraint> {
    widths
        .iter()
        .map(|w| match w {
            Extent::Length(n) => ratatui::layout::Constraint::Length(*n),
            Extent::Min(n) => ratatui::layout::Constraint::Min(*n),
        })
        .collect()
}

/// Paints drawing operations, in order, onto a blank screen.
fn paint(draws: &[Draw], width: u16, height: u16) -> Buffer {
    let mut buf = Buffer::empty(ratatui::layout::Rect::new(0, 0, width, height));
    let screen = buf.area;
    for draw in draws {
        match draw {
            Draw::Clear { area } => Clear.render(rat_rect(*area).intersection(screen), &mut buf),
            Draw::Frame { area, title, title_style, border_style } => Block::default()
                .borders(Borders::ALL)
                .title(title.clone())
                .title_style(rat_style(*title_style))
                .border_style(rat_style(*border_style))
                .render(rat_rect(*area), &mut buf),
            Draw::Text { area, lines, centered, wrap } => {
                let mut text = Paragraph::new(lines.iter().map(rat_line).collect::<Vec<_>>());
                if *centered {
                    text = text.centered();
                }
                if *wrap {
                    text = text.wrap(Wrap { trim: false });
                }
                text.render(rat_rect(*area), &mut buf);
            }
            Draw::Table { area, header, rows, widths } => {
                let mut table =
                    Table::new(rows.iter().map(rat_row), rat_widths(widths)).column_spacing(1);
                if let Some(header) = header {
                    table = table.header(rat_row(header));
                }
                Widget::render(table, rat_rect(*area), &mut buf);
            }
            Draw::Cell { x, y, symbol, style } => {
                if let Some(cell) = buf.cell_mut((*x, *y)) {
                    cell.set_symbol(symbol);
                    cell.set_style(rat_style(*style));
                }
            }
            Draw::Reverse { x, y } => {
                if let Some(cell) = buf.cell_mut((*x, *y)) {
                    let style = cell.style().add_modifier(ratatui::style::Modifier::REVERSED);
                    cell.set_style(style);
                }
            }
        }
    }
    buf
}

/// The rows of a painted screen.
fn painted_rows(draws: &[Draw], width: u16, height: u16) -> Vec<String> {
    paint(draws, width, height)
        .content()
        .chunks(width as usize)
        .map(|row| row.iter().map(|c| c.symbol()).collect::<String>())
        .collect()
}

fn render_to_string(scope: &FleetScope, focused: bool) -> String {
    let area = Rect::new(0, 0, 60, 16);
    let mut out = painted_rows(&render(scope, area, focused), 60, 16).join("\n");
    out.push('\n');
    out
}

/// The library's map of connection states.
fn known(states: HashMap<String, HostState>) -> StringHashMap<HostState> {
    let mut map = StringHashMap::new();
    for (alias, state) in states {
        map.insert(alias, state);
    }
    map
}

fn scope_with(
    hosts: Vec<HostEntry>,
    states: HashMap<String, HostState>,
    source: &str,
) -> FleetScope {
    FleetScope {
        state: FleetScopeState::Available {
            hosts,
            states: known(states),
            source: source.to_string(),
        },
        selection: 0,
        filter: String::new(),
        filter_active: false,
        sub_id: 1,
    }
}

fn host(alias: &str) -> HostEntry {
    HostEntry {
        alias: alias.into(),
        hostname: format!("{alias}.box"),
        user: "alice".into(),
        port: 22,
        identity_files: vec![],
        proxy_jump: None,
    }
}

#[test]
fn connecting_renders_discovering_hint() {
    let scope = FleetScope {
        state: FleetScopeState::Connecting,
        selection: 0,
        filter: String::new(),
        filter_active: false,
        sub_id: 1,
    };
    let out = render_to_string(&scope, true);
    assert!(out.contains("Discovering"));
}

#[test]
fn empty_host_list_shows_first_run_hint() {
    let scope = scope_with(vec![], HashMap::new(), "(none)");
    let out = render_to_string(&scope, false);
    assert!(
        out.contains("No SSH hosts") || out.contains("~/.ssh/config"),
        "empty host list should render the first-run hint, got:\n{out}"
    );
}

#[test]
fn filtered_empty_list_shows_no_match_hint() {
    let mut states = HashMap::new();
    states.insert("staging".to_string(), HostState::Disconnected);
    let mut scope = scope_with(vec![host("staging")], states, "ssh_config");
    scope.filter = "nope".to_string();
    let out = render_to_string(&scope, false);
    assert!(out.contains("No hosts match filter"));
}

#[test]
fn available_renders_one_row_per_host_with_selection_marker() {
    let mut states = HashMap::new();
    states.insert("staging".into(), HostState::Disconnected);
    states.insert("dev-eu".into(), HostState::Disconnected);
    let scope = scope_with(vec![host("staging"), host("dev-eu")], states, "ssh_config");
    let out = render_to_string(&scope, true);
    assert!(out.contains("staging"));
    assert!(out.contains("dev-eu"));
    assert!(out.contains("▶"), "selection marker should appear");
}

#[test]
fn state_glyphs_distinguish_all_four_ui_states() {
    let mut states = HashMap::new();
    states.insert("a".into(), HostState::Connected);
    states.insert("b".into(), HostState::Connecting);
    states.insert("c".into(), HostState::Disconnected);
    states.insert("d".into(), HostState::AuthFailed);
    let scope = scope_with(
        vec![host("a"), host("b"), host("c"), host("d")],
        states,
        "ssh_config",
    );
    let out = render_to_string(&scope, true);
    assert!(out.contains("●"), "Connected → ●");
    assert!(out.contains("◐"), "Connecting → ◐");
    assert!(out.contains("○"), "Disconnected → ○");
    assert!(out.contains("⚠"), "AuthFailed → ⚠");
}

#[test]
fn footer_help_bar_shows_nav_and_filter_hints() {
    let mut states = HashMap::new();
    states.insert("h".into(), HostState::Disconnected);
    let scope = scope_with(vec![host("h")], states, "ssh_config");
    let out = render_to_string(&scope, true);
    assert!(out.contains("[j/k] nav"));
    assert!(out.contains("[/] filter"));
}

#[test]
fn filter_active_swaps_help_bar_to_filter_keybinds() {
    let mut states = HashMap::new();
    states.insert("h".into(), HostState::Disconnected);
    let mut scope = scope_with(vec![host("h")], states, "ssh_config");
    scope.filter_active = true;
    let out = render_to_string(&scope, true);
    assert!(out.contains("[Enter] apply"));
    assert!(out.contains("[Esc] clear"));
}

#[test]
fn procs_column_is_em_dash_placeholder_in_phase_5() {
    let mut states = HashMap::new();
    states.insert("h".into(), HostState::Disconnected);
    let scope = scope_with(vec![host("h")], states, "ssh_config");
    let out = render_to_string(&scope, true);
    assert!(
        out.contains("—"),
        "procs column should render em-dash placeholder in Phase 5"
    );
}
