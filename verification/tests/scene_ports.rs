use ratatui::buffer::Buffer;
use ratatui::widgets::{Block, Borders, Clear, Paragraph, Table, Widget, Wrap};
use tepegoz_tui::geometry::Rect;
use tepegoz_tui::ports::{
    PortsActiveView, PortsScope, PortsView, PortsViewState, ProcessesView, ProcessesViewState,
};
use tepegoz_tui::proto::{ProbePort, ProbeProcess};
use tepegoz_tui::scene::ports::render;
use tepegoz_tui::scene::{Color, Draw, Extent, Line, Modifier, Span, Style, TableRow};

/// A ratatui rectangle.
fn rat_rect(r: Rect) -> ratatui::layout::Rect {
    ratatui::layout::Rect { x: r.x, y: r.y, width: r.width, height: r.height }
}

fn rat_color(c: Color) -> ratatui::style::Color {
    match c {
        Color::Black => ratatui::style::Color::Black,
        Color::Red => ratatui::style::Color::Red,
        Color::Green => ratatui::style::Color::Green,
        Color::Yellow => ratatui::style::Color::Yellow,
        Color::Blue => ratatui::style::Color::Blue,
        Color::Cyan => ratatui::style::Color::Cyan,
        Color::Gray => ratatui::style::Color::Gray,
        Color::DarkGray => ratatui::style::Color::DarkGray,
        Color::White => ratatui::style::Color::White,
        Color::Indexed(i) => ratatui::style::Color::Indexed(i),
        Color::Rgb(r, g, b) => ratatui::style::Color::Rgb(r, g, b),
    }
}

fn rat_modifier(m: Modifier) -> ratatui::style::Modifier {
    let mut out = ratatui::style::Modifier::empty();
    if m.bold {
        out |= ratatui::style::Modifier::BOLD;
    }
    if m.dim {
        out |= ratatui::style::Modifier::DIM;
    }
    if m.italic {
        out |= ratatui::style::Modifier::ITALIC;
    }
    if m.underlined {
        out |= ratatui::style::Modifier::UNDERLINED;
    }
    if m.slow_blink {
        out |= ratatui::style::Modifier::SLOW_BLINK;
    }
    if m.reversed {
        out |= ratatui::style::Modifier::REVERSED;
    }
    out
}

fn rat_style(s: Style) -> ratatui::style::Style {
    let mut out = ratatui::style::Style::default().add_modifier(rat_modifier(s.modifier));
    if let Some(c) = s.fg {
        out = out.fg(rat_color(c));
    }
    if let Some(c) = s.bg {
        out = out.bg(rat_color(c));
    }
    out
}

fn rat_spans(spans: &[Span]) -> Vec<ratatui::text::Span<'static>> {
    spans
        .iter()
        .map(|s| ratatui::text::Span::styled(s.text.clone(), rat_style(s.style)))
        .collect()
}

fn rat_line(l: &Line) -> ratatui::text::Line<'static> {
    let line = ratatui::text::Line::from(rat_spans(&l.spans));
    if l.centered {
        line.centered()
    } else {
        line
    }
}

fn rat_row(r: &TableRow) -> ratatui::widgets::Row<'static> {
    ratatui::widgets::Row::new(rat_spans(&r.cells)).style(rat_style(r.style))
}

fn rat_widths(widths: &[Extent]) -> Vec<ratatui::layout::Constraint> {
    widths
        .iter()
        .map(|w| match w {
            Extent::Length(n) => ratatui::layout::Constraint::Length(*n),
            Extent::Min(n) => ratatui::layout::Constraint::Min(*n),
        })
        .collect()
}

/// Paints drawing operations, in order, onto a blank screen.
fn paint(draws: &[Draw], width: u16, height: u16) -> Buffer {
    let mut buf = Buffer::empty(ratatui::layout::Rect::new(0, 0, width, height));
    let screen = buf.area;
    for draw in draws {
        match draw {
            Draw::Clear { area } => Clear.render(rat_rect(*area).intersection(screen), &mut buf),
            Draw::Frame { area, title, title_style, border_style } => Block::default()
                .borders(Borders::ALL)
                .title(title.clone())
                .title_style(rat_style(*title_style))
                .border_style(rat_style(*border_style))
                .render(rat_rect(*area), &mut buf),
            Draw::Text { area, lines, centered, wrap } => {
                let mut text = Paragraph::new(lines.iter().map(rat_line).collect::<Vec<_>>());
                if *centered {
                    text = text.centered();
                }
                if *wrap {
                    text = text.wrap(Wrap { trim: false });
                }
                text.render(rat_rect(*area), &mut buf);
            }
            Draw::Table { area, header, rows, widths } => {
                let mut table =
                    Table::new(rows.iter().map(rat_row), rat_widths(widths)).column_spacing(1);
                if let Some(header) = header {
                    table = table.header(rat_row(header));
                }
                Widget::render(table, rat_rect(*area), &mut buf);
            }
            Draw::Cell { x, y, symbol, style } => {
                if let Some(cell) = buf.cell_mut((*x, *y)) {
                    cell.set_symbol(symbol);
                    cell.set_style(rat_style(*style));
                }
            }
            Draw::Reverse { x, y } => {
                if let Some(cell) = buf.cell_mut((*x, *y)) {
                    let style = cell.style().add_modifier(ratatui::style::Modifier::REVERSED);
                    cell.set_style(style);
                }
            }
        }
    }
    buf
}

/// The rows of a painted screen.
fn painted_rows(draws: &[Draw], width: u16, height: u16) -> Vec<String> {
    paint(draws, width, height)
        .content()
        .chunks(width as usize)
        .map(|row| row.iter().map(|c| c.symbol()).collect::<String>())
        .collect()
}

fn fresh_ports_view() -> PortsView {
    PortsView {
        state: PortsViewState::Connecting,
        selection: 0,
        filter: String::new(),
        filter_active: false,
    }
}

fn fresh_processes_view() -> ProcessesView {
    ProcessesView {
        state: ProcessesViewState::Connecting,
        selection: 0,
        filter: String::new(),
        filter_active: false,
    }
}

fn scope_with_ports(state: PortsViewState) -> PortsScope {
    PortsScope {
        ports: PortsView {
            state,
            selection: 0,
            filter: String::new(),
            filter_active: false,
        },
        processes: fresh_processes_view(),
        active: PortsActiveView::Ports,
        ports_sub_id: 3,
        processes_sub_id: 4,
    }
}

fn scope_with_processes(state: ProcessesViewState) -> PortsScope {
    PortsScope {
        ports: fresh_ports_view(),
        processes: ProcessesView {
            state,
            selection: 0,
            filter: String::new(),
            filter_active: false,
        },
        active: PortsActiveView::Processes,
        ports_sub_id: 3,
        processes_sub_id: 4,
    }
}

fn draw_and_rows(scope: &PortsScope, width: u16, height: u16) -> Vec<String> {
    painted_rows(
        &render(scope, Rect::new(0, 0, width, height), true, false),
        width,
        height,
    )
    .iter()
    .map(|r| r.trim_end().to_string())
    .collect()
}

fn any_row_contains(rows: &[String], needle: &str) -> bool {
    rows.iter().any(|row| row.contains(needle))
}

fn port(protocol: &str, port: u16, pid: u32, name: &str, container: Option<&str>) -> ProbePort {
    ProbePort {
        local_ip: "0.0.0.0".into(),
        local_port: port,
        protocol: protocol.into(),
        pid,
        process_name: name.into(),
        container_id: container.map(|s| s.to_string()),
        partial: false,
    }
}

fn process_row(pid: u32, cmd: &str, cpu: Option<f32>, mem: u64) -> ProbeProcess {
    ProbeProcess {
        pid,
        parent_pid: 1,
        start_time_unix_secs: 1_700_000_000,
        command: cmd.into(),
        cpu_percent: cpu.map(|v| format!("{v:.1}")),
        mem_bytes: mem,
        partial: false,
    }
}

#[test]
fn connecting_state_renders_connecting_message_ports() {
    let scope = scope_with_ports(PortsViewState::Connecting);
    let rows = draw_and_rows(&scope, 120, 30);
    assert!(any_row_contains(&rows, "Connecting to the ports probe"));
    assert!(any_row_contains(&rows, "connecting…"));
}

#[test]
fn connecting_state_renders_connecting_message_processes() {
    let scope = scope_with_processes(ProcessesViewState::Connecting);
    let rows = draw_and_rows(&scope, 120, 30);
    assert!(any_row_contains(&rows, "Connecting to the processes probe"));
}

#[test]
fn available_state_renders_port_table_with_selection_marker() {
    let mut scope = scope_with_ports(PortsViewState::Available {
        rows: vec![
            port("tcp", 3000, 200, "web", None),
            port("tcp", 5432, 300, "postgres", Some("abc123def456")),
            port("tcp", 6379, 400, "redis", None),
        ],
        source: "linux-procfs".into(),
    });
    scope.ports.selection = 1;
    let rows = draw_and_rows(&scope, 120, 30);

    assert!(any_row_contains(&rows, "web"));
    assert!(any_row_contains(&rows, "postgres"));
    assert!(any_row_contains(&rows, "redis"));
    assert!(any_row_contains(&rows, "3000"));
    assert!(any_row_contains(&rows, "5432"));
    assert!(
        any_row_contains(&rows, "abc123def456"),
        "short container id column must render when container_id is Some"
    );

    let selected_row = rows
        .iter()
        .find(|r| r.contains("postgres"))
        .expect("postgres row present");
    assert!(
        selected_row.contains("▶ "),
        "selected row must show ▶ marker; got {selected_row:?}"
    );
    let web_row = rows.iter().find(|r| r.contains("web")).unwrap();
    assert!(
        !web_row.contains("▶ "),
        "non-selected row must not show ▶ marker"
    );

    assert!(
        any_row_contains(&rows, "3/3 port(s)"),
        "status bar must show visible/total count"
    );
    assert!(
        any_row_contains(&rows, "UDP coming v1.1"),
        "status bar must flag the UDP-deferred hint per CTO's 4c UDP resolution"
    );
}

#[test]
fn available_state_renders_processes_table_with_selection_marker() {
    let mut scope = scope_with_processes(ProcessesViewState::Available {
        rows: vec![
            process_row(200, "web", Some(2.5), 8_388_608),
            process_row(300, "postgres -D /var/lib", Some(12.1), 134_217_728),
        ],
        source: "sysinfo".into(),
    });
    scope.processes.selection = 1;
    let rows = draw_and_rows(&scope, 120, 30);

    assert!(any_row_contains(&rows, "web"));
    assert!(any_row_contains(&rows, "postgres"));
    assert!(any_row_contains(&rows, "200"));
    assert!(any_row_contains(&rows, "300"));
    let selected_row = rows
        .iter()
        .find(|r| r.contains("postgres"))
        .expect("postgres row present");
    assert!(
        selected_row.contains("▶ "),
        "selected row must show ▶; got {selected_row:?}"
    );
}

#[test]
fn first_sample_cpu_none_renders_as_em_dash() {
    let scope = scope_with_processes(ProcessesViewState::Available {
        rows: vec![
            process_row(200, "web", None, 8_388_608),
            process_row(300, "postgres", None, 16_777_216),
        ],
        source: "sysinfo".into(),
    });
    let rows = draw_and_rows(&scope, 120, 30);
    let em_dash_count = rows
        .iter()
        .filter(|r| r.contains("—") && !r.contains("stream: ended"))
        .count();
    assert!(
        em_dash_count >= 2,
        "each process row with cpu_percent: None must render em-dash; \
         got rows {rows:?}"
    );
    assert!(
        !any_row_contains(&rows, "0.0"),
        "None must not render as 0.0% — that would mask \"not yet measured\""
    );
}

#[test]
fn measured_cpu_renders_as_number_not_em_dash() {
    let scope = scope_with_processes(ProcessesViewState::Available {
        rows: vec![process_row(200, "nginx", Some(12.5), 8_388_608)],
        source: "sysinfo".into(),
    });
    let rows = draw_and_rows(&scope, 120, 30);
    assert!(
        any_row_contains(&rows, "12.5"),
        "Some(12.5) must render as 12.5, not em-dash; got {rows:?}"
    );
}

#[test]
fn ports_unavailable_renders_reason_verbatim() {
    let reason = "ports probe failed: /proc/net/tcp permission denied";
    let scope = scope_with_ports(PortsViewState::Unavailable {
        reason: reason.into(),
    });
    let rows = draw_and_rows(&scope, 120, 30);
    assert!(any_row_contains(&rows, "Ports probe unavailable"));
    assert!(
        any_row_contains(&rows, "permission denied"),
        "verbatim reason must render; got {rows:?}"
    );
}

#[test]
fn processes_unavailable_renders_reason() {
    let scope = scope_with_processes(ProcessesViewState::Unavailable {
        reason: "sysinfo refresh panicked: signal 11".into(),
    });
    let rows = draw_and_rows(&scope, 120, 30);
    assert!(any_row_contains(&rows, "Processes probe unavailable"));
    assert!(any_row_contains(&rows, "sysinfo refresh panicked"));
}

#[test]
fn empty_ports_list_shows_no_listeners_message() {
    let scope = scope_with_ports(PortsViewState::Available {
        rows: Vec::new(),
        source: "linux-procfs".into(),
    });
    let rows = draw_and_rows(&scope, 120, 30);
    assert!(any_row_contains(&rows, "No listening ports"));
}

#[test]
fn empty_processes_list_shows_no_processes_message() {
    let scope = scope_with_processes(ProcessesViewState::Available {
        rows: Vec::new(),
        source: "sysinfo".into(),
    });
    let rows = draw_and_rows(&scope, 120, 30);
    assert!(any_row_contains(&rows, "No running processes"));
}

#[test]
fn help_bar_on_ports_view_shows_processes_toggle_hint() {
    let scope = scope_with_ports(PortsViewState::Available {
        rows: vec![port("tcp", 8080, 100, "nginx", None)],
        source: "test".into(),
    });
    let rows = draw_and_rows(&scope, 120, 30);
    assert!(
        any_row_contains(&rows, "[p] Processes"),
        "Ports help bar must advertise the Processes toggle; got {rows:?}"
    );
}

#[test]
fn help_bar_on_processes_view_shows_ports_toggle_hint() {
    let scope = scope_with_processes(ProcessesViewState::Available {
        rows: vec![process_row(200, "nginx", Some(1.0), 8_388_608)],
        source: "sysinfo".into(),
    });
    let rows = draw_and_rows(&scope, 120, 30);
    assert!(
        any_row_contains(&rows, "[p] Ports"),
        "Processes help bar must advertise the Ports toggle; got {rows:?}"
    );
}

#[test]
fn ports_filter_bar_shows_caret_when_active() {
    let mut scope = scope_with_ports(PortsViewState::Available {
        rows: vec![port("tcp", 8080, 100, "nginx", None)],
        source: "test".into(),
    });
    scope.ports.filter = "ng".into();
    scope.ports.filter_active = true;
    let rows = draw_and_rows(&scope, 120, 30);
    assert!(
        any_row_contains(&rows, "filter: ng_"),
        "filter bar must render a trailing caret while active; got {rows:?}"
    );
}

#[test]
fn partial_row_shows_question_mark_cue() {
    let mut p = port("tcp", 8080, 0, "", None);
    p.partial = true;
    let scope = scope_with_ports(PortsViewState::Available {
        rows: vec![p],
        source: "test".into(),
    });
    let rows = draw_and_rows(&scope, 120, 30);
    assert!(
        any_row_contains(&rows, "? tcp"),
        "partial: true must render a `?` cue next to the protocol cell"
    );
}
