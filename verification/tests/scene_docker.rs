use ratatui::buffer::Buffer;
use ratatui::widgets::{Block, Borders, Clear, Paragraph, Table, Widget, Wrap};
use std::collections::VecDeque;
use tepegoz_tui::docker::{DockerScope, DockerScopeState, DockerView, PendingConfirm};
use tepegoz_tui::geometry::Rect;
use tepegoz_tui::logs::{LogLine, LogsView};
use tepegoz_tui::proto::{
    DockerActionKind, DockerContainer, DockerPort, LogStream, ScopeTarget,
};
use tepegoz_tui::scene::docker::render;
use tepegoz_tui::scene::{Color, Draw, Extent, Line, Modifier, Span, Style, TableRow};

/// A ratatui rectangle.
fn rat_rect(r: Rect) -> ratatui::layout::Rect {
    ratatui::layout::Rect { x: r.x, y: r.y, width: r.width, height: r.height }
}

fn rat_color(c: Color) -> ratatui::style::Color {
    match c {
        Color::Black => ratatui::style::Color::Black,
        Color::Red => ratatui::style::Color::Red,
        Color::Green => ratatui::style::Color::Green,
        Color::Yellow => ratatui::style::Color::Yellow,
        Color::Blue => ratatui::style::Color::Blue,
        Color::Cyan => ratatui::style::Color::Cyan,
        Color::Gray => ratatui::style::Color::Gray,
        Color::DarkGray => ratatui::style::Color::DarkGray,
        Color::White => ratatui::style::Color::White,
        Color::Indexed(i) => ratatui::style::Color::Indexed(i),
        Color::Rgb(r, g, b) => ratatui::style::Color::Rgb(r, g, b),
    }
}

fn rat_modifier(m: Modifier) -> ratatui::style::Modifier {
    let mut out = ratatui::style::Modifier::empty();
    if m.bold {
        out |= ratatui::style::Modifier::BOLD;
    }
    if m.dim {
        out |= ratatui::style::Modifier::DIM;
    }
    if m.italic {
        out |= ratatui::style::Modifier::ITALIC;
    }
    if m.underlined {
        out |= ratatui::style::Modifier::UNDERLINED;
    }
    if m.slow_blink {
        out |= ratatui::style::Modifier::SLOW_BLINK;
    }
    if m.reversed {
        out |= ratatui::style::Modifier::REVERSED;
    }
    out
}

fn rat_style(s: Style) -> ratatui::style::Style {
    let mut out = ratatui::style::Style::default().add_modifier(rat_modifier(s.modifier));
    if let Some(c) = s.fg {
        out = out.fg(rat_color(c));
    }
    if let Some(c) = s.bg {
        out = out.bg(rat_color(c));
    }
    out
}

fn rat_spans(spans: &[Span]) -> Vec<ratatui::text::Span<'static>> {
    spans
        .iter()
        .map(|s| ratatui::text::Span::styled(s.text.clone(), rat_style(s.style)))
        .collect()
}

fn rat_line(l: &Line) -> ratatui::text::Line<'static> {
    let line = ratatui::text::Line::from(rat_spans(&l.spans));
    if l.centered {
        line.centered()
    } else {
        line
    }
}

fn rat_row(r: &TableRow) -> ratatui::widgets::Row<'static> {
    ratatui::widgets::Row::new(rat_spans(&r.cells)).style(rat_style(r.style))
}

fn rat_widths(widths: &[Extent]) -> Vec<ratatui::layout::Constraint> {
    widths
        .iter()
        .map(|w| match w {
            Extent::Length(n) => ratatui::layout::Constraint::Length(*n),
            Extent::Min(n) => ratatui::layout::Constraint::Min(*n),
        })
        .collect()
}

/// Paints drawing operations, in order, onto a blank screen.
fn paint(draws: &[Draw], width: u16, height: u16) -> Buffer {
    let mut buf = Buffer::empty(ratatui::layout::Rect::new(0, 0, width, height));
    let screen = buf.area;
    for draw in draws {
        match draw {
            Draw::Clear { area } => Clear.render(rat_rect(*area).intersection(screen), &mut buf),
            Draw::Frame { area, title, title_style, border_style } => Block::default()
                .borders(Borders::ALL)
                .title(title.clone())
                .title_style(rat_style(*title_style))
                .border_style(rat_style(*border_style))
                .render(rat_rect(*area), &mut buf),
            Draw::Text { area, lines, centered, wrap } => {
                let mut text = Paragraph::new(lines.iter().map(rat_line).collect::<Vec<_>>());
                if *centered {
                    text = text.centered();
                }
                if *wrap {
                    text = text.wrap(Wrap { trim: false });
                }
                text.render(rat_rect(*area), &mut buf);
            }
            Draw::Table { area, header, rows, widths } => {
                let mut table =
                    Table::new(rows.iter().map(rat_row), rat_widths(widths)).column_spacing(1);
                if let Some(header) = header {
                    table = table.header(rat_row(header));
                }
                Widget::render(table, rat_rect(*area), &mut buf);
            }
            Draw::Cell { x, y, symbol, style } => {
                if let Some(cell) = buf.cell_mut((*x, *y)) {
                    cell.set_symbol(symbol);
                    cell.set_style(rat_style(*style));
                }
            }
            Draw::Reverse { x, y } => {
                if let Some(cell) = buf.cell_mut((*x, *y)) {
                    let style = cell.style().add_modifier(ratatui::style::Modifier::REVERSED);
                    cell.set_style(style);
                }
            }
        }
    }
    buf
}

/// The rows of a painted screen.
fn painted_rows(draws: &[Draw], width: u16, height: u16) -> Vec<String> {
    paint(draws, width, height)
        .content()
        .chunks(width as usize)
        .map(|row| row.iter().map(|c| c.symbol()).collect::<String>())
        .collect()
}

fn make_container(name: &str, image: &str, state: &str, status: &str) -> DockerContainer {
    DockerContainer {
        id: format!("id-{name}"),
        names: vec![format!("/{name}")],
        image: image.into(),
        image_id: "sha256:dead".into(),
        command: "cmd".into(),
        created_unix_secs: 0,
        state: state.into(),
        status: status.into(),
        ports: Vec::new(),
        labels: Vec::new(),
    }
}

fn scope_with(state: DockerScopeState, filter: &str, filter_active: bool) -> DockerScope {
    DockerScope {
        state,
        view: DockerView::List,
        selection: 0,
        filter: filter.to_string(),
        filter_active,
        sub_id: 42,
        pending_confirm: None,
        target: ScopeTarget::Local,
    }
}

fn draw_and_rows(scope: &DockerScope, width: u16, height: u16) -> Vec<String> {
    painted_rows(
        &render(scope, Rect::new(0, 0, width, height), true, false),
        width,
        height,
    )
    .iter()
    .map(|r| r.trim_end().to_string())
    .collect()
}

fn any_row_contains(rows: &[String], needle: &str) -> bool {
    rows.iter().any(|row| row.contains(needle))
}

#[test]
fn available_state_renders_container_table_with_names_states_and_selection_marker() {
    let mut scope = scope_with(
        DockerScopeState::Available {
            containers: vec![
                make_container("webapp", "nginx:latest", "running", "Up 5 min"),
                make_container("postgres-db", "postgres:14", "running", "Up 10 min"),
                make_container("stale", "alpine:latest", "exited", "Exited (0)"),
            ],
            engine_source: "Docker Desktop".into(),
        },
        "",
        false,
    );
    scope.selection = 1;

    let rows = draw_and_rows(&scope, 120, 30);

    assert!(any_row_contains(&rows, "webapp"));
    assert!(any_row_contains(&rows, "postgres-db"));
    assert!(any_row_contains(&rows, "stale"));
    assert!(any_row_contains(&rows, "nginx:latest"));
    assert!(any_row_contains(&rows, "running"));
    assert!(any_row_contains(&rows, "exited"));

    let selected_row = rows
        .iter()
        .find(|r| r.contains("postgres-db"))
        .expect("postgres-db row present");
    assert!(
        selected_row.contains("▶ "),
        "selected row must show ▶ marker; got {selected_row:?}"
    );

    let web_row = rows.iter().find(|r| r.contains("webapp")).unwrap();
    assert!(
        !web_row.contains("▶ "),
        "non-selected row must not show ▶ marker; got {web_row:?}"
    );

    assert!(any_row_contains(&rows, "Docker Desktop"));
    assert!(any_row_contains(&rows, "3/3"));
}

#[test]
fn connecting_state_renders_connecting_message() {
    let scope = scope_with(DockerScopeState::Connecting, "", false);
    let rows = draw_and_rows(&scope, 120, 30);
    assert!(any_row_contains(&rows, "Connecting to docker engine"));
    assert!(any_row_contains(&rows, "connecting…"));
}

#[test]
fn unavailable_state_renders_reason_verbatim() {
    let reason = "docker engine unreachable. Tried:\n  - Docker Desktop: socket file not found";
    let scope = scope_with(
        DockerScopeState::Unavailable {
            reason: reason.into(),
        },
        "",
        false,
    );
    let rows = draw_and_rows(&scope, 120, 30);
    assert!(any_row_contains(&rows, "Docker engine unavailable"));
    assert!(
        any_row_contains(&rows, "Docker Desktop: socket file not found"),
        "Unavailable reason text must render verbatim. Rows: {rows:?}"
    );
    assert!(any_row_contains(&rows, "unavailable"));
}

#[test]
fn available_but_empty_shows_distinct_no_containers_message() {
    let scope = scope_with(
        DockerScopeState::Available {
            containers: Vec::new(),
            engine_source: "Docker Desktop".into(),
        },
        "",
        false,
    );
    let rows = draw_and_rows(&scope, 120, 30);
    assert!(any_row_contains(&rows, "No containers"));
    assert!(!any_row_contains(&rows, "Docker engine unavailable"));
}

#[test]
fn filter_that_matches_nothing_shows_no_match_message() {
    let scope = scope_with(
        DockerScopeState::Available {
            containers: vec![make_container("web", "nginx", "running", "Up")],
            engine_source: "test".into(),
        },
        "no-such-container",
        false,
    );
    let rows = draw_and_rows(&scope, 120, 30);
    assert!(any_row_contains(&rows, "No containers match filter"));
    assert!(any_row_contains(&rows, "filter: no-such-container"));
}

#[test]
fn docker_filter_bar_shows_caret_when_active() {
    let scope = scope_with(
        DockerScopeState::Available {
            containers: vec![make_container("web", "nginx", "running", "Up")],
            engine_source: "test".into(),
        },
        "we",
        true,
    );
    let rows = draw_and_rows(&scope, 120, 30);
    let filter_row = rows.iter().find(|r| r.contains("filter:")).unwrap();
    assert!(
        filter_row.contains("we_"),
        "active filter must end with the caret `_`; got {filter_row:?}"
    );
}

#[test]
fn ports_column_shows_public_and_internal_mappings() {
    let c = DockerContainer {
        id: "id".into(),
        names: vec!["/web".into()],
        image: "nginx".into(),
        image_id: "sha256:d".into(),
        command: String::new(),
        created_unix_secs: 0,
        state: "running".into(),
        status: "Up".into(),
        ports: vec![
            DockerPort {
                ip: "0.0.0.0".into(),
                private_port: 8080,
                public_port: 80,
                protocol: "tcp".into(),
            },
            DockerPort {
                ip: "".into(),
                private_port: 9090,
                public_port: 0,
                protocol: "tcp".into(),
            },
        ],
        labels: Vec::new(),
    };
    let scope = scope_with(
        DockerScopeState::Available {
            containers: vec![c],
            engine_source: "test".into(),
        },
        "",
        false,
    );
    let rows = draw_and_rows(&scope, 180, 20);
    let web_row = rows
        .iter()
        .find(|r| r.contains("/web"))
        .expect("web row present");
    assert!(
        web_row.contains("80") && web_row.contains("8080"),
        "public port mapping must render; got {web_row:?}"
    );
    assert!(
        web_row.contains("9090/tcp"),
        "internal-only port must render as `9090/tcp`; got {web_row:?}"
    );
}

#[test]
fn pending_confirm_renders_modal_with_container_name_and_prompt() {
    let mut scope = scope_with(
        DockerScopeState::Available {
            containers: vec![make_container("web", "nginx", "running", "Up")],
            engine_source: "test".into(),
        },
        "",
        false,
    );
    scope.pending_confirm = Some(PendingConfirm {
        kind: DockerActionKind::Kill,
        container_id: "id-web".into(),
        container_name: "web".into(),
        deadline: 10_000,
    });
    let rows = draw_and_rows(&scope, 120, 30);
    let joined = rows.join("\n");
    assert!(
        joined.contains("Kill container web?"),
        "confirm prompt must name the action + container; got {joined}"
    );
    assert!(
        joined.contains("[y] confirm"),
        "confirm body must list the y hint; got {joined}"
    );
    assert!(
        any_row_contains(&rows, "[y] confirm"),
        "help bar must change when confirm is active"
    );
}

#[test]
fn confirm_modal_is_absent_without_pending_confirm() {
    let scope = scope_with(
        DockerScopeState::Available {
            containers: vec![make_container("web", "nginx", "running", "Up")],
            engine_source: "test".into(),
        },
        "",
        false,
    );
    let rows = draw_and_rows(&scope, 120, 30);
    let joined = rows.join("\n");
    assert!(!joined.contains("confirm"));
    assert!(!joined.contains("Kill container"));
}

#[test]
fn help_bar_shows_action_keybinds_when_idle() {
    let scope = scope_with(
        DockerScopeState::Available {
            containers: vec![make_container("web", "nginx", "running", "Up")],
            engine_source: "test".into(),
        },
        "",
        false,
    );
    let rows = draw_and_rows(&scope, 120, 30);
    assert!(
        any_row_contains(&rows, "[r] restart"),
        "help bar must advertise r/s/K/X keybinds in the idle state"
    );
    assert!(any_row_contains(&rows, "[K] kill"));
    assert!(any_row_contains(&rows, "[X] remove"));
}

#[test]
fn logs_view_renders_status_bar_transcript_and_help() {
    let mut scope = scope_with(
        DockerScopeState::Available {
            containers: vec![make_container("web", "nginx", "running", "Up")],
            engine_source: "test".into(),
        },
        "",
        false,
    );
    let mut lines = VecDeque::new();
    lines.push_back(LogLine {
        stream: LogStream::Stdout,
        text: "started server on :8080".into(),
    });
    lines.push_back(LogLine {
        stream: LogStream::Stderr,
        text: "WARN: connection refused from 10.0.0.5".into(),
    });
    let logs = LogsView {
        container_id: "id-web".into(),
        container_name: "web".into(),
        sub_id: 99,
        lines,
        pending_stdout: Vec::new(),
        pending_stderr: Vec::new(),
        scroll_offset: 0,
        at_tail: true,
        stream_ended: None,
    };
    scope.view = DockerView::Logs(logs);

    let rows = draw_and_rows(&scope, 120, 20);
    let joined = rows.join("\n");
    assert!(
        joined.contains("docker · logs · web"),
        "tile title must show container name; got {joined}"
    );
    assert!(joined.contains("2 lines"));
    assert!(joined.contains("tail: on"));
    assert!(joined.contains("stream: live"));
    assert!(
        joined.contains("started server on :8080"),
        "stdout line rendered"
    );
    assert!(
        joined.contains("WARN: connection refused from 10.0.0.5"),
        "stderr line rendered"
    );
    assert!(
        any_row_contains(&rows, "[j/k] scroll") && any_row_contains(&rows, "[Esc/q] back"),
        "logs help bar must list scroll + back keys; got {rows:?}"
    );
    assert!(
        !any_row_contains(&rows, "[r] restart"),
        "list-view help must NOT show while logs are displayed"
    );
}

#[test]
fn logs_view_renders_stream_ended_marker() {
    let mut scope = scope_with(
        DockerScopeState::Available {
            containers: vec![make_container("web", "nginx", "running", "Up")],
            engine_source: "test".into(),
        },
        "",
        false,
    );
    let mut lines = VecDeque::new();
    lines.push_back(LogLine {
        stream: LogStream::Stdout,
        text: "bye".into(),
    });
    let logs = LogsView {
        container_id: "id-web".into(),
        container_name: "web".into(),
        sub_id: 99,
        lines,
        pending_stdout: Vec::new(),
        pending_stderr: Vec::new(),
        scroll_offset: 0,
        at_tail: false,
        stream_ended: Some("container exited".into()),
    };
    scope.view = DockerView::Logs(logs);

    let rows = draw_and_rows(&scope, 120, 20);
    let joined = rows.join("\n");
    assert!(joined.contains("bye"));
    assert!(
        joined.contains("— log stream ended: container exited —"),
        "stream-ended marker renders verbatim; got {joined}"
    );
    assert!(joined.contains("tail: off"));
    assert!(
        joined.contains("stream: ended: container exited"),
        "status bar shows ended + reason; got {joined}"
    );
}

#[test]
fn logs_view_confirm_modal_is_suppressed() {
    let mut scope = scope_with(
        DockerScopeState::Available {
            containers: vec![make_container("web", "nginx", "running", "Up")],
            engine_source: "test".into(),
        },
        "",
        false,
    );
    scope.pending_confirm = Some(PendingConfirm {
        kind: DockerActionKind::Kill,
        container_id: "id-web".into(),
        container_name: "web".into(),
        deadline: 10_000,
    });
    scope.view = DockerView::Logs(LogsView {
        container_id: "id-web".into(),
        container_name: "web".into(),
        sub_id: 99,
        lines: VecDeque::new(),
        pending_stdout: Vec::new(),
        pending_stderr: Vec::new(),
        scroll_offset: 0,
        at_tail: true,
        stream_ended: None,
    });
    let rows = draw_and_rows(&scope, 120, 20);
    let joined = rows.join("\n");
    assert!(
        !joined.contains("Kill container web?"),
        "confirm modal must not render over logs view; got {joined}"
    );
}

#[test]
fn unfocused_border_is_dimmed() {
    let scope = scope_with(DockerScopeState::Connecting, "", false);
    let rows: Vec<String> = painted_rows(
        &render(&scope, Rect::new(0, 0, 60, 15), false, false),
        60,
        15,
    );
    assert!(rows[0].contains('─'), "top border must still be drawn");
    assert!(
        rows.iter().any(|r| r.contains("Connecting")),
        "content must still render when unfocused"
    );
}
