use ratatui::buffer::Buffer;
use ratatui::widgets::{Block, Borders, Clear, Paragraph, Table, Widget, Wrap};
use tepegoz_tui::app::Toast;
use tepegoz_tui::event::ToastKind;
use tepegoz_tui::geometry::Rect;
use tepegoz_tui::model::MAX_TOASTS;
use tepegoz_tui::scene::overlay::{render_help, render_placeholder, render_toasts};
use tepegoz_tui::scene::{border_style, no_modifier};
use tepegoz_tui::scene::{Color, Draw, Extent, Line, Modifier, Span, Style, TableRow};
use tepegoz_tui::tile::TileLayout;

/// A ratatui rectangle.
fn rat_rect(r: Rect) -> ratatui::layout::Rect {
    ratatui::layout::Rect { x: r.x, y: r.y, width: r.width, height: r.height }
}

fn rat_color(c: Color) -> ratatui::style::Color {
    match c {
        Color::Black => ratatui::style::Color::Black,
        Color::Red => ratatui::style::Color::Red,
        Color::Green => ratatui::style::Color::Green,
        Color::Yellow => ratatui::style::Color::Yellow,
        Color::Blue => ratatui::style::Color::Blue,
        Color::Cyan => ratatui::style::Color::Cyan,
        Color::Gray => ratatui::style::Color::Gray,
        Color::DarkGray => ratatui::style::Color::DarkGray,
        Color::White => ratatui::style::Color::White,
        Color::Indexed(i) => ratatui::style::Color::Indexed(i),
        Color::Rgb(r, g, b) => ratatui::style::Color::Rgb(r, g, b),
    }
}

fn rat_modifier(m: Modifier) -> ratatui::style::Modifier {
    let mut out = ratatui::style::Modifier::empty();
    if m.bold {
        out |= ratatui::style::Modifier::BOLD;
    }
    if m.dim {
        out |= ratatui::style::Modifier::DIM;
    }
    if m.italic {
        out |= ratatui::style::Modifier::ITALIC;
    }
    if m.underlined {
        out |= ratatui::style::Modifier::UNDERLINED;
    }
    if m.slow_blink {
        out |= ratatui::style::Modifier::SLOW_BLINK;
    }
    if m.reversed {
        out |= ratatui::style::Modifier::REVERSED;
    }
    out
}

fn rat_style(s: Style) -> ratatui::style::Style {
    let mut out = ratatui::style::Style::default().add_modifier(rat_modifier(s.modifier));
    if let Some(c) = s.fg {
        out = out.fg(rat_color(c));
    }
    if let Some(c) = s.bg {
        out = out.bg(rat_color(c));
    }
    out
}

fn rat_spans(spans: &[Span]) -> Vec<ratatui::text::Span<'static>> {
    spans
        .iter()
        .map(|s| ratatui::text::Span::styled(s.text.clone(), rat_style(s.style)))
        .collect()
}

fn rat_line(l: &Line) -> ratatui::text::Line<'static> {
    let line = ratatui::text::Line::from(rat_spans(&l.spans));
    if l.centered {
        line.centered()
    } else {
        line
    }
}

fn rat_row(r: &TableRow) -> ratatui::widgets::Row<'static> {
    ratatui::widgets::Row::new(rat_spans(&r.cells)).style(rat_style(r.style))
}

fn rat_widths(widths: &[Extent]) -> Vec<ratatui::layout::Constraint> {
    widths
        .iter()
        .map(|w| match w {
            Extent::Length(n) => ratatui::layout::Constraint::Length(*n),
            Extent::Min(n) => ratatui::layout::Constraint::Min(*n),
        })
        .collect()
}

/// Paints drawing operations, in order, onto a blank screen.
fn paint(draws: &[Draw], width: u16, height: u16) -> Buffer {
    let mut buf = Buffer::empty(ratatui::layout::Rect::new(0, 0, width, height));
    let screen = buf.area;
    for draw in draws {
        match draw {
            Draw::Clear { area } => Clear.render(rat_rect(*area).intersection(screen), &mut buf),
            Draw::Frame { area, title, title_style, border_style } => Block::default()
                .borders(Borders::ALL)
                .title(title.clone())
                .title_style(rat_style(*title_style))
                .border_style(rat_style(*border_style))
                .render(rat_rect(*area), &mut buf),
            Draw::Text { area, lines, centered, wrap } => {
                let mut text = Paragraph::new(lines.iter().map(rat_line).collect::<Vec<_>>());
                if *centered {
                    text = text.centered();
                }
                if *wrap {
                    text = text.wrap(Wrap { trim: false });
                }
                text.render(rat_rect(*area), &mut buf);
            }
            Draw::Table { area, header, rows, widths } => {
                let mut table =
                    Table::new(rows.iter().map(rat_row), rat_widths(widths)).column_spacing(1);
                if let Some(header) = header {
                    table = table.header(rat_row(header));
                }
                Widget::render(table, rat_rect(*area), &mut buf);
            }
            Draw::Cell { x, y, symbol, style } => {
                if let Some(cell) = buf.cell_mut((*x, *y)) {
                    cell.set_symbol(symbol);
                    cell.set_style(rat_style(*style));
                }
            }
            Draw::Reverse { x, y } => {
                if let Some(cell) = buf.cell_mut((*x, *y)) {
                    let style = cell.style().add_modifier(ratatui::style::Modifier::REVERSED);
                    cell.set_style(style);
                }
            }
        }
    }
    buf
}

/// The rows of a painted screen.
fn painted_rows(draws: &[Draw], width: u16, height: u16) -> Vec<String> {
    paint(draws, width, height)
        .content()
        .chunks(width as usize)
        .map(|row| row.iter().map(|c| c.symbol()).collect::<String>())
        .collect()
}

#[test]
fn focused_tile_uses_bright_cyan_without_dim() {
    let (color, modifier) = border_style(true, false);
    assert_eq!(color, Color::Cyan);
    assert_eq!(modifier, no_modifier());
}

#[test]
fn hovered_unfocused_tile_uses_dim_cyan() {
    let (color, modifier) = border_style(false, true);
    assert_eq!(color, Color::Cyan);
    assert_eq!(modifier, Modifier { dim: true, ..no_modifier() });
}

#[test]
fn idle_unfocused_tile_uses_dim_dark_gray() {
    let (color, modifier) = border_style(false, false);
    assert_eq!(color, Color::DarkGray);
    assert_eq!(modifier, Modifier { dim: true, ..no_modifier() });
}

#[test]
fn focus_wins_over_hover_when_both_set() {
    let (color, modifier) = border_style(true, true);
    assert_eq!(color, Color::Cyan);
    assert_eq!(modifier, no_modifier());
}

fn render_to_rows(
    label: &str,
    eta_phase: u8,
    area: Rect,
    focused: bool,
    width: u16,
    height: u16,
) -> Vec<String> {
    painted_rows(&render_placeholder(label, eta_phase, area, focused), width, height)
}

#[test]
fn renders_label_inside_bordered_block() {
    let rows = render_to_rows("Ports — Phase 4", 4, Rect::new(0, 0, 40, 8), false, 40, 8);
    let joined = rows.join("\n");
    assert!(
        joined.contains("Ports"),
        "label must appear in the tile: {joined}"
    );
    assert!(rows[0].starts_with('┌') || rows[0].contains('─'));
    assert!(rows[7].starts_with('└') || rows[7].contains('─'));
}

#[test]
fn focused_renders_not_yet_implemented_hint() {
    let rows = render_to_rows("Ports — Phase 4", 4, Rect::new(0, 0, 50, 10), true, 50, 10);
    let joined = rows.join("\n");
    assert!(
        joined.contains("not yet implemented"),
        "focused placeholder must hint at the eta: {joined}"
    );
    assert!(joined.contains("Phase 4"));
}

#[test]
fn unfocused_does_not_render_hint() {
    let rows = render_to_rows("Ports — Phase 4", 4, Rect::new(0, 0, 50, 10), false, 50, 10);
    let joined = rows.join("\n");
    assert!(
        !joined.contains("not yet implemented"),
        "unfocused placeholder should not show the hint"
    );
}

fn render_frame(width: u16, height: u16) -> Vec<String> {
    painted_rows(&render_help(Rect::new(0, 0, width, height)), width, height)
}

#[test]
fn renders_five_core_bindings_in_overlay_body() {
    let rows = render_frame(120, 40);
    let joined = rows.join("\n");
    assert!(joined.contains("Tab"), "Tab binding must appear: {joined}");
    assert!(
        joined.contains("Shift-Tab"),
        "Shift-Tab binding must appear"
    );
    assert!(
        joined.contains("j") && joined.contains("k"),
        "j/k row nav must appear"
    );
    assert!(joined.contains("Enter"), "Enter binding must appear");
    assert!(joined.contains("Esc"), "Esc binding must appear");
    assert!(joined.contains("Ctrl-b d"), "Ctrl-b d (detach) must appear");
    assert!(
        joined.contains("Ctrl-b ?"),
        "Ctrl-b ? (toggle self) must appear"
    );
    assert!(
        joined.contains("PTY → shell"),
        "Slice 6.0.1 carve-out (Tab forwards to shell on PTY focus) must be documented: {joined}"
    );
}

#[test]
fn renders_dismissal_hint_at_bottom() {
    let rows = render_frame(120, 40);
    let joined = rows.join("\n");
    assert!(
        joined.contains("dismisses the overlay"),
        "overlay must hint at dismissal: {joined}"
    );
}

#[test]
fn too_small_terminal_falls_back_to_hint_line_without_crash() {
    let rows = render_frame(30, 6);
    let joined = rows.join("\n");
    assert!(
        joined.contains("help: Ctrl-b ? again to close"),
        "fallback hint must render on tiny terminals: {joined}"
    );
}

fn toast(kind: ToastKind, msg: &str) -> Toast {
    Toast {
        kind,
        message: msg.to_string(),
        expires_at: 3_000,
    }
}

fn render_full(toasts: &[Toast]) -> Vec<String> {
    let area = Rect::new(0, 0, 120, 40);
    let layout = TileLayout::default_for(area);
    painted_rows(&render_toasts(toasts, &layout), 120, 40)
}

#[test]
fn empty_toast_list_renders_nothing() {
    let rows = render_full(&[]);
    assert!(
        rows.iter().all(|r| r.trim().is_empty()),
        "empty toast list should paint no cells; got {rows:?}"
    );
}

#[test]
fn single_error_toast_renders_above_claude_code() {
    let rows = render_full(&[toast(
        ToastKind::Error,
        "Restart nginx failed: container not running",
    )]);
    let joined = rows.join("\n");
    assert!(
        joined.contains("err:"),
        "error toast must show 'err:' prefix; got {joined}"
    );
    assert!(
        joined.contains("container not running"),
        "error message must render verbatim; got {joined}"
    );
    assert!(
        rows[36].contains("err:"),
        "toast must land on row 36 (directly above the ClaudeCode strip); got row {:?}",
        rows[36]
    );
}

#[test]
fn three_toasts_render_three_lines() {
    let rows = render_full(&[
        toast(ToastKind::Success, "Restart nginx — succeeded"),
        toast(ToastKind::Error, "Stop db failed: engine unavailable"),
        toast(ToastKind::Success, "Kill sidecar — succeeded"),
    ]);
    assert!(rows[34].contains("Restart nginx"), "row 34: {:?}", rows[34]);
    assert!(rows[35].contains("Stop db"), "row 35: {:?}", rows[35]);
    assert!(rows[36].contains("Kill sidecar"), "row 36: {:?}", rows[36]);
}

#[test]
fn more_than_max_caps_at_max_visible() {
    let mut toasts: Vec<Toast> = Vec::new();
    for i in 0..MAX_TOASTS + 2 {
        toasts.push(toast(ToastKind::Success, &format!("msg-{i}")));
    }
    let rows = render_full(&toasts);
    let overlay_area: String = rows[(40 - 3 - MAX_TOASTS)..(40 - 3)].join("\n");
    for i in 0..(toasts.len() - MAX_TOASTS) {
        assert!(
            !overlay_area.contains(&format!("msg-{i}")),
            "oldest toasts past the cap must not render; saw msg-{i} in {overlay_area}"
        );
    }
    for i in (toasts.len() - MAX_TOASTS)..toasts.len() {
        assert!(
            overlay_area.contains(&format!("msg-{i}")),
            "newest toasts must render; missing msg-{i} from {overlay_area}"
        );
    }
}

#[test]
fn too_small_layout_no_ops_rather_than_panic() {
    let area = Rect::new(0, 0, 60, 20);
    let layout = TileLayout::default_for(area);
    paint(&render_toasts(&[toast(ToastKind::Error, "x")], &layout), 60, 20);
}
