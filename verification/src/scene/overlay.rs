//! Notices and overlays: a tile that is not there yet, a terminal that is
//! too small, the toast strip and the help overlay.

use vstd::prelude::*;

use crate::app::{toast_views, Toast};
use crate::event::ToastKind;
use crate::geometry::Rect;
use crate::model::{ToastModel, MAX_TOASTS};
use crate::scene::{
    bar, blank_line, draw_views, fg, group_scene, inner, line, line_views, no_spans, one_span,
    plain, span, spec_bar, spec_border_style, border_style, spec_inner, spec_span,
    styled_line, Color, Draw, DrawView, Line, LineView, Span, Style,
};
use crate::text::{decimal, decimal_string};
use crate::tile::{find_tile, TileId, TileLayout, TileLayoutView};

verus! {

broadcast use group_scene;

/// A border without a title.
pub open spec fn bare_frame(area: Rect, border: Style) -> DrawView {
    DrawView::Frame { area, title: ""@, title_style: plain(), border_style: border }
}

/// A tile that is not there yet: its label, and when focused a note on when
/// it comes.
pub open spec fn placeholder_scene(
    label: Seq<char>,
    eta_phase: u8,
    area: Rect,
    focused: bool,
) -> Seq<DrawView> {
    let (color, modifier) = spec_border_style(focused, false);
    let lines = seq![no_spans(), one_span(label, fg(Color::Gray), true)];
    seq![
        bare_frame(area, (Style { modifier, ..fg(color) })),
        DrawView::Text {
            area: spec_inner(area),
            lines: if focused {
                lines.push(no_spans()).push(
                    one_span(
                        "Phase "@ + decimal(eta_phase as nat) + " — not yet implemented"@,
                        fg(Color::DarkGray).italic(),
                        true,
                    ),
                )
            } else {
                lines
            },
            centered: true,
            wrap: false,
        },
    ]
}

/// Draws a tile that is not there yet.
pub fn render_placeholder(label: &str, eta_phase: u8, area: Rect, focused: bool) -> (draws: Vec<
    Draw,
>)
    requires
        area.edges_fit(),
    ensures
        draw_views(draws@) == placeholder_scene(label@, eta_phase, area, focused),
{
    let (color, modifier) = border_style(focused, false);
    let mut lines: Vec<Line> = Vec::new();
    lines.push(blank_line());
    lines.push(styled_line(label.to_owned(), fg(Color::Gray), true));
    if focused {
        lines.push(blank_line());
        lines.push(
            styled_line(
                String::from_str("Phase ").concat(
                    decimal_string(eta_phase as u64).as_str(),
                ).concat(" — not yet implemented"),
                fg(Color::DarkGray).italic(),
                true,
            ),
        );
    }
    let mut draws: Vec<Draw> = Vec::new();
    draws.push(
        Draw::Frame {
            area,
            title: String::from_str(""),
            title_style: plain(),
            border_style: Style { modifier, ..fg(color) },
        },
    );
    draws.push(Draw::Text { area: inner(area), lines, centered: true, wrap: false });
    assert(draw_views(draws@) =~~= placeholder_scene(label@, eta_phase, area, focused));
    draws
}

/// The notice on a terminal that is too small.
pub open spec fn too_small_scene(area: Rect) -> Seq<DrawView> {
    seq![
        bare_frame(area, fg(Color::Yellow)),
        DrawView::Text {
            area: spec_inner(area),
            lines: seq![
                no_spans(),
                one_span("Terminal too small for god view"@, fg(Color::Yellow).bold(), false),
                no_spans(),
                one_span("Resize to at least 80×24."@, fg(Color::DarkGray), false),
            ],
            centered: true,
            wrap: false,
        },
    ]
}

/// Draws the notice on a terminal that is too small.
pub fn render_too_small(area: Rect) -> (draws: Vec<Draw>)
    requires
        area.edges_fit(),
    ensures
        draw_views(draws@) == too_small_scene(area),
{
    let mut lines: Vec<Line> = Vec::new();
    lines.push(blank_line());
    lines.push(
        styled_line(
            String::from_str("Terminal too small for god view"),
            fg(Color::Yellow).bold(),
            false,
        ),
    );
    lines.push(blank_line());
    lines.push(
        styled_line(String::from_str("Resize to at least 80×24."), fg(Color::DarkGray), false),
    );
    let mut draws: Vec<Draw> = Vec::new();
    draws.push(
        Draw::Frame {
            area,
            title: String::from_str(""),
            title_style: plain(),
            border_style: fg(Color::Yellow),
        },
    );
    draws.push(Draw::Text { area: inner(area), lines, centered: true, wrap: false });
    assert(draw_views(draws@) =~~= too_small_scene(area));
    draws
}

/// A toast's line.
pub open spec fn toast_line(t: ToastModel) -> LineView {
    let (color, prefix) = match t.kind {
        ToastKind::Success => (Color::Green, " ok: "@),
        ToastKind::Error => (Color::Red, " err: "@),
        ToastKind::Info => (Color::Cyan, " info: "@),
    };
    LineView {
        spans: seq![spec_span(prefix, fg(color).bold()), spec_span(t.message, fg(color))],
        centered: false,
    }
}

fn line_for_toast(t: &Toast) -> (l: Line)
    ensures
        l@ == toast_line(t@),
{
    let (color, prefix) = match t.kind {
        ToastKind::Success => (Color::Green, " ok: "),
        ToastKind::Error => (Color::Red, " err: "),
        ToastKind::Info => (Color::Cyan, " info: "),
    };
    let mut spans: Vec<Span> = Vec::new();
    spans.push(span(prefix.to_owned(), fg(color).bold()));
    spans.push(span(t.message.clone(), fg(color)));
    let l = line(spans);
    assert(l@ =~~= toast_line(t@));
    l
}

/// The newest toasts, as many as there is room for.
pub open spec fn newest(toasts: Seq<ToastModel>) -> Seq<ToastModel> {
    if toasts.len() > MAX_TOASTS {
        toasts.skip(toasts.len() - MAX_TOASTS)
    } else {
        toasts
    }
}

/// The toast strip: one line for each toast, on top of whatever is drawn just
/// above the assistant tile. A layout without that tile shows no toasts.
pub open spec fn toast_scene(toasts: Seq<ToastModel>, layout: TileLayoutView) -> Seq<DrawView> {
    match find_tile(layout.tiles, TileId::ClaudeCode) {
        Some(tile) => if toasts.len() == 0 || tile.rect.y == 0 {
            Seq::empty()
        } else {
            let shown = newest(toasts);
            let y = if tile.rect.y < shown.len() {
                0
            } else {
                tile.rect.y - shown.len()
            };
            let area = Rect::spec_new(
                tile.rect.x,
                y as u16,
                tile.rect.width,
                shown.len() as u16,
            );
            seq![
                DrawView::Clear { area },
                DrawView::Text {
                    area,
                    lines: shown.map_values(|t: ToastModel| toast_line(t)),
                    centered: false,
                    wrap: false,
                },
            ]
        },
        None => Seq::empty(),
    }
}

/// Draws the toast strip.
pub fn render_toasts(toasts: &[Toast], layout: &TileLayout) -> (draws: Vec<Draw>)
    ensures
        draw_views(draws@) == toast_scene(toast_views(toasts@), layout@),
{
    let mut draws: Vec<Draw> = Vec::new();
    let n: usize = toasts.len();
    assert(toast_views(toasts@).len() == n);
    if let Some(anchor) = layout.rect_of(TileId::ClaudeCode) {
        if n > 0 && anchor.y > 0 {
            let from: usize = if n > MAX_TOASTS {
                n - MAX_TOASTS
            } else {
                0
            };
            let height: u16 = (n - from) as u16;
            let ghost shown = newest(toast_views(toasts@));
            assert(shown.len() == n - from);
            let y: u16 = if anchor.y < height {
                0
            } else {
                anchor.y - height
            };
            let area = Rect::new(anchor.x, y, anchor.width, height);
            draws.push(Draw::Clear { area });
            let ghost all = shown.map_values(|t: ToastModel| toast_line(t));
            let mut lines: Vec<Line> = Vec::new();
            let mut i: usize = from;
            assert(line_views(lines@) =~= all.take(0));
            while i < n
                invariant
                    n == toasts@.len(),
                    0 <= from <= i <= n,
                    shown == newest(toast_views(toasts@)),
                    from == if n > MAX_TOASTS { n - MAX_TOASTS } else { 0 },
                    all == shown.map_values(|t: ToastModel| toast_line(t)),
                    line_views(lines@) == all.take(i - from),
                decreases n - i,
            {
                lines.push(line_for_toast(&toasts[i]));
                proof {
                    assert(toast_views(toasts@)[i as int] == toasts@[i as int]@);
                    assert(shown[i - from] == toasts@[i as int]@);
                    assert(line_views(lines@) =~= all.take(i + 1 - from));
                }
                i += 1;
            }
            assert(all.take(n - from) =~= all);
            draws.push(Draw::Text { area, lines, centered: false, wrap: false });
        }
    }
    assert(draw_views(draws@) =~= toast_scene(toast_views(toasts@), layout@));
    draws
}

/// Width of the help overlay where there is room for it.
pub const HELP_OVERLAY_WIDTH: u16 = 60;

/// Height of the help overlay where there is room for it.
pub const HELP_OVERLAY_HEIGHT: u16 = 20;

/// The rectangle of the given size in the middle of an area.
pub open spec fn spec_middle(area: Rect, width: u16, height: u16) -> Rect {
    Rect::spec_new(
        (area.x + (area.width - width) / 2) as u16,
        (area.y + (area.height - height) / 2) as u16,
        width,
        height,
    )
}

/// The rectangle of the given size in the middle of an area.
pub fn middle(area: Rect, width: u16, height: u16) -> (r: Rect)
    requires
        area.edges_fit(),
        width <= area.width,
        height <= area.height,
    ensures
        r == spec_middle(area, width, height),
        r.edges_fit(),
{
    Rect::new(
        area.x + (area.width - width) / 2,
        area.y + (area.height - height) / 2,
        width,
        height,
    )
}

/// A line of plain text.
pub open spec fn plain_line(text: Seq<char>) -> LineView {
    one_span(text, plain(), false)
}

/// A heading.
pub open spec fn heading(text: Seq<char>) -> LineView {
    one_span(text, plain().bold(), false)
}

/// What the help overlay says.
pub open spec fn help_lines() -> Seq<LineView> {
    seq![
        no_spans(),
        heading(" tile focus"@),
        plain_line("   Tab · Shift-Tab     cycle tile focus (PTY → shell)"@),
        plain_line("   mouse click         focus tile · select row"@),
        no_spans(),
        heading(" inside a focused scope tile"@),
        plain_line("   j · k · ↓ · ↑       navigate rows"@),
        plain_line("   Enter               primary action on selected row"@),
        plain_line("   /                   start filter"@),
        plain_line("   Esc                 cancel / back"@),
        no_spans(),
        heading(" session"@),
        plain_line("   Ctrl-b d            detach"@),
        plain_line("   Ctrl-b ?            toggle this help"@),
        no_spans(),
        one_span(
            " any key or click dismisses the overlay"@,
            fg(Color::DarkGray).italic(),
            false,
        ),
    ]
}

fn text_line(text: &str) -> (l: Line)
    ensures
        l@ == plain_line(text@),
{
    styled_line(text.to_owned(), plain(), false)
}

fn heading_line(text: &str) -> (l: Line)
    ensures
        l@ == heading(text@),
{
    styled_line(text.to_owned(), plain().bold(), false)
}

/// The help overlay in the middle of the screen, or a single line where the
/// screen is too small for it.
pub open spec fn help_scene(area: Rect) -> Seq<DrawView> {
    let width = if area.width < HELP_OVERLAY_WIDTH {
        area.width
    } else {
        HELP_OVERLAY_WIDTH
    };
    let height = if area.height < HELP_OVERLAY_HEIGHT {
        area.height
    } else {
        HELP_OVERLAY_HEIGHT
    };
    if width < 20 || height < 8 {
        seq![
            spec_bar(
                Rect::spec_new(area.x, area.y, area.width, 1),
                "help: Ctrl-b ? again to close"@,
                fg(Color::Cyan).bold(),
            ),
        ]
    } else {
        let rect = spec_middle(area, width, height);
        seq![
            DrawView::Clear { area: rect },
            DrawView::Frame {
                area: rect,
                title: " help · Ctrl-b ? toggles "@,
                title_style: fg(Color::Cyan).bold(),
                border_style: fg(Color::Cyan),
            },
            DrawView::Text {
                area: spec_inner(rect),
                lines: help_lines(),
                centered: false,
                wrap: false,
            },
        ]
    }
}

/// Draws the help overlay.
pub fn render_help(area: Rect) -> (draws: Vec<Draw>)
    requires
        area.edges_fit(),
    ensures
        draw_views(draws@) == help_scene(area),
{
    let width: u16 = if area.width < HELP_OVERLAY_WIDTH {
        area.width
    } else {
        HELP_OVERLAY_WIDTH
    };
    let height: u16 = if area.height < HELP_OVERLAY_HEIGHT {
        area.height
    } else {
        HELP_OVERLAY_HEIGHT
    };
    let mut draws: Vec<Draw> = Vec::new();
    if width < 20 || height < 8 {
        draws.push(
            bar(
                Rect::new(area.x, area.y, area.width, 1),
                String::from_str("help: Ctrl-b ? again to close"),
                fg(Color::Cyan).bold(),
            ),
        );
        assert(draw_views(draws@) =~= help_scene(area));
        return draws;
    }
    let rect = middle(area, width, height);
    let mut lines: Vec<Line> = Vec::new();
    lines.push(blank_line());
    lines.push(heading_line(" tile focus"));
    lines.push(text_line("   Tab · Shift-Tab     cycle tile focus (PTY → shell)"));
    lines.push(text_line("   mouse click         focus tile · select row"));
    lines.push(blank_line());
    lines.push(heading_line(" inside a focused scope tile"));
    lines.push(text_line("   j · k · ↓ · ↑       navigate rows"));
    lines.push(text_line("   Enter               primary action on selected row"));
    lines.push(text_line("   /                   start filter"));
    lines.push(text_line("   Esc                 cancel / back"));
    lines.push(blank_line());
    lines.push(heading_line(" session"));
    lines.push(text_line("   Ctrl-b d            detach"));
    lines.push(text_line("   Ctrl-b ?            toggle this help"));
    lines.push(blank_line());
    lines.push(
        styled_line(
            String::from_str(" any key or click dismisses the overlay"),
            fg(Color::DarkGray).italic(),
            false,
        ),
    );
    assert(line_views(lines@) =~= help_lines());
    draws.push(Draw::Clear { area: rect });
    draws.push(
        Draw::Frame {
            area: rect,
            title: String::from_str(" help · Ctrl-b ? toggles "),
            title_style: fg(Color::Cyan).bold(),
            border_style: fg(Color::Cyan),
        },
    );
    draws.push(Draw::Text { area: inner(rect), lines, centered: false, wrap: false });
    assert(draw_views(draws@) =~= help_scene(area));
    draws
}

} // verus!
