//! The host picker's window.

use vstd::prelude::*;

use crate::fleet::{FleetModel, FleetScope};
use crate::geometry::Rect;
use crate::picker::{
    host_picker_rows, picker_row_views, picker_rows, spec_target_tile_label, HostPickerModal,
    HostPickerRow, PickerRowView,
};
use crate::proto::HostState;
use crate::scene::format::{align_left, pad_right};
use crate::scene::overlay::{middle, spec_middle};
use crate::scene::{
    bar, blank_line, draw_views, fg, group_scene, inner, line, line_views, no_spans, plain, span,
    spec_bar, spec_inner, spec_span, Color, Draw, DrawView, Line, LineView, Span, Style,
};

verus! {

broadcast use group_scene;

/// Width of the picker where there is room for it.
pub const HOST_PICKER_WIDTH: u16 = 68;

/// Rows of the picker beside those of the machines.
pub const HOST_PICKER_CHROME: u16 = 5;

/// Glyph and colour of a connection state.
pub open spec fn spec_state_glyph(state: HostState) -> (Seq<char>, Color) {
    match state {
        HostState::Connected => ("●"@, Color::Green),
        HostState::Connecting | HostState::Degraded => ("◐"@, Color::Yellow),
        HostState::Disconnected => ("○"@, Color::Gray),
        HostState::AuthFailed
        | HostState::HostKeyMismatch
        | HostState::AgentNotDeployed
        | HostState::AgentVersionMismatch => ("⚠"@, Color::Red),
    }
}

/// Glyph and colour of a connection state.
pub fn state_glyph(state: HostState) -> (r: (&'static str, Color))
    ensures
        (r.0@, r.1) == spec_state_glyph(state),
{
    match state {
        HostState::Connected => ("●", Color::Green),
        HostState::Connecting | HostState::Degraded => ("◐", Color::Yellow),
        HostState::Disconnected => ("○", Color::Gray),
        HostState::AuthFailed
        | HostState::HostKeyMismatch
        | HostState::AgentNotDeployed
        | HostState::AgentVersionMismatch => ("⚠", Color::Red),
    }
}

/// Why a machine can or cannot be picked.
pub open spec fn spec_annotation(state: HostState, usable: bool) -> Seq<char> {
    if usable {
        "connected"@
    } else {
        match state {
            HostState::Disconnected => "(not connected)"@,
            HostState::Connecting => "(connecting)"@,
            HostState::Connected => "connected"@,
            HostState::Degraded => "(degraded)"@,
            HostState::AuthFailed => "(auth failed)"@,
            HostState::HostKeyMismatch => "(host-key mismatch)"@,
            HostState::AgentNotDeployed => "(agent not deployed)"@,
            HostState::AgentVersionMismatch => "(agent version mismatch)"@,
        }
    }
}

/// Why a machine can or cannot be picked.
pub fn annotation_for(state: HostState, usable: bool) -> (r: &'static str)
    ensures
        r@ == spec_annotation(state, usable),
{
    if usable {
        "connected"
    } else {
        match state {
            HostState::Disconnected => "(not connected)",
            HostState::Connecting => "(connecting)",
            HostState::Connected => "connected",
            HostState::Degraded => "(degraded)",
            HostState::AuthFailed => "(auth failed)",
            HostState::HostKeyMismatch => "(host-key mismatch)",
            HostState::AgentNotDeployed => "(agent not deployed)",
            HostState::AgentVersionMismatch => "(agent version mismatch)",
        }
    }
}

/// Style of the marker.
#[verifier::allow_in_spec]
pub fn marker_style(selected: bool) -> Style
    returns
        (if selected { fg(Color::Cyan).bold() } else { plain() }),
{
    if selected {
        fg(Color::Cyan).bold()
    } else {
        plain()
    }
}

/// Style of a row's name. A machine that cannot be picked is dimmed.
#[verifier::allow_in_spec]
pub fn label_style(selected: bool, usable: bool) -> Style
    returns
        (if usable {
            if selected { plain().bold() } else { plain() }
        } else if selected {
            fg(Color::DarkGray).dim().bold()
        } else {
            fg(Color::DarkGray).dim()
        }),
{
    if usable {
        if selected {
            plain().bold()
        } else {
            plain()
        }
    } else if selected {
        fg(Color::DarkGray).dim().bold()
    } else {
        fg(Color::DarkGray).dim()
    }
}

/// A row's line.
pub open spec fn row_line(row: PickerRowView, selected: bool) -> LineView {
    let marker = spec_span(
        if selected {
            " ▶ "@
        } else {
            "   "@
        },
        marker_style(selected),
    );
    let spans = match row {
        PickerRowView::Local => seq![marker, spec_span("Local"@, label_style(selected, true))],
        PickerRowView::Remote { alias, state, usable } => {
            let (glyph, color) = spec_state_glyph(state);
            seq![
                marker,
                spec_span(pad_right(alias, 24), label_style(selected, usable)),
                spec_span(" "@, plain()),
                spec_span(glyph, fg(color)),
                spec_span(" "@ + spec_annotation(state, usable), fg(Color::DarkGray).dim()),
            ]
        },
    };
    LineView { spans, centered: false }
}

/// A row's line.
pub fn format_row(row: &HostPickerRow, selected: bool) -> (l: Line)
    ensures
        l@ == row_line(row@, selected),
{
    let marker: &str = if selected {
        " ▶ "
    } else {
        "   "
    };
    let mut spans: Vec<Span> = Vec::new();
    spans.push(span(marker.to_owned(), marker_style(selected)));
    match row {
        HostPickerRow::Local => {
            spans.push(span(String::from_str("Local"), label_style(selected, true)));
        },
        HostPickerRow::Remote { alias, state, usable } => {
            let (glyph, color) = state_glyph(*state);
            spans.push(span(align_left(alias.as_str(), 24), label_style(selected, *usable)));
            spans.push(span(String::from_str(" "), plain()));
            spans.push(span(glyph.to_owned(), fg(color)));
            spans.push(
                span(
                    String::from_str(" ").concat(annotation_for(*state, *usable)),
                    fg(Color::DarkGray).dim(),
                ),
            );
        },
    }
    let l = line(spans);
    assert(l@ =~~= row_line(row@, selected));
    l
}

/// The picker's size on a screen of the given area.
pub open spec fn picker_size(area: Rect, rows: nat) -> (u16, u16) {
    let desired = HOST_PICKER_CHROME + rows;
    (
        if area.width < HOST_PICKER_WIDTH {
            area.width
        } else {
            HOST_PICKER_WIDTH
        },
        if area.height < desired {
            area.height
        } else {
            desired as u16
        },
    )
}

/// What the picker lists, with a blank line before and after.
pub open spec fn picker_lines(rows: Seq<PickerRowView>, selected: int) -> Seq<LineView> {
    seq![no_spans()] + rows.map(|i: int, r: PickerRowView| row_line(r, i == selected)) + seq![
        no_spans(),
    ]
}

/// The host picker in the middle of the screen, or a single line where the
/// screen is too small for it.
pub open spec fn picker_scene(fleet: FleetModel, picker: HostPickerModal, area: Rect) -> Seq<
    DrawView,
> {
    let rows = picker_rows(fleet);
    let (width, height) = picker_size(area, rows.len());
    if width < 30 || height < HOST_PICKER_CHROME + 1 {
        seq![
            spec_bar(
                Rect::spec_new(area.x, area.y, area.width, 1),
                "too small — Esc closes"@,
                fg(Color::Cyan).bold(),
            ),
        ]
    } else {
        let rect = spec_middle(area, width, height);
        seq![
            DrawView::Clear { area: rect },
            DrawView::Frame {
                area: rect,
                title: " "@ + spec_target_tile_label(picker.target_tile)
                    + " target · ↑/↓/j/k select · Enter commits · Esc cancels "@,
                title_style: fg(Color::Cyan).bold(),
                border_style: fg(Color::Cyan),
            },
            DrawView::Text {
                area: spec_inner(rect),
                lines: picker_lines(rows, picker.selected as int),
                centered: false,
                wrap: false,
            },
        ]
    }
}

fn lines_for(rows: &Vec<HostPickerRow>, selected: usize) -> (lines: Vec<Line>)
    ensures
        line_views(lines@) == picker_lines(picker_row_views(rows@), selected as int),
{
    let ghost views = picker_row_views(rows@);
    let ghost all = views.map(|i: int, r: PickerRowView| row_line(r, i == selected as int));
    let ghost top = seq![no_spans()];
    let mut lines: Vec<Line> = Vec::new();
    lines.push(blank_line());
    let n: usize = rows.len();
    let mut i: usize = 0;
    assert(line_views(lines@) =~= top + all.take(0));
    while i < n
        invariant
            n == rows@.len(),
            0 <= i <= n,
            views == picker_row_views(rows@),
            all == views.map(|i: int, r: PickerRowView| row_line(r, i == selected as int)),
            line_views(lines@) == top + all.take(i as int),
        decreases n - i,
    {
        lines.push(format_row(&rows[i], i == selected));
        proof {
            assert(views[i as int] == rows@[i as int]@);
            assert(line_views(lines@) =~= top + all.take(i + 1));
        }
        i += 1;
    }
    lines.push(blank_line());
    assert(all.take(n as int) =~= all);
    assert(line_views(lines@) =~= picker_lines(views, selected as int));
    lines
}

/// Draws an open host picker.
pub fn render(fleet: &FleetScope, picker: &HostPickerModal, area: Rect) -> (draws: Vec<Draw>)
    requires
        area.edges_fit(),
        HOST_PICKER_CHROME + picker_rows(fleet@).len() <= u16::MAX,
    ensures
        draw_views(draws@) == picker_scene(fleet@, *picker, area),
{
    let rows = host_picker_rows(fleet);
    assert(picker_row_views(rows@).len() == rows@.len());
    let desired: u16 = HOST_PICKER_CHROME + rows.len() as u16;
    let width: u16 = if area.width < HOST_PICKER_WIDTH {
        area.width
    } else {
        HOST_PICKER_WIDTH
    };
    let height: u16 = if area.height < desired {
        area.height
    } else {
        desired
    };
    let mut draws: Vec<Draw> = Vec::new();
    if width < 30 || height < HOST_PICKER_CHROME + 1 {
        draws.push(
            bar(
                Rect::new(area.x, area.y, area.width, 1),
                String::from_str("too small — Esc closes"),
                fg(Color::Cyan).bold(),
            ),
        );
        assert(draw_views(draws@) =~= picker_scene(fleet@, *picker, area));
        return draws;
    }
    let rect = middle(area, width, height);
    draws.push(Draw::Clear { area: rect });
    draws.push(
        Draw::Frame {
            area: rect,
            title: String::from_str(" ").concat(picker.target_tile_label()).concat(
                " target · ↑/↓/j/k select · Enter commits · Esc cancels ",
            ),
            title_style: fg(Color::Cyan).bold(),
            border_style: fg(Color::Cyan),
        },
    );
    let lines = lines_for(&rows, picker.selected);
    draws.push(Draw::Text { area: inner(rect), lines, centered: false, wrap: false });
    assert(draw_views(draws@) =~= picker_scene(fleet@, *picker, area));
    draws
}

} // verus!
