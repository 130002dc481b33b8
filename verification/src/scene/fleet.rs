//! The SSH Fleet tile.

use vstd::hash_map::StringHashMap;
use vstd::prelude::*;

use crate::fleet::{
    connection_state, state_of, FleetModel, FleetScope, FleetScopeState, FleetStateModel,
};
use crate::geometry::Rect;
use crate::list::{lemma_visible_step, matches_filter, visible};
use crate::proto::{HostEntry, HostState};
use crate::scene::format::{short_source, spec_short_source};
use crate::scene::{
    bar, cuts_rows, draw_views, fg, group_scene, inner, line, line_views, list_extents, plain,
    row_views, span, spec_bar, spec_inner, spec_list_extents, spec_span,
    spec_tile_frame, split_rows, styled_line, one_span, tile_frame, Color, Draw, DrawView, Extent,
    Line, LineView, RowView, Span, TableRow,
};
use crate::text::{decimal, decimal_string};

verus! {

broadcast use group_scene;

/// Glyph and colour of a connection state: up, on its way, down, or in need
/// of attention.
pub open spec fn spec_state_glyph(state: HostState) -> (Seq<char>, Color) {
    match state {
        HostState::Connected => ("●"@, Color::Green),
        HostState::Connecting | HostState::Degraded => ("◐"@, Color::Yellow),
        HostState::Disconnected => ("○"@, Color::DarkGray),
        HostState::AuthFailed
        | HostState::HostKeyMismatch
        | HostState::AgentNotDeployed
        | HostState::AgentVersionMismatch => ("⚠"@, Color::Red),
    }
}

/// Glyph and colour of a connection state.
pub fn state_glyph(state: HostState) -> (r: (&'static str, Color))
    ensures
        (r.0@, r.1) == spec_state_glyph(state),
{
    match state {
        HostState::Connected => ("●", Color::Green),
        HostState::Connecting | HostState::Degraded => ("◐", Color::Yellow),
        HostState::Disconnected => ("○", Color::DarkGray),
        HostState::AuthFailed
        | HostState::HostKeyMismatch
        | HostState::AgentNotDeployed
        | HostState::AgentVersionMismatch => ("⚠", Color::Red),
    }
}

/// Where a host is reached. The SSH port goes without saying.
pub open spec fn endpoint(h: HostEntry) -> Seq<char> {
    if h.port == 22 {
        h.hostname@
    } else {
        h.hostname@ + ":"@ + decimal(h.port as nat)
    }
}

/// A host's row.
pub open spec fn host_row(
    h: HostEntry,
    states: Map<Seq<char>, HostState>,
    selected: bool,
) -> RowView {
    let (glyph, color) = spec_state_glyph(state_of(states, h));
    RowView {
        cells: seq![
            spec_span(
                if selected {
                    "▶"@
                } else {
                    " "@
                },
                plain(),
            ),
            spec_span(glyph, fg(color)),
            spec_span(h.alias@, plain()),
            spec_span(endpoint(h), fg(Color::DarkGray)),
            spec_span(h.user@, plain()),
        ],
        style: plain(),
    }
}

fn row_for_host(h: &HostEntry, states: &StringHashMap<HostState>, selected: bool) -> (r: TableRow)
    ensures
        r@ == host_row(*h, states@, selected),
{
    let (glyph, color) = state_glyph(connection_state(states, h));
    let marker: &str = if selected {
        "▶"
    } else {
        " "
    };
    let reached: String = if h.port == 22 {
        h.hostname.clone()
    } else {
        h.hostname.clone().concat(":").concat(decimal_string(h.port as u64).as_str())
    };
    let mut cells: Vec<Span> = Vec::new();
    cells.push(span(marker.to_owned(), plain()));
    cells.push(span(glyph.to_owned(), fg(color)));
    cells.push(span(h.alias.clone(), plain()));
    cells.push(span(reached, fg(Color::DarkGray)));
    cells.push(span(h.user.clone(), plain()));
    let r = TableRow { cells, style: plain() };
    assert(r@ =~~= host_row(*h, states@, selected));
    r
}

/// The table of hosts.
pub open spec fn host_table(
    shown: Seq<HostEntry>,
    states: Map<Seq<char>, HostState>,
    selection: int,
    area: Rect,
) -> DrawView {
    DrawView::Table {
        area,
        header: None,
        rows: shown.map(|i: int, h: HostEntry| host_row(h, states, i == selection)),
        widths: seq![
            Extent::Length(1),
            Extent::Length(2),
            Extent::Min(10),
            Extent::Length(24),
            Extent::Length(12),
        ],
    }
}

fn render_host_table(
    hosts: &Vec<HostEntry>,
    states: &StringHashMap<HostState>,
    filter: &String,
    selection: usize,
    area: Rect,
) -> (d: Draw)
    ensures
        d@ == host_table(visible(hosts@, filter@), states@, selection as int, area),
{
    let ghost f = |i: int, h: HostEntry| host_row(h, states@, i == selection as int);
    let mut rows: Vec<TableRow> = Vec::new();
    let n: usize = hosts.len();
    let mut i: usize = 0;
    proof {
        reveal(Seq::filter);
        assert(visible(hosts@.take(0), filter@) =~= Seq::empty());
        assert(row_views(rows@) =~= visible(hosts@.take(0), filter@).map(f));
    }
    while i < n
        invariant
            n == hosts@.len(),
            0 <= i <= n,
            f == (|i: int, h: HostEntry| host_row(h, states@, i == selection as int)),
            row_views(rows@) == visible(hosts@.take(i as int), filter@).map(f),
        decreases n - i,
    {
        let ghost shorter = visible(hosts@.take(i as int), filter@);
        proof {
            lemma_visible_step(hosts@, filter@, i as int);
            assert(row_views(rows@).len() == rows@.len());
        }
        if matches_filter(filter, &hosts[i]) {
            let at: usize = rows.len();
            rows.push(row_for_host(&hosts[i], states, at == selection));
            assert(shorter.push(hosts@[i as int]).map(f) =~= shorter.map(f).push(
                f(shorter.len() as int, hosts@[i as int]),
            ));
        }
        i += 1;
    }
    assert(hosts@.take(n as int) =~= hosts@);
    let mut widths: Vec<Extent> = Vec::new();
    widths.push(Extent::Length(1));
    widths.push(Extent::Length(2));
    widths.push(Extent::Min(10));
    widths.push(Extent::Length(24));
    widths.push(Extent::Length(12));
    let d = Draw::Table { area, header: None, rows, widths };
    assert(d@ =~= host_table(visible(hosts@, filter@), states@, selection as int, area));
    d
}

/// A single line in the middle of an area.
pub open spec fn spec_notice(area: Rect, text: Seq<char>, color: Color) -> DrawView {
    DrawView::Text {
        area,
        lines: seq![one_span(text, fg(color), false)],
        centered: true,
        wrap: false,
    }
}

fn notice(area: Rect, text: &str, color: Color) -> (d: Draw)
    ensures
        d@ == spec_notice(area, text@, color),
{
    let mut lines: Vec<Line> = Vec::new();
    lines.push(styled_line(text.to_owned(), fg(color), false));
    assert(line_views(lines@) =~= seq![one_span(text@, fg(color), false)]);
    Draw::Text { area, lines, centered: true, wrap: false }
}

/// The status bar: how many hosts are shown, and where the list is from.
pub open spec fn status_bar(total: nat, shown: nat, source: Seq<char>, area: Rect) -> DrawView {
    DrawView::Text {
        area,
        lines: seq![
            LineView {
                spans: seq![
                    spec_span(decimal(shown) + "/"@ + decimal(total) + " hosts"@, fg(Color::Green)),
                    spec_span("  "@, plain()),
                    spec_span(
                        "source: "@ + spec_short_source(source, area.width as nat),
                        fg(Color::DarkGray),
                    ),
                    spec_span(" procs: — (Phase 6)"@, fg(Color::DarkGray).dim()),
                ],
                centered: false,
            },
        ],
        centered: false,
        wrap: false,
    }
}

fn render_status_bar(total: usize, shown: usize, source: &str, area: Rect) -> (d: Draw)
    ensures
        d@ == status_bar(total as nat, shown as nat, source@, area),
{
    let mut spans: Vec<Span> = Vec::new();
    spans.push(
        span(
            decimal_string(shown as u64).concat("/").concat(
                decimal_string(total as u64).as_str(),
            ).concat(" hosts"),
            fg(Color::Green),
        ),
    );
    spans.push(span(String::from_str("  "), plain()));
    spans.push(
        span(
            String::from_str("source: ").concat(short_source(source, area.width as usize).as_str()),
            fg(Color::DarkGray),
        ),
    );
    spans.push(span(String::from_str(" procs: — (Phase 6)"), fg(Color::DarkGray).dim()));
    let mut lines: Vec<Line> = Vec::new();
    lines.push(line(spans));
    let d = Draw::Text { area, lines, centered: false, wrap: false };
    assert(d@ =~~= status_bar(total as nat, shown as nat, source@, area));
    d
}

/// The filter bar.
pub open spec fn filter_bar(filter: Seq<char>, area: Rect) -> DrawView {
    DrawView::Text {
        area,
        lines: seq![
            LineView {
                spans: seq![
                    spec_span("filter: "@, fg(Color::DarkGray)),
                    spec_span(filter + "_"@, fg(Color::Yellow).bold()),
                ],
                centered: false,
            },
        ],
        centered: false,
        wrap: false,
    }
}

fn render_filter_bar(filter: &str, area: Rect) -> (d: Draw)
    ensures
        d@ == filter_bar(filter@, area),
{
    let mut spans: Vec<Span> = Vec::new();
    spans.push(span(String::from_str("filter: "), fg(Color::DarkGray)));
    spans.push(span(filter.to_owned().concat("_"), fg(Color::Yellow).bold()));
    let mut lines: Vec<Line> = Vec::new();
    lines.push(line(spans));
    let d = Draw::Text { area, lines, centered: false, wrap: false };
    assert(d@ =~~= filter_bar(filter@, area));
    d
}

/// The help bar.
pub open spec fn help_text(typing: bool) -> Seq<char> {
    if typing {
        "[Enter] apply · [Esc] clear · [Backspace] delete"@
    } else {
        "[j/k] nav · [/] filter · Ctrl-b h/j/k/l focus"@
    }
}

/// The body below the bars.
pub open spec fn body(m: FleetModel, area: Rect) -> DrawView {
    if m.shown().len() > 0 {
        host_table(m.shown(), m.state.known(), m.cursor.selection, area)
    } else if m.state.rows().len() == 0 {
        spec_notice(
            area,
            "No SSH hosts configured — add entries to ~/.ssh/config or set TEPEGOZ_SSH_HOSTS"@,
            Color::DarkGray,
        )
    } else {
        spec_notice(area, "No hosts match filter"@, Color::DarkGray)
    }
}

/// A filter is being typed or in force.
pub open spec fn has_filter_bar(m: FleetModel) -> bool {
    m.cursor.filter_active || m.cursor.filter.len() > 0
}

/// The host list in the rows `chunks`.
pub open spec fn available_scene(m: FleetModel, source: Seq<char>, chunks: Seq<Rect>) -> Seq<
    DrawView,
> {
    let top = seq![status_bar(m.state.rows().len(), m.shown().len(), source, chunks[0])];
    let help = help_text(m.cursor.filter_active);
    if has_filter_bar(m) {
        top.push(filter_bar(m.cursor.filter, chunks[1])).push(body(m, chunks[2])).push(
            spec_bar(chunks[3], help, fg(Color::DarkGray)),
        )
    } else {
        top.push(body(m, chunks[1])).push(spec_bar(chunks[2], help, fg(Color::DarkGray)))
    }
}

/// Draws the host list into the rows `chunks`.
pub fn render_available(scope: &FleetScope, chunks: &Vec<Rect>) -> (draws: Vec<Draw>)
    requires
        chunks@.len() == if has_filter_bar(scope@) { 4int } else { 3int },
        scope@.state is Available,
    ensures
        draw_views(draws@) == available_scene(
            scope@,
            scope@.state->source,
            chunks@,
        ),
{
    let mut draws: Vec<Draw> = Vec::new();
    match &scope.state {
        FleetScopeState::Available { hosts, states, source } => {
            let shown: usize = scope.visible_count();
            draws.push(render_status_bar(hosts.len(), shown, source.as_str(), chunks[0]));
            let mut at: usize = 1;
            if scope.filter_active || !scope.filter.as_str().is_empty() {
                draws.push(render_filter_bar(scope.filter.as_str(), chunks[1]));
                at = 2;
            }
            if shown > 0 {
                draws.push(
                    render_host_table(hosts, states, &scope.filter, scope.selection, chunks[at]),
                );
            } else if hosts.len() == 0 {
                draws.push(
                    notice(
                        chunks[at],
                        "No SSH hosts configured — add entries to ~/.ssh/config or set TEPEGOZ_SSH_HOSTS",
                        Color::DarkGray,
                    ),
                );
            } else {
                draws.push(notice(chunks[at], "No hosts match filter", Color::DarkGray));
            }
            let help: &str = if scope.filter_active {
                "[Enter] apply · [Esc] clear · [Backspace] delete"
            } else {
                "[j/k] nav · [/] filter · Ctrl-b h/j/k/l focus"
            };
            draws.push(bar(chunks[at + 1], help.to_owned(), fg(Color::DarkGray)));
            assert(draw_views(draws@) =~= available_scene(scope@, source@, chunks@));
        },
        FleetScopeState::Connecting => {},
    }
    draws
}

/// The Fleet tile, with its inside cut into the rows `chunks`.
pub open spec fn fleet_scene(
    m: FleetModel,
    area: Rect,
    focused: bool,
    chunks: Seq<Rect>,
) -> Seq<DrawView> {
    let frame = seq![spec_tile_frame(area, "fleet"@, focused, false)];
    match m.state {
        FleetStateModel::Connecting => frame.push(
            spec_notice(spec_inner(area), "Discovering SSH hosts…"@, Color::Yellow),
        ),
        FleetStateModel::Available { source, .. } => frame + available_scene(m, source, chunks),
    }
}

/// Draws the Fleet tile.
pub fn render(scope: &FleetScope, area: Rect, focused: bool) -> (draws: Vec<Draw>)
    requires
        area.edges_fit(),
    ensures
        exists|chunks: Seq<Rect>| #[trigger]
            cuts_rows(spec_inner(area), spec_list_extents(has_filter_bar(scope@)), chunks)
                && draw_views(draws@) == fleet_scene(scope@, area, focused, chunks),
{
    let inside = inner(area);
    let mut draws: Vec<Draw> = Vec::new();
    draws.push(tile_frame(area, String::from_str("fleet"), focused, false));
    let filtering: bool = scope.filter_active || !scope.filter.as_str().is_empty();
    let chunks = split_rows(inside, &list_extents(filtering));
    match &scope.state {
        FleetScopeState::Connecting => {
            draws.push(notice(inside, "Discovering SSH hosts…", Color::Yellow));
        },
        FleetScopeState::Available { .. } => {
            let mut rest = render_available(scope, &chunks);
            draws.append(&mut rest);
        },
    }
    proof {
        assert(cuts_rows(
            spec_inner(area),
            spec_list_extents(has_filter_bar(scope@)),
            chunks@,
        ));
        assert(draw_views(draws@) =~= fleet_scene(scope@, area, focused, chunks@));
    }
    draws
}

} // verus!
