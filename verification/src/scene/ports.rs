//! The Ports tile, with its Ports and Processes views.

use vstd::prelude::*;

use crate::geometry::Rect;
use crate::list::{lemma_visible_step, matches_filter, visible};
use crate::ports::{
    PortsActiveView, PortsModel, PortsScope, PortsScopeModel, PortsView, PortsViewState,
    ProcessesModel, ProcessesView, ProcessesViewState,
};
use crate::proto::{ProbePort, ProbeProcess};
use crate::scene::docker::header_style;
use crate::scene::format::{
    align_right, first_chars, format_bytes, pad_left, spec_first_chars, spec_format_bytes,
    spec_truncate, truncate,
};
use crate::scene::{
    bar, blank_line, cuts_rows, draw_views, fg, group_scene, inner, line_views, list_extents,
    no_spans, one_span, plain, row_marker, row_views, span, spec_bar, spec_inner,
    spec_list_extents, spec_span, spec_tile_frame, split_rows, styled_line, tile_frame, Color, Draw,
    DrawView, Extent, Line, LineView, RowView, Span, Style, TableRow,
};
use crate::text::{decimal, decimal_string, lines_of, text_lines, texts};

verus! {

broadcast use group_scene;

/// Style of a row's cells.
#[verifier::allow_in_spec]
pub fn row_style(selected: bool) -> Style
    returns
        (if selected { plain().reversed() } else { plain() }),
{
    if selected {
        plain().reversed()
    } else {
        plain()
    }
}

/// How a row starts: its marker, and `?` if the probe saw only part of it.
pub open spec fn row_start(selected: bool, partial: bool) -> Seq<char> {
    row_marker(selected) + (if partial { "?"@ } else { " "@ }) + " "@
}

fn start_text(selected: bool, partial: bool) -> (r: String)
    ensures
        r@ == row_start(selected, partial),
{
    let marker: &str = if selected {
        "▶ "
    } else {
        "  "
    };
    let cue: &str = if partial {
        "?"
    } else {
        " "
    };
    String::from_str(marker).concat(cue).concat(" ")
}

/// A port's row.
pub open spec fn port_row(p: ProbePort, selected: bool) -> RowView {
    let style = row_style(selected);
    RowView {
        cells: seq![
            spec_span(row_start(selected, p.partial) + p.protocol@, style),
            spec_span(
                spec_truncate(p.local_ip@, 15) + ":"@ + decimal(p.local_port as nat),
                style,
            ),
            spec_span(decimal(p.pid as nat), style),
            spec_span(spec_truncate(p.process_name@, 24), style),
            spec_span(
                match p.container_id {
                    Some(id) => spec_first_chars(id@, 12),
                    None => Seq::empty(),
                },
                style.with_fg(Color::Cyan),
            ),
        ],
        style: plain(),
    }
}

fn row_for_port(p: &ProbePort, selected: bool) -> (r: TableRow)
    ensures
        r@ == port_row(*p, selected),
{
    let style = row_style(selected);
    let container: String = match &p.container_id {
        Some(id) => first_chars(id.as_str(), 12),
        None => String::new(),
    };
    let mut cells: Vec<Span> = Vec::new();
    cells.push(span(start_text(selected, p.partial).concat(p.protocol.as_str()), style));
    cells.push(
        span(
            truncate(p.local_ip.as_str(), 15).concat(":").concat(
                decimal_string(p.local_port as u64).as_str(),
            ),
            style,
        ),
    );
    cells.push(span(decimal_string(p.pid as u64), style));
    cells.push(span(truncate(p.process_name.as_str(), 24), style));
    cells.push(span(container, style.with_fg(Color::Cyan)));
    let r = TableRow { cells, style: plain() };
    assert(r@ =~~= port_row(*p, selected));
    r
}

/// The CPU column: a dash until there is a measurement.
pub open spec fn cpu_text(cpu: Option<String>) -> Seq<char> {
    match cpu {
        None => "   —"@,
        Some(v) => pad_left(v@, 5),
    }
}

/// A process's row.
pub open spec fn process_row(p: ProbeProcess, selected: bool) -> RowView {
    let style = row_style(selected);
    RowView {
        cells: seq![
            spec_span(row_start(selected, p.partial) + decimal(p.pid as nat), style),
            spec_span(decimal(p.parent_pid as nat), style.with_fg(Color::DarkGray)),
            spec_span(cpu_text(p.cpu_percent), style),
            spec_span(spec_format_bytes(p.mem_bytes), style),
            spec_span(spec_truncate(p.command@, 48), style),
        ],
        style: plain(),
    }
}

fn row_for_process(p: &ProbeProcess, selected: bool) -> (r: TableRow)
    ensures
        r@ == process_row(*p, selected),
{
    let style = row_style(selected);
    let cpu: String = match &p.cpu_percent {
        None => String::from_str("   —"),
        Some(v) => align_right(v.as_str(), 5),
    };
    let mut cells: Vec<Span> = Vec::new();
    cells.push(
        span(
            start_text(selected, p.partial).concat(decimal_string(p.pid as u64).as_str()),
            style,
        ),
    );
    cells.push(span(decimal_string(p.parent_pid as u64), style.with_fg(Color::DarkGray)));
    cells.push(span(cpu, style));
    cells.push(span(format_bytes(p.mem_bytes), style));
    cells.push(span(truncate(p.command.as_str(), 48), style));
    let r = TableRow { cells, style: plain() };
    assert(r@ =~~= process_row(*p, selected));
    r
}

/// A table header of plain labels.
pub open spec fn header_of(a: Seq<char>, b: Seq<char>, c: Seq<char>, d: Seq<char>, e: Seq<char>) -> RowView {
    RowView {
        cells: seq![
            spec_span(a, plain()),
            spec_span(b, plain()),
            spec_span(c, plain()),
            spec_span(d, plain()),
            spec_span(e, plain()),
        ],
        style: header_style(),
    }
}

fn header_row(a: &str, b: &str, c: &str, d: &str, e: &str) -> (r: TableRow)
    ensures
        r@ == header_of(a@, b@, c@, d@, e@),
{
    let mut cells: Vec<Span> = Vec::new();
    cells.push(span(a.to_owned(), plain()));
    cells.push(span(b.to_owned(), plain()));
    cells.push(span(c.to_owned(), plain()));
    cells.push(span(d.to_owned(), plain()));
    cells.push(span(e.to_owned(), plain()));
    let r = TableRow { cells, style: header_style() };
    assert(r@ =~~= header_of(a@, b@, c@, d@, e@));
    r
}

fn widths_of(a: u16, b: u16, c: u16, d: u16, rest: u16) -> (r: Vec<Extent>)
    ensures
        r@ == seq![
            Extent::Length(a),
            Extent::Length(b),
            Extent::Length(c),
            Extent::Length(d),
            Extent::Min(rest),
        ],
{
    let mut widths: Vec<Extent> = Vec::new();
    widths.push(Extent::Length(a));
    widths.push(Extent::Length(b));
    widths.push(Extent::Length(c));
    widths.push(Extent::Length(d));
    widths.push(Extent::Min(rest));
    assert(widths@ =~= seq![
        Extent::Length(a),
        Extent::Length(b),
        Extent::Length(c),
        Extent::Length(d),
        Extent::Min(rest),
    ]);
    widths
}

/// The table of listening ports.
pub open spec fn ports_table(shown: Seq<ProbePort>, selection: int, area: Rect) -> DrawView {
    DrawView::Table {
        area,
        header: Some(header_of("    PROTO"@, "ADDRESS"@, "PID"@, "PROCESS"@, "CONTAINER"@)),
        rows: shown.map(|i: int, p: ProbePort| port_row(p, i == selection)),
        widths: seq![
            Extent::Length(12),
            Extent::Length(22),
            Extent::Length(7),
            Extent::Length(26),
            Extent::Min(12),
        ],
    }
}

fn render_ports_table(ports: &Vec<ProbePort>, filter: &String, selection: usize, area: Rect) -> (d:
    Draw)
    ensures
        d@ == ports_table(visible(ports@, filter@), selection as int, area),
{
    let ghost f = |i: int, p: ProbePort| port_row(p, i == selection as int);
    let mut rows: Vec<TableRow> = Vec::new();
    let n: usize = ports.len();
    let mut i: usize = 0;
    proof {
        reveal(Seq::filter);
        assert(visible(ports@.take(0), filter@) =~= Seq::empty());
        assert(row_views(rows@) =~= visible(ports@.take(0), filter@).map(f));
    }
    while i < n
        invariant
            n == ports@.len(),
            0 <= i <= n,
            f == (|i: int, p: ProbePort| port_row(p, i == selection as int)),
            row_views(rows@) == visible(ports@.take(i as int), filter@).map(f),
        decreases n - i,
    {
        let ghost shorter = visible(ports@.take(i as int), filter@);
        proof {
            lemma_visible_step(ports@, filter@, i as int);
            assert(row_views(rows@).len() == rows@.len());
        }
        if matches_filter(filter, &ports[i]) {
            let at: usize = rows.len();
            rows.push(row_for_port(&ports[i], at == selection));
            assert(shorter.push(ports@[i as int]).map(f) =~= shorter.map(f).push(
                f(shorter.len() as int, ports@[i as int]),
            ));
        }
        i += 1;
    }
    assert(ports@.take(n as int) =~= ports@);
    Draw::Table {
        area,
        header: Some(header_row("    PROTO", "ADDRESS", "PID", "PROCESS", "CONTAINER")),
        rows,
        widths: widths_of(12, 22, 7, 26, 12),
    }
}

/// The table of processes.
pub open spec fn processes_table(shown: Seq<ProbeProcess>, selection: int, area: Rect) -> DrawView {
    DrawView::Table {
        area,
        header: Some(header_of("      PID"@, "PPID"@, "  CPU%"@, "    MEM"@, "COMMAND"@)),
        rows: shown.map(|i: int, p: ProbeProcess| process_row(p, i == selection)),
        widths: seq![
            Extent::Length(10),
            Extent::Length(6),
            Extent::Length(7),
            Extent::Length(10),
            Extent::Min(20),
        ],
    }
}

fn render_processes_table(
    processes: &Vec<ProbeProcess>,
    filter: &String,
    selection: usize,
    area: Rect,
) -> (d: Draw)
    ensures
        d@ == processes_table(visible(processes@, filter@), selection as int, area),
{
    let ghost f = |i: int, p: ProbeProcess| process_row(p, i == selection as int);
    let mut rows: Vec<TableRow> = Vec::new();
    let n: usize = processes.len();
    let mut i: usize = 0;
    proof {
        reveal(Seq::filter);
        assert(visible(processes@.take(0), filter@) =~= Seq::empty());
        assert(row_views(rows@) =~= visible(processes@.take(0), filter@).map(f));
    }
    while i < n
        invariant
            n == processes@.len(),
            0 <= i <= n,
            f == (|i: int, p: ProbeProcess| process_row(p, i == selection as int)),
            row_views(rows@) == visible(processes@.take(i as int), filter@).map(f),
        decreases n - i,
    {
        let ghost shorter = visible(processes@.take(i as int), filter@);
        proof {
            lemma_visible_step(processes@, filter@, i as int);
            assert(row_views(rows@).len() == rows@.len());
        }
        if matches_filter(filter, &processes[i]) {
            let at: usize = rows.len();
            rows.push(row_for_process(&processes[i], at == selection));
            assert(shorter.push(processes@[i as int]).map(f) =~= shorter.map(f).push(
                f(shorter.len() as int, processes@[i as int]),
            ));
        }
        i += 1;
    }
    assert(processes@.take(n as int) =~= processes@);
    Draw::Table {
        area,
        header: Some(header_row("      PID", "PPID", "  CPU%", "    MEM", "COMMAND")),
        rows,
        widths: widths_of(10, 6, 7, 10, 20),
    }
}

/// A message in the middle of an area.
pub open spec fn spec_centered(area: Rect, text: Seq<char>, color: Color) -> DrawView {
    DrawView::Text {
        area,
        lines: seq![no_spans(), one_span(text, fg(color), true)],
        centered: true,
        wrap: false,
    }
}

fn centered(area: Rect, text: &str, color: Color) -> (d: Draw)
    ensures
        d@ == spec_centered(area, text@, color),
{
    let mut lines: Vec<Line> = Vec::new();
    lines.push(blank_line());
    lines.push(styled_line(text.to_owned(), fg(color), true));
    assert(line_views(lines@) =~= seq![no_spans(), one_span(text@, fg(color), true)]);
    Draw::Text { area, lines, centered: true, wrap: false }
}

/// The first ten lines of a reason.
pub open spec fn reason_lines(reason: Seq<char>) -> Seq<LineView> {
    let lines = text_lines(reason);
    let shown = if lines.len() > 10 { lines.take(10) } else { lines };
    shown.map_values(|l: Seq<char>| one_span(l, fg(Color::Red), true))
}

/// Why a probe is unavailable.
pub open spec fn spec_unavailable(area: Rect, title: Seq<char>, reason: Seq<char>) -> DrawView {
    DrawView::Text {
        area,
        lines: seq![one_span(title, fg(Color::Red).bold(), true), no_spans()] + reason_lines(
            reason,
        ),
        centered: false,
        wrap: false,
    }
}

fn unavailable(area: Rect, title: &str, reason: &str) -> (d: Draw)
    ensures
        d@ == spec_unavailable(area, title@, reason@),
{
    let mut lines: Vec<Line> = Vec::new();
    lines.push(styled_line(title.to_owned(), fg(Color::Red).bold(), true));
    lines.push(blank_line());
    let ghost top = seq![one_span(title@, fg(Color::Red).bold(), true), no_spans()];
    assert(line_views(lines@) =~= top);
    let said = lines_of(reason);
    let ghost all = text_lines(reason@);
    let n: usize = said.len();
    let limit: usize = if n > 10 {
        10
    } else {
        n
    };
    let ghost shown = if all.len() > 10 { all.take(10) } else { all };
    assert(texts(said@).len() == said@.len());
    let mut i: usize = 0;
    assert(top + reason_lines(reason@).take(0) =~= top);
    while i < limit
        invariant
            n == said@.len(),
            texts(said@) == all,
            all == text_lines(reason@),
            limit <= n,
            limit == reason_lines(reason@).len(),
            limit == if all.len() > 10 { 10 } else { all.len() as int },
            0 <= i <= limit,
            line_views(lines@) == top + reason_lines(reason@).take(i as int),
        decreases limit - i,
    {
        let next = styled_line(said[i].clone(), fg(Color::Red), true);
        proof {
            assert(all[i as int] == said@[i as int]@);
            assert(next@ == reason_lines(reason@)[i as int]);
        }
        lines.push(next);
        assert(line_views(lines@) =~= top + reason_lines(reason@).take(i as int + 1));
        i += 1;
    }
    assert(reason_lines(reason@).take(limit as int) =~= reason_lines(reason@));
    Draw::Text { area, lines, centered: false, wrap: false }
}

/// What the status bar says of an active filter.
pub open spec fn filter_note(filter: Seq<char>) -> Seq<char> {
    if filter.len() == 0 {
        ""@
    } else {
        " · filter: "@ + filter
    }
}

fn note_text(filter: &String) -> (r: String)
    ensures
        r@ == filter_note(filter@),
{
    if filter.as_str().is_empty() {
        String::from_str("")
    } else {
        String::from_str(" · filter: ").concat(filter.as_str())
    }
}

/// The filter bar, with a caret while it is edited.
pub open spec fn filter_bar(filter: Seq<char>, active: bool, area: Rect) -> DrawView {
    spec_bar(
        area,
        "filter: "@ + filter + (if active { "_"@ } else { ""@ }),
        fg(if active { Color::Yellow } else { Color::DarkGray }),
    )
}

fn render_filter_bar(filter: &String, active: bool, area: Rect) -> (d: Draw)
    ensures
        d@ == filter_bar(filter@, active, area),
{
    let caret: &str = if active {
        "_"
    } else {
        ""
    };
    let color: Color = if active {
        Color::Yellow
    } else {
        Color::DarkGray
    };
    bar(area, String::from_str("filter: ").concat(filter.as_str()).concat(caret), fg(color))
}

/// The help bar.
pub open spec fn help_text(view: PortsActiveView, typing: bool) -> Seq<char> {
    if typing {
        "[Enter] apply · [Esc] clear · [Backspace] delete"@
    } else if view == PortsActiveView::Ports {
        "[j/k] nav · [/] filter · [p] Processes"@
    } else {
        "[j/k] nav · [/] filter · [p] Ports"@
    }
}

fn help_bar(view: PortsActiveView, typing: bool, area: Rect) -> (d: Draw)
    ensures
        d@ == spec_bar(area, help_text(view, typing), fg(Color::DarkGray)),
{
    let help: &str = if typing {
        "[Enter] apply · [Esc] clear · [Backspace] delete"
    } else if view == PortsActiveView::Ports {
        "[j/k] nav · [/] filter · [p] Processes"
    } else {
        "[j/k] nav · [/] filter · [p] Ports"
    };
    bar(area, help.to_owned(), fg(Color::DarkGray))
}

/// The status bar of the Ports view.
pub open spec fn ports_status(m: PortsModel) -> (Seq<char>, Color) {
    match m.state {
        PortsViewState::Connecting => ("connecting…"@, Color::Yellow),
        PortsViewState::Available { rows, source } => (
            decimal(m.shown().len()) + "/"@ + decimal(rows@.len()) + " port(s) · source: "@
                + source@ + filter_note(m.cursor.filter) + " · UDP coming v1.1"@,
            Color::Green,
        ),
        PortsViewState::Unavailable { .. } => ("unavailable"@, Color::Red),
    }
}

fn ports_status_text(view: &PortsView) -> (r: (String, Color))
    ensures
        (r.0@, r.1) == ports_status(view@),
{
    match &view.state {
        PortsViewState::Connecting => (String::from_str("connecting…"), Color::Yellow),
        PortsViewState::Available { rows, source } => {
            let shown: usize = view.visible_count();
            (
                decimal_string(shown as u64).concat("/").concat(
                    decimal_string(rows.len() as u64).as_str(),
                ).concat(" port(s) · source: ").concat(source.as_str()).concat(
                    note_text(&view.filter).as_str(),
                ).concat(" · UDP coming v1.1"),
                Color::Green,
            )
        },
        PortsViewState::Unavailable { .. } => (String::from_str("unavailable"), Color::Red),
    }
}

/// The body of the Ports view.
pub open spec fn ports_body(m: PortsModel, area: Rect) -> DrawView {
    match m.state {
        PortsViewState::Connecting => spec_centered(
            area,
            "Connecting to the ports probe…"@,
            Color::Yellow,
        ),
        PortsViewState::Available { .. } => if m.shown().len() == 0 {
            spec_centered(
                area,
                if m.cursor.filter.len() == 0 {
                    "No listening ports"@
                } else {
                    "No ports match filter"@
                },
                Color::DarkGray,
            )
        } else {
            ports_table(m.shown(), m.cursor.selection, area)
        },
        PortsViewState::Unavailable { reason } => spec_unavailable(
            area,
            "Ports probe unavailable"@,
            reason@,
        ),
    }
}

fn render_ports_body(view: &PortsView, area: Rect) -> (d: Draw)
    ensures
        d@ == ports_body(view@, area),
{
    match &view.state {
        PortsViewState::Connecting => centered(
            area,
            "Connecting to the ports probe…",
            Color::Yellow,
        ),
        PortsViewState::Available { rows, .. } => {
            if view.visible_count() == 0 {
                let message: &str = if view.filter.as_str().is_empty() {
                    "No listening ports"
                } else {
                    "No ports match filter"
                };
                centered(area, message, Color::DarkGray)
            } else {
                render_ports_table(rows, &view.filter, view.selection, area)
            }
        },
        PortsViewState::Unavailable { reason } => unavailable(
            area,
            "Ports probe unavailable",
            reason.as_str(),
        ),
    }
}

/// The status bar of the Processes view.
pub open spec fn processes_status(m: ProcessesModel) -> (Seq<char>, Color) {
    match m.state {
        ProcessesViewState::Connecting => ("connecting…"@, Color::Yellow),
        ProcessesViewState::Available { rows, source } => (
            decimal(m.shown().len()) + "/"@ + decimal(rows@.len()) + " process(es) · source: "@
                + source@ + filter_note(m.cursor.filter),
            Color::Green,
        ),
        ProcessesViewState::Unavailable { .. } => ("unavailable"@, Color::Red),
    }
}

fn processes_status_text(view: &ProcessesView) -> (r: (String, Color))
    ensures
        (r.0@, r.1) == processes_status(view@),
{
    match &view.state {
        ProcessesViewState::Connecting => (String::from_str("connecting…"), Color::Yellow),
        ProcessesViewState::Available { rows, source } => {
            let shown: usize = view.visible_count();
            (
                decimal_string(shown as u64).concat("/").concat(
                    decimal_string(rows.len() as u64).as_str(),
                ).concat(" process(es) · source: ").concat(source.as_str()).concat(
                    note_text(&view.filter).as_str(),
                ),
                Color::Green,
            )
        },
        ProcessesViewState::Unavailable { .. } => (String::from_str("unavailable"), Color::Red),
    }
}

/// The body of the Processes view.
pub open spec fn processes_body(m: ProcessesModel, area: Rect) -> DrawView {
    match m.state {
        ProcessesViewState::Connecting => spec_centered(
            area,
            "Connecting to the processes probe…"@,
            Color::Yellow,
        ),
        ProcessesViewState::Available { .. } => if m.shown().len() == 0 {
            spec_centered(
                area,
                if m.cursor.filter.len() == 0 {
                    "No running processes"@
                } else {
                    "No processes match filter"@
                },
                Color::DarkGray,
            )
        } else {
            processes_table(m.shown(), m.cursor.selection, area)
        },
        ProcessesViewState::Unavailable { reason } => spec_unavailable(
            area,
            "Processes probe unavailable"@,
            reason@,
        ),
    }
}

fn render_processes_body(view: &ProcessesView, area: Rect) -> (d: Draw)
    ensures
        d@ == processes_body(view@, area),
{
    match &view.state {
        ProcessesViewState::Connecting => centered(
            area,
            "Connecting to the processes probe…",
            Color::Yellow,
        ),
        ProcessesViewState::Available { rows, .. } => {
            if view.visible_count() == 0 {
                let message: &str = if view.filter.as_str().is_empty() {
                    "No running processes"
                } else {
                    "No processes match filter"
                };
                centered(area, message, Color::DarkGray)
            } else {
                render_processes_table(rows, &view.filter, view.selection, area)
            }
        },
        ProcessesViewState::Unavailable { reason } => unavailable(
            area,
            "Processes probe unavailable",
            reason.as_str(),
        ),
    }
}

/// A list view in the rows `chunks`: status bar, perhaps a filter bar, body
/// and help bar.
pub open spec fn list_scene(
    status: (Seq<char>, Color),
    filter: Seq<char>,
    typing: bool,
    body: spec_fn(Rect) -> DrawView,
    help: Seq<char>,
    chunks: Seq<Rect>,
) -> Seq<DrawView> {
    let top = seq![spec_bar(chunks[0], status.0, fg(status.1))];
    if typing || filter.len() > 0 {
        top.push(filter_bar(filter, typing, chunks[1])).push(body(chunks[2])).push(
            spec_bar(chunks[3], help, fg(Color::DarkGray)),
        )
    } else {
        top.push(body(chunks[1])).push(spec_bar(chunks[2], help, fg(Color::DarkGray)))
    }
}

/// The Ports view in the rows `chunks`.
pub open spec fn ports_view_scene(m: PortsModel, chunks: Seq<Rect>) -> Seq<DrawView> {
    list_scene(
        ports_status(m),
        m.cursor.filter,
        m.cursor.filter_active,
        |area: Rect| ports_body(m, area),
        help_text(PortsActiveView::Ports, m.cursor.filter_active),
        chunks,
    )
}

/// The Processes view in the rows `chunks`.
pub open spec fn processes_view_scene(m: ProcessesModel, chunks: Seq<Rect>) -> Seq<DrawView> {
    list_scene(
        processes_status(m),
        m.cursor.filter,
        m.cursor.filter_active,
        |area: Rect| processes_body(m, area),
        help_text(PortsActiveView::Processes, m.cursor.filter_active),
        chunks,
    )
}

/// Draws the Ports view into the rows `chunks`.
pub fn render_ports_view(view: &PortsView, chunks: &Vec<Rect>) -> (draws: Vec<Draw>)
    requires
        chunks@.len() == if view.filter_active || view.filter@.len() > 0 { 4int } else { 3int },
    ensures
        draw_views(draws@) == ports_view_scene(view@, chunks@),
{
    let filtering: bool = view.filter_active || !view.filter.as_str().is_empty();
    let mut draws: Vec<Draw> = Vec::new();
    let (text, color) = ports_status_text(view);
    draws.push(bar(chunks[0], text, fg(color)));
    let mut at: usize = 1;
    if filtering {
        draws.push(render_filter_bar(&view.filter, view.filter_active, chunks[1]));
        at = 2;
    }
    draws.push(render_ports_body(view, chunks[at]));
    draws.push(help_bar(PortsActiveView::Ports, view.filter_active, chunks[at + 1]));
    assert(draw_views(draws@) =~= ports_view_scene(view@, chunks@));
    draws
}

/// Draws the Processes view into the rows `chunks`.
pub fn render_processes_view(view: &ProcessesView, chunks: &Vec<Rect>) -> (draws: Vec<Draw>)
    requires
        chunks@.len() == if view.filter_active || view.filter@.len() > 0 { 4int } else { 3int },
    ensures
        draw_views(draws@) == processes_view_scene(view@, chunks@),
{
    let filtering: bool = view.filter_active || !view.filter.as_str().is_empty();
    let mut draws: Vec<Draw> = Vec::new();
    let (text, color) = processes_status_text(view);
    draws.push(bar(chunks[0], text, fg(color)));
    let mut at: usize = 1;
    if filtering {
        draws.push(render_filter_bar(&view.filter, view.filter_active, chunks[1]));
        at = 2;
    }
    draws.push(render_processes_body(view, chunks[at]));
    draws.push(help_bar(PortsActiveView::Processes, view.filter_active, chunks[at + 1]));
    assert(draw_views(draws@) =~= processes_view_scene(view@, chunks@));
    draws
}

/// The title of the Ports tile.
pub open spec fn ports_title(active: PortsActiveView) -> Seq<char> {
    match active {
        PortsActiveView::Ports => "ports"@,
        PortsActiveView::Processes => "processes"@,
    }
}

/// Rows of the tile's inside.
pub open spec fn ports_extents(m: PortsScopeModel) -> Seq<Extent> {
    let cursor = match m.active {
        PortsActiveView::Ports => m.ports.cursor,
        PortsActiveView::Processes => m.processes.cursor,
    };
    spec_list_extents(cursor.filter_active || cursor.filter.len() > 0)
}

/// The Ports tile, with its inside cut into the rows `chunks`.
pub open spec fn ports_scene(
    m: PortsScopeModel,
    area: Rect,
    focused: bool,
    hovered: bool,
    chunks: Seq<Rect>,
) -> Seq<DrawView> {
    seq![spec_tile_frame(area, ports_title(m.active), focused, hovered)] + match m.active {
        PortsActiveView::Ports => ports_view_scene(m.ports, chunks),
        PortsActiveView::Processes => processes_view_scene(m.processes, chunks),
    }
}

/// Draws the Ports tile.
pub fn render(scope: &PortsScope, area: Rect, focused: bool, hovered: bool) -> (draws: Vec<Draw>)
    requires
        area.edges_fit(),
    ensures
        exists|chunks: Seq<Rect>| #[trigger]
            cuts_rows(spec_inner(area), ports_extents(scope@), chunks) && draw_views(draws@)
                == ports_scene(scope@, area, focused, hovered, chunks),
{
    let inside = inner(area);
    let mut draws: Vec<Draw> = Vec::new();
    let title: &str = match scope.active {
        PortsActiveView::Ports => "ports",
        PortsActiveView::Processes => "processes",
    };
    draws.push(tile_frame(area, title.to_owned(), focused, hovered));
    let filtering: bool = match scope.active {
        PortsActiveView::Ports => scope.ports.filter_active
            || !scope.ports.filter.as_str().is_empty(),
        PortsActiveView::Processes => scope.processes.filter_active
            || !scope.processes.filter.as_str().is_empty(),
    };
    let chunks = split_rows(inside, &list_extents(filtering));
    let mut body = match scope.active {
        PortsActiveView::Ports => render_ports_view(&scope.ports, &chunks),
        PortsActiveView::Processes => render_processes_view(&scope.processes, &chunks),
    };
    draws.append(&mut body);
    proof {
        assert(cuts_rows(spec_inner(area), ports_extents(scope@), chunks@));
        assert(draw_views(draws@) =~= ports_scene(scope@, area, focused, hovered, chunks@));
    }
    draws
}

} // verus!
