//! The Docker tile.
//!
//! The container list has a status bar, perhaps a filter bar, a body and a
//! help bar; a confirm prompt lies on top of them. The logs view has a status
//! bar, the transcript and a help bar.

use vstd::prelude::*;

use crate::docker::{ConfirmModel, DockerModel, DockerScope, DockerScopeState, DockerView,
    DockerViewModel, PendingConfirm};
use crate::geometry::Rect;
use crate::list::{lemma_visible_step, matches_filter, visible};
use crate::logs::{LogLine, LogLineView, LogsModel, LogsView};
use crate::proto::{action_verb, spec_action_verb, DockerContainer, DockerPort, LogStream,
    ScopeTarget};
use crate::scene::format::minus;
use crate::scene::{
    bar, blank_line, cuts_rows, draw_views, fg, group_scene, inner, line, line_views, list_extents,
    no_spans, one_span, plain, row_marker, row_views, span, spec_bar, spec_inner,
    spec_list_extents, spec_span, spec_tile_frame, split_rows, styled_line, tile_frame, Color, Draw,
    DrawView, Extent, Line, LineView, RowView, Span, Style, TableRow,
};
use crate::text::{decimal, decimal_string, join, joined, texts};

verus! {

broadcast use group_scene;

/// The name of the machine whose engine is shown.
pub open spec fn spec_target_suffix(target: ScopeTarget) -> Seq<char> {
    match target {
        ScopeTarget::Local => "local"@,
        ScopeTarget::Remote { alias } => alias@,
    }
}

/// The name of the machine whose engine is shown.
pub fn target_suffix_for(target: &ScopeTarget) -> (r: String)
    ensures
        r@ == spec_target_suffix(*target),
{
    match target {
        ScopeTarget::Local => String::from_str("local"),
        ScopeTarget::Remote { alias } => alias.clone(),
    }
}

/// What stands before the first `c` in `s`.
pub open spec fn before_first(s: Seq<char>, c: char) -> Seq<char> {
    match s.index_of_first(c) {
        Some(i) => s.take(i),
        None => s,
    }
}

fn text_before(s: &str, c: char) -> (r: String)
    ensures
        r@ == before_first(s@, c),
{
    let n: usize = s.unicode_len();
    let mut i: usize = 0;
    while i < n && s.get_char(i) != c
        invariant
            n == s@.len(),
            0 <= i <= n,
            forall|j: int| 0 <= j < i ==> s@[j] != c,
        decreases n - i,
    {
        i += 1;
    }
    proof {
        s@.index_of_first_ensures(c);
        if i < n {
            assert(s@.contains(s@[i as int]));
            let k = s@.index_of_first(c)->0;
            assert(k == i);
        } else {
            if s@.contains(c) {
                let j = choose|j: int| 0 <= j < s@.len() && s@[j] == c;
                assert(false);
            }
        }
        assert(s@.subrange(0, i as int) =~= before_first(s@, c));
    }
    s.substring_char(0, i).to_owned()
}

/// A port of a container: where it is published, or just its number.
pub open spec fn port_text(p: DockerPort) -> Seq<char> {
    if p.public_port != 0 {
        before_first(p.ip@, ':') + ":"@ + decimal(p.public_port as nat) + "→"@ + decimal(
            p.private_port as nat,
        ) + "/"@ + p.protocol@
    } else {
        decimal(p.private_port as nat) + "/"@ + p.protocol@
    }
}

/// At most three ports of a container, and how many there are beyond.
pub open spec fn spec_format_ports(ports: Seq<DockerPort>) -> Seq<char> {
    let shown = if ports.len() > 3 { ports.take(3) } else { ports };
    let bits = shown.map_values(|p: DockerPort| port_text(p));
    joined(
        if ports.len() > 3 {
            bits.push("+"@ + decimal((ports.len() - 3) as nat))
        } else {
            bits
        },
        ", "@,
    )
}

fn describe_port(p: &DockerPort) -> (r: String)
    ensures
        r@ == port_text(*p),
{
    if p.public_port != 0 {
        text_before(p.ip.as_str(), ':').concat(":").concat(
            decimal_string(p.public_port as u64).as_str(),
        ).concat("→").concat(decimal_string(p.private_port as u64).as_str()).concat("/").concat(
            p.protocol.as_str(),
        )
    } else {
        decimal_string(p.private_port as u64).concat("/").concat(p.protocol.as_str())
    }
}

/// The ports of a container for its row.
pub fn format_ports(ports: &Vec<DockerPort>) -> (r: String)
    ensures
        r@ == spec_format_ports(ports@),
{
    let mut bits: Vec<String> = Vec::new();
    let n: usize = ports.len();
    let limit: usize = if n > 3 {
        3
    } else {
        n
    };
    let mut i: usize = 0;
    while i < limit
        invariant
            n == ports@.len(),
            limit <= n,
            0 <= i <= limit,
            bits@.len() == i,
            forall|j: int| 0 <= j < i ==> (#[trigger] bits@[j])@ == port_text(ports@[j]),
        decreases limit - i,
    {
        bits.push(describe_port(&ports[i]));
        i += 1;
    }
    if n > 3 {
        bits.push(String::from_str("+").concat(decimal_string((n - 3) as u64).as_str()));
    }
    proof {
        let shown = if ports@.len() > 3 { ports@.take(3) } else { ports@ };
        let spec_bits = shown.map_values(|p: DockerPort| port_text(p));
        let wanted = if ports@.len() > 3 {
            spec_bits.push("+"@ + decimal((ports@.len() - 3) as nat))
        } else {
            spec_bits
        };
        assert(texts(bits@) =~= wanted);
    }
    join(&bits, ", ")
}

/// The style of a container's state.
pub open spec fn spec_state_color(state: Seq<char>) -> Style {
    if state == "running"@ {
        fg(Color::Green)
    } else if state == "exited"@ || state == "dead"@ {
        fg(Color::Red)
    } else if state == "paused"@ || state == "restarting"@ {
        fg(Color::Yellow)
    } else if state == "created"@ || state == "removing"@ {
        fg(Color::Blue)
    } else {
        fg(Color::DarkGray)
    }
}

/// The style of a container's state.
pub fn state_color(state: &String) -> (r: Style)
    ensures
        r == spec_state_color(state@),
{
    if *state == String::from_str("running") {
        fg(Color::Green)
    } else if *state == String::from_str("exited") || *state == String::from_str("dead") {
        fg(Color::Red)
    } else if *state == String::from_str("paused") || *state == String::from_str("restarting") {
        fg(Color::Yellow)
    } else if *state == String::from_str("created") || *state == String::from_str("removing") {
        fg(Color::Blue)
    } else {
        fg(Color::DarkGray)
    }
}

/// Style of the table's header.
#[verifier::allow_in_spec]
pub fn header_style() -> Style
    returns
        fg(Color::DarkGray).bold(),
{
    fg(Color::DarkGray).bold()
}

/// A container's row.
pub open spec fn container_row(c: DockerContainer, selected: bool) -> RowView {
    RowView {
        cells: seq![
            spec_span(row_marker(selected), plain()),
            spec_span(if c.names@.len() > 0 { c.names@[0]@ } else { ""@ }, plain()),
            spec_span(c.image@, plain()),
            spec_span(c.state@, spec_state_color(c.state@)),
            spec_span(c.status@, plain()),
            spec_span(spec_format_ports(c.ports@), plain()),
        ],
        style: if selected {
            Style { bg: Some(Color::Rgb(40, 40, 60)), ..plain() }.bold()
        } else {
            plain()
        },
    }
}

/// A marker span of a row.
pub fn marker_span(selected: bool, style: Style) -> (s: Span)
    ensures
        s@ == spec_span(row_marker(selected), style),
{
    if selected {
        span(String::from_str("▶ "), style)
    } else {
        span(String::from_str("  "), style)
    }
}

fn row_for(c: &DockerContainer, selected: bool) -> (r: TableRow)
    ensures
        r@ == container_row(*c, selected),
{
    let name: String = if c.names.len() > 0 {
        c.names[0].clone()
    } else {
        String::from_str("")
    };
    let mut cells: Vec<Span> = Vec::new();
    cells.push(marker_span(selected, plain()));
    cells.push(span(name, plain()));
    cells.push(span(c.image.clone(), plain()));
    cells.push(span(c.state.clone(), state_color(&c.state)));
    cells.push(span(c.status.clone(), plain()));
    cells.push(span(format_ports(&c.ports), plain()));
    let style: Style = if selected {
        Style { bg: Some(Color::Rgb(40, 40, 60)), ..plain() }.bold()
    } else {
        plain()
    };
    let r = TableRow { cells, style };
    assert(r@ =~= container_row(*c, selected));
    r
}

/// The header of the container table.
pub open spec fn container_header() -> RowView {
    RowView {
        cells: seq![
            spec_span("  "@, plain()),
            spec_span("NAME"@, plain()),
            spec_span("IMAGE"@, plain()),
            spec_span("STATE"@, plain()),
            spec_span("STATUS"@, plain()),
            spec_span("PORTS"@, plain()),
        ],
        style: header_style(),
    }
}

/// Columns of the container table.
pub open spec fn container_widths() -> Seq<Extent> {
    seq![
        Extent::Length(2),
        Extent::Length(20),
        Extent::Length(20),
        Extent::Length(10),
        Extent::Length(16),
        Extent::Min(10),
    ]
}

/// The container table.
pub open spec fn container_table(shown: Seq<DockerContainer>, selection: int, area: Rect) -> DrawView {
    DrawView::Table {
        area,
        header: Some(container_header()),
        rows: shown.map(|i: int, c: DockerContainer| container_row(c, i == selection)),
        widths: container_widths(),
    }
}

/// The container table.
pub fn render_table(
    containers: &Vec<DockerContainer>,
    filter: &String,
    selection: usize,
    area: Rect,
) -> (d: Draw)
    ensures
        d@ == container_table(visible(containers@, filter@), selection as int, area),
{
    let ghost f = |i: int, c: DockerContainer| container_row(c, i == selection as int);
    let mut rows: Vec<TableRow> = Vec::new();
    let n: usize = containers.len();
    let mut i: usize = 0;
    proof {
        reveal(Seq::filter);
        assert(visible(containers@.take(0), filter@) =~= Seq::empty());
        assert(row_views(rows@) =~= visible(containers@.take(0), filter@).map(f));
    }
    while i < n
        invariant
            n == containers@.len(),
            0 <= i <= n,
            f == (|i: int, c: DockerContainer| container_row(c, i == selection as int)),
            row_views(rows@) == visible(containers@.take(i as int), filter@).map(f),
        decreases n - i,
    {
        let ghost shorter = visible(containers@.take(i as int), filter@);
        proof {
            lemma_visible_step(containers@, filter@, i as int);
            assert(row_views(rows@).len() == rows@.len());
        }
        if matches_filter(filter, &containers[i]) {
            let at: usize = rows.len();
            rows.push(row_for(&containers[i], at == selection));
            assert(shorter.push(containers@[i as int]).map(f) =~= shorter.map(f).push(
                f(shorter.len() as int, containers@[i as int]),
            ));
        }
        i += 1;
    }
    assert(containers@.take(n as int) =~= containers@);
    let mut cells: Vec<Span> = Vec::new();
    cells.push(span(String::from_str("  "), plain()));
    cells.push(span(String::from_str("NAME"), plain()));
    cells.push(span(String::from_str("IMAGE"), plain()));
    cells.push(span(String::from_str("STATE"), plain()));
    cells.push(span(String::from_str("STATUS"), plain()));
    cells.push(span(String::from_str("PORTS"), plain()));
    let header = TableRow { cells, style: header_style() };
    assert(header@ =~= container_header());
    let mut widths: Vec<Extent> = Vec::new();
    widths.push(Extent::Length(2));
    widths.push(Extent::Length(20));
    widths.push(Extent::Length(20));
    widths.push(Extent::Length(10));
    widths.push(Extent::Length(16));
    widths.push(Extent::Min(10));
    assert(widths@ =~= container_widths());
    Draw::Table { area, header: Some(header), rows, widths }
}

/// A bold message in the middle of an area.
pub open spec fn spec_centered(area: Rect, text: Seq<char>, color: Color) -> DrawView {
    DrawView::Text {
        area,
        lines: seq![no_spans(), one_span(text, fg(color).bold(), false)],
        centered: true,
        wrap: false,
    }
}

fn centered(area: Rect, text: &str, color: Color) -> (d: Draw)
    ensures
        d@ == spec_centered(area, text@, color),
{
    let mut lines: Vec<Line> = Vec::new();
    lines.push(blank_line());
    lines.push(styled_line(text.to_owned(), fg(color).bold(), false));
    assert(line_views(lines@) =~= seq![no_spans(), one_span(text@, fg(color).bold(), false)]);
    Draw::Text { area, lines, centered: true, wrap: false }
}

/// Why the engine cannot be reached, in the daemon's words.
pub open spec fn spec_unavailable(area: Rect, reason: Seq<char>) -> DrawView {
    DrawView::Text {
        area,
        lines: seq![
            no_spans(),
            one_span("Docker engine unavailable"@, fg(Color::Red).bold(), false),
            no_spans(),
            one_span(reason, fg(Color::DarkGray), false),
            no_spans(),
            one_span(
                "Tepegöz will keep retrying every 5s. Start docker and we'll pick it up."@,
                fg(Color::DarkGray),
                false,
            ),
        ],
        centered: true,
        wrap: true,
    }
}

fn unavailable(area: Rect, reason: &String) -> (d: Draw)
    ensures
        d@ == spec_unavailable(area, reason@),
{
    let mut lines: Vec<Line> = Vec::new();
    lines.push(blank_line());
    lines.push(
        styled_line(
            String::from_str("Docker engine unavailable"),
            fg(Color::Red).bold(),
            false,
        ),
    );
    lines.push(blank_line());
    lines.push(styled_line(reason.clone(), fg(Color::DarkGray), false));
    lines.push(blank_line());
    lines.push(
        styled_line(
            String::from_str(
                "Tepegöz will keep retrying every 5s. Start docker and we'll pick it up.",
            ),
            fg(Color::DarkGray),
            false,
        ),
    );
    let d = Draw::Text { area, lines, centered: true, wrap: true };
    assert(d@ =~= spec_unavailable(area, reason@));
    d
}

/// The status bar of the container list.
pub open spec fn list_status(m: DockerModel) -> (Seq<char>, Color) {
    match m.state {
        DockerScopeState::Idle => ("idle"@, Color::DarkGray),
        DockerScopeState::Connecting => ("connecting…"@, Color::Yellow),
        DockerScopeState::Available { containers, engine_source } => (
            decimal(m.shown().len()) + "/"@ + decimal(containers@.len()) + " container(s)"@ + (
            if m.cursor.filter.len() == 0 {
                ""@
            } else {
                " (filter \""@ + m.cursor.filter + "\")"@
            }) + " · "@ + engine_source@,
            Color::Green,
        ),
        DockerScopeState::Unavailable { .. } => ("unavailable"@, Color::Red),
    }
}

fn status_text(scope: &DockerScope) -> (r: (String, Color))
    ensures
        (r.0@, r.1) == list_status(scope@),
{
    match &scope.state {
        DockerScopeState::Idle => (String::from_str("idle"), Color::DarkGray),
        DockerScopeState::Connecting => (String::from_str("connecting…"), Color::Yellow),
        DockerScopeState::Available { containers, engine_source } => {
            let shown: usize = scope.visible_count();
            let note: String = if scope.filter.as_str().is_empty() {
                String::from_str("")
            } else {
                String::from_str(" (filter \"").concat(scope.filter.as_str()).concat("\")")
            };
            (
                decimal_string(shown as u64).concat("/").concat(
                    decimal_string(containers.len() as u64).as_str(),
                ).concat(" container(s)").concat(note.as_str()).concat(" · ").concat(
                    engine_source.as_str(),
                ),
                Color::Green,
            )
        },
        DockerScopeState::Unavailable { .. } => (String::from_str("unavailable"), Color::Red),
    }
}

/// The filter bar of the container list, with a caret while it is edited.
pub open spec fn filter_bar(filter: Seq<char>, active: bool, area: Rect) -> DrawView {
    let spans = seq![
        spec_span("filter: "@, fg(Color::Cyan).bold()),
        spec_span(filter, plain()),
    ];
    DrawView::Text {
        area,
        lines: seq![
            LineView {
                spans: if active {
                    spans.push(spec_span("_"@, fg(Color::Cyan).slow_blink()))
                } else {
                    spans
                },
                centered: false,
            },
        ],
        centered: false,
        wrap: false,
    }
}

fn render_filter_bar(filter: &String, active: bool, area: Rect) -> (d: Draw)
    ensures
        d@ == filter_bar(filter@, active, area),
{
    let mut spans: Vec<Span> = Vec::new();
    spans.push(span(String::from_str("filter: "), fg(Color::Cyan).bold()));
    spans.push(span(filter.clone(), plain()));
    if active {
        spans.push(span(String::from_str("_"), fg(Color::Cyan).slow_blink()));
    }
    let mut lines: Vec<Line> = Vec::new();
    lines.push(line(spans));
    let d = Draw::Text { area, lines, centered: false, wrap: false };
    assert(d@ =~~= filter_bar(filter@, active, area));
    d
}

/// The help bar: which keys mean something right now.
pub open spec fn help_text(m: DockerModel) -> Seq<char> {
    if m.view is Logs {
        "[j/k] scroll · [PgUp/PgDn] page · [G] tail · [Esc/q] back"@
    } else if m.confirm is Some {
        "[y] confirm · any other key cancels"@
    } else if m.cursor.filter_active {
        "[Enter] apply · [Esc] clear · [Backspace] delete"@
    } else {
        "[j/k] nav · [/] filter · [l] logs · [r] restart · [s] stop · [K] kill · [X] remove"@
    }
}

fn help_bar(scope: &DockerScope, area: Rect) -> (d: Draw)
    ensures
        d@ == spec_bar(area, help_text(scope@), fg(Color::DarkGray)),
{
    let in_logs: bool = match &scope.view {
        DockerView::Logs(_) => true,
        DockerView::List => false,
    };
    let help: &str = if in_logs {
        "[j/k] scroll · [PgUp/PgDn] page · [G] tail · [Esc/q] back"
    } else if scope.pending_confirm.is_some() {
        "[y] confirm · any other key cancels"
    } else if scope.filter_active {
        "[Enter] apply · [Esc] clear · [Backspace] delete"
    } else {
        "[j/k] nav · [/] filter · [l] logs · [r] restart · [s] stop · [K] kill · [X] remove"
    };
    bar(area, help.to_owned(), fg(Color::DarkGray))
}

/// The body of the container list.
pub open spec fn list_body(m: DockerModel, area: Rect) -> DrawView {
    match m.state {
        DockerScopeState::Idle => spec_centered(area, "idle"@, Color::DarkGray),
        DockerScopeState::Connecting => spec_centered(
            area,
            "Connecting to docker engine…"@,
            Color::Yellow,
        ),
        DockerScopeState::Available { .. } => if m.shown().len() == 0 {
            spec_centered(
                area,
                if m.cursor.filter.len() == 0 {
                    "No containers"@
                } else {
                    "No containers match filter"@
                },
                Color::DarkGray,
            )
        } else {
            container_table(m.shown(), m.cursor.selection, area)
        },
        DockerScopeState::Unavailable { reason } => spec_unavailable(area, reason@),
    }
}

fn render_body(scope: &DockerScope, area: Rect) -> (d: Draw)
    ensures
        d@ == list_body(scope@, area),
{
    match &scope.state {
        DockerScopeState::Idle => centered(area, "idle", Color::DarkGray),
        DockerScopeState::Connecting => centered(
            area,
            "Connecting to docker engine…",
            Color::Yellow,
        ),
        DockerScopeState::Available { containers, .. } => {
            if scope.visible_count() == 0 {
                let message: &str = if scope.filter.as_str().is_empty() {
                    "No containers"
                } else {
                    "No containers match filter"
                };
                centered(area, message, Color::DarkGray)
            } else {
                render_table(containers, &scope.filter, scope.selection, area)
            }
        },
        DockerScopeState::Unavailable { reason } => unavailable(area, reason),
    }
}

/// Where the confirm prompt goes inside its tile; `None` if there is no room.
pub open spec fn confirm_area(tile: Rect) -> Option<Rect> {
    let w = tile.width as nat;
    let wanted = if minus(w, 4) < 50 { minus(w, 4) } else { 50 };
    let least: nat = if w < 20 { w } else { 20 };
    let width = if wanted < least { least } else { wanted };
    let height: nat = if tile.height < 5 { tile.height as nat } else { 5 };
    if width == 0 || height == 0 {
        None
    } else {
        Some(
            Rect {
                x: (tile.x + (tile.width - width) / 2) as u16,
                y: (tile.y + (tile.height - height) / 2) as u16,
                width: width as u16,
                height: height as u16,
            },
        )
    }
}

/// The confirm prompt inside its tile.
pub open spec fn confirm_modal(tile: Rect, confirm: ConfirmModel) -> Seq<DrawView> {
    match confirm_area(tile) {
        None => Seq::empty(),
        Some(area) => seq![
            DrawView::Clear { area },
            DrawView::Frame {
                area,
                title: " confirm "@,
                title_style: fg(Color::Yellow).bold(),
                border_style: fg(Color::Yellow).bold(),
            },
            DrawView::Text {
                area: spec_inner(area),
                lines: seq![
                    no_spans(),
                    one_span(
                        spec_action_verb(confirm.kind) + " container "@ + confirm.container_name
                            + "?"@,
                        fg(Color::Yellow).bold(),
                        true,
                    ),
                    one_span("[y] confirm · any other key cancels"@, fg(Color::DarkGray), true),
                ],
                centered: true,
                wrap: false,
            },
        ],
    }
}

/// The confirm prompt, in the middle of its tile.
pub fn render_confirm_modal(tile: Rect, pending: &PendingConfirm) -> (draws: Vec<Draw>)
    requires
        tile.edges_fit(),
    ensures
        draw_views(draws@) == confirm_modal(tile, pending@),
{
    let mut draws: Vec<Draw> = Vec::new();
    let w: u16 = tile.width;
    let less: u16 = if w < 4 {
        0
    } else {
        w - 4
    };
    let wanted: u16 = if less < 50 {
        less
    } else {
        50
    };
    let least: u16 = if w < 20 {
        w
    } else {
        20
    };
    let width: u16 = if wanted < least {
        least
    } else {
        wanted
    };
    let height: u16 = if tile.height < 5 {
        tile.height
    } else {
        5
    };
    if width == 0 || height == 0 {
        return draws;
    }
    let area = Rect {
        x: tile.x + (w - width) / 2,
        y: tile.y + (tile.height - height) / 2,
        width,
        height,
    };
    assert(confirm_area(tile) == Some(area));
    let prompt = String::from_str(action_verb(pending.kind)).concat(" container ").concat(
        pending.container_name.as_str(),
    ).concat("?");
    let mut lines: Vec<Line> = Vec::new();
    lines.push(blank_line());
    lines.push(styled_line(prompt, fg(Color::Yellow).bold(), true));
    lines.push(
        styled_line(
            String::from_str("[y] confirm · any other key cancels"),
            fg(Color::DarkGray),
            true,
        ),
    );
    draws.push(Draw::Clear { area });
    draws.push(
        Draw::Frame {
            area,
            title: String::from_str(" confirm "),
            title_style: fg(Color::Yellow).bold(),
            border_style: fg(Color::Yellow).bold(),
        },
    );
    draws.push(Draw::Text { area: inner(area), lines, centered: true, wrap: false });
    assert(draw_views(draws@) =~~= confirm_modal(tile, pending@));
    draws
}

/// The container list has a filter bar.
pub open spec fn has_filter_bar(m: DockerModel) -> bool {
    m.cursor.filter_active || m.cursor.filter.len() > 0
}

/// The container list in the rows `chunks` of the tile's inside.
pub open spec fn list_scene(m: DockerModel, inside: Rect, chunks: Seq<Rect>) -> Seq<DrawView> {
    let (text, color) = list_status(m);
    let top = seq![spec_bar(chunks[0], text, fg(color))];
    let body_at = if has_filter_bar(m) { 2int } else { 1int };
    let bars = if has_filter_bar(m) {
        top.push(filter_bar(m.cursor.filter, m.cursor.filter_active, chunks[1]))
    } else {
        top
    };
    let list = bars.push(list_body(m, chunks[body_at])).push(
        spec_bar(chunks[body_at + 1], help_text(m), fg(Color::DarkGray)),
    );
    match m.confirm {
        Some(confirm) => list + confirm_modal(inside, confirm),
        None => list,
    }
}

/// Draws the container list into the rows `chunks` of the tile's inside.
pub fn render_list_view(scope: &DockerScope, inside: Rect, chunks: &Vec<Rect>) -> (draws: Vec<
    Draw,
>)
    requires
        inside.edges_fit(),
        chunks@.len() == if has_filter_bar(scope@) { 4int } else { 3int },
    ensures
        draw_views(draws@) == list_scene(scope@, inside, chunks@),
{
    let filtering: bool = scope.filter_active || !scope.filter.as_str().is_empty();
    assert(filtering == has_filter_bar(scope@));
    let mut draws: Vec<Draw> = Vec::new();
    let (text, color) = status_text(scope);
    draws.push(bar(chunks[0], text, fg(color)));
    let mut at: usize = 1;
    if filtering {
        draws.push(render_filter_bar(&scope.filter, scope.filter_active, chunks[1]));
        at = 2;
    }
    draws.push(render_body(scope, chunks[at]));
    draws.push(help_bar(scope, chunks[at + 1]));
    let ghost list = draw_views(draws@);
    match &scope.pending_confirm {
        Some(pending) => {
            let mut modal = render_confirm_modal(inside, pending);
            draws.append(&mut modal);
        },
        None => {},
    }
    assert(draw_views(draws@) =~= list_scene(scope@, inside, chunks@));
    draws
}

/// A line of the transcript. Stderr is marked.
pub open spec fn log_line(l: LogLineView) -> LineView {
    let (color, prefix) = match l.stream {
        LogStream::Stdout => (Color::Gray, "  "@),
        LogStream::Stderr => (Color::Yellow, "! "@),
    };
    LineView {
        spans: seq![spec_span(prefix, fg(color).bold()), spec_span(l.text, fg(color))],
        centered: false,
    }
}

/// A line of the transcript.
pub fn line_for_log(l: &LogLine) -> (r: Line)
    ensures
        r@ == log_line(l@),
{
    let color: Color = match l.stream {
        LogStream::Stdout => Color::Gray,
        LogStream::Stderr => Color::Yellow,
    };
    let prefix: String = match l.stream {
        LogStream::Stdout => String::from_str("  "),
        LogStream::Stderr => String::from_str("! "),
    };
    let mut spans: Vec<Span> = Vec::new();
    spans.push(span(prefix, fg(color).bold()));
    spans.push(span(l.text.clone(), fg(color)));
    let r = line(spans);
    assert(r@ =~~= log_line(l@));
    r
}

/// Lines of the transcript, the end marker included.
pub open spec fn transcript_len(m: LogsModel) -> nat {
    m.lines.len() + if m.stream_ended is Some { 1nat } else { 0nat }
}

/// Line number `i` of the transcript.
pub open spec fn transcript_line(m: LogsModel, i: int) -> LineView {
    if m.stream_ended is Some && i == m.lines.len() {
        one_span(
            "— log stream ended: "@ + m.stream_ended->0 + " —"@,
            fg(Color::DarkGray).italic(),
            false,
        )
    } else {
        log_line(m.lines[i])
    }
}

/// The part of the transcript that `height` rows show.
pub open spec fn transcript_window(m: LogsModel, height: nat) -> Seq<LineView> {
    let end = minus(transcript_len(m), m.scroll_offset as nat);
    let start = minus(end, height);
    Seq::new((end - start) as nat, |k: int| transcript_line(m, start + k))
}

/// The transcript.
pub open spec fn transcript(m: LogsModel, area: Rect) -> Seq<DrawView> {
    if area.height == 0 {
        Seq::empty()
    } else {
        seq![
            DrawView::Text {
                area,
                lines: transcript_window(m, area.height as nat),
                centered: false,
                wrap: false,
            },
        ]
    }
}

/// Draws the transcript, scrolled.
pub fn render_transcript(logs: &LogsView, area: Rect) -> (draws: Vec<Draw>)
    requires
        logs@.wf(),
    ensures
        draw_views(draws@) == transcript(logs@, area),
{
    let mut draws: Vec<Draw> = Vec::new();
    if area.height == 0 {
        return draws;
    }
    let height: usize = area.height as usize;
    let count: usize = logs.lines.len();
    let ended: bool = logs.stream_ended.is_some();
    let total: usize = if ended {
        count + 1
    } else {
        count
    };
    let end: usize = if total < logs.scroll_offset {
        0
    } else {
        total - logs.scroll_offset
    };
    let start: usize = if end < height {
        0
    } else {
        end - height
    };
    let mut lines: Vec<Line> = Vec::new();
    let mut i: usize = start;
    while i < end
        invariant
            count == logs.lines@.len(),
            total == transcript_len(logs@),
            ended == (logs@.stream_ended is Some),
            start <= i <= end <= total,
            total == count + (if ended { 1int } else { 0int }),
            line_views(lines@) == Seq::new(
                (i - start) as nat,
                |k: int| transcript_line(logs@, start + k),
            ),
        decreases end - i,
    {
        let next: Line = if ended && i == count {
            let reason: &str = match &logs.stream_ended {
                Some(reason) => reason.as_str(),
                None => "",
            };
            styled_line(
                String::from_str("— log stream ended: ").concat(reason).concat(" —"),
                fg(Color::DarkGray).italic(),
                false,
            )
        } else {
            line_for_log(&logs.lines[i])
        };
        assert(next@ == transcript_line(logs@, i as int));
        let ghost had = line_views(lines@);
        lines.push(next);
        assert(line_views(lines@) =~= Seq::new(
            (i + 1 - start) as nat,
            |k: int| transcript_line(logs@, start + k),
        ));
        i += 1;
    }
    draws.push(Draw::Text { area, lines, centered: false, wrap: false });
    assert(line_views(lines@) =~= transcript_window(logs@, height as nat));
    assert(draw_views(draws@) =~= transcript(logs@, area));
    draws
}

/// The status bar of the logs view.
pub open spec fn logs_status(m: LogsModel) -> LineView {
    LineView {
        spans: seq![
            spec_span(decimal(m.lines.len()) + " lines"@, fg(Color::Green)),
            spec_span(" · tail: "@, fg(Color::DarkGray)),
            if m.at_tail {
                spec_span("on"@, fg(Color::Green))
            } else {
                spec_span("off"@, fg(Color::Yellow))
            },
            spec_span(" · stream: "@, fg(Color::DarkGray)),
            match m.stream_ended {
                None => spec_span("live"@, fg(Color::Green)),
                Some(reason) => spec_span(
                    if reason.len() == 0 {
                        "ended"@
                    } else {
                        "ended: "@ + reason
                    },
                    fg(Color::Red),
                ),
            },
        ],
        centered: false,
    }
}

fn logs_status_line(logs: &LogsView) -> (r: Line)
    ensures
        r@ == logs_status(logs@),
{
    let mut spans: Vec<Span> = Vec::new();
    spans.push(
        span(decimal_string(logs.lines.len() as u64).concat(" lines"), fg(Color::Green)),
    );
    spans.push(span(String::from_str(" · tail: "), fg(Color::DarkGray)));
    if logs.at_tail {
        spans.push(span(String::from_str("on"), fg(Color::Green)));
    } else {
        spans.push(span(String::from_str("off"), fg(Color::Yellow)));
    }
    spans.push(span(String::from_str(" · stream: "), fg(Color::DarkGray)));
    match &logs.stream_ended {
        None => {
            spans.push(span(String::from_str("live"), fg(Color::Green)));
        },
        Some(reason) => {
            let text: String = if reason.as_str().is_empty() {
                String::from_str("ended")
            } else {
                String::from_str("ended: ").concat(reason.as_str())
            };
            spans.push(span(text, fg(Color::Red)));
        },
    }
    let r = line(spans);
    assert(r@ =~~= logs_status(logs@));
    r
}

/// The logs view in the rows `chunks`.
pub open spec fn logs_scene(m: DockerModel, logs: LogsModel, chunks: Seq<Rect>) -> Seq<DrawView> {
    seq![
        DrawView::Text {
            area: chunks[0],
            lines: seq![logs_status(logs)],
            centered: false,
            wrap: false,
        },
    ] + transcript(logs, chunks[1]) + seq![
        spec_bar(chunks[2], help_text(m), fg(Color::DarkGray)),
    ]
}

/// Draws the logs view into the rows `chunks`.
pub fn render_logs_view(scope: &DockerScope, logs: &LogsView, chunks: &Vec<Rect>) -> (draws: Vec<
    Draw,
>)
    requires
        logs@.wf(),
        chunks@.len() == 3,
    ensures
        draw_views(draws@) == logs_scene(scope@, logs@, chunks@),
{
    let mut draws: Vec<Draw> = Vec::new();
    let mut lines: Vec<Line> = Vec::new();
    lines.push(logs_status_line(logs));
    assert(line_views(lines@) =~= seq![logs_status(logs@)]);
    draws.push(Draw::Text { area: chunks[0], lines, centered: false, wrap: false });
    let mut body = render_transcript(logs, chunks[1]);
    draws.append(&mut body);
    draws.push(help_bar(scope, chunks[2]));
    assert(draw_views(draws@) =~= logs_scene(scope@, logs@, chunks@));
    draws
}

/// The title of the Docker tile.
pub open spec fn docker_title(m: DockerModel) -> Seq<char> {
    match m.view {
        DockerViewModel::List => "docker · "@ + spec_target_suffix(m.target),
        DockerViewModel::Logs(logs) => "docker · logs · "@ + logs.container_name + " · "@
            + spec_target_suffix(m.target),
    }
}

/// The Docker tile, with its inside cut into the rows `chunks`.
pub open spec fn docker_scene(
    m: DockerModel,
    area: Rect,
    focused: bool,
    hovered: bool,
    chunks: Seq<Rect>,
) -> Seq<DrawView> {
    seq![spec_tile_frame(area, docker_title(m), focused, hovered)] + match m.view {
        DockerViewModel::List => list_scene(m, spec_inner(area), chunks),
        DockerViewModel::Logs(logs) => logs_scene(m, logs, chunks),
    }
}

/// Rows of the tile's inside.
pub open spec fn docker_extents(m: DockerModel) -> Seq<Extent> {
    spec_list_extents(m.view is List && has_filter_bar(m))
}

/// Draws the Docker tile.
pub fn render(scope: &DockerScope, area: Rect, focused: bool, hovered: bool) -> (draws: Vec<Draw>)
    requires
        area.edges_fit(),
        scope@.wf(),
    ensures
        exists|chunks: Seq<Rect>| #[trigger]
            cuts_rows(spec_inner(area), docker_extents(scope@), chunks) && draw_views(draws@)
                == docker_scene(scope@, area, focused, hovered, chunks),
{
    let suffix = target_suffix_for(&scope.target);
    let title: String = match &scope.view {
        DockerView::List => String::from_str("docker · ").concat(suffix.as_str()),
        DockerView::Logs(logs) => String::from_str("docker · logs · ").concat(
            logs.container_name.as_str(),
        ).concat(" · ").concat(suffix.as_str()),
    };
    let inside = inner(area);
    let mut draws: Vec<Draw> = Vec::new();
    draws.push(tile_frame(area, title, focused, hovered));
    let filtering: bool = scope.filter_active || !scope.filter.as_str().is_empty();
    match &scope.view {
        DockerView::List => {
            let chunks = split_rows(inside, &list_extents(filtering));
            let mut list = render_list_view(scope, inside, &chunks);
            draws.append(&mut list);
            proof {
                assert(cuts_rows(spec_inner(area), docker_extents(scope@), chunks@));
                assert(draw_views(draws@) =~= docker_scene(
                    scope@,
                    area,
                    focused,
                    hovered,
                    chunks@,
                ));
            }
        },
        DockerView::Logs(logs) => {
            let chunks = split_rows(inside, &list_extents(false));
            let mut view = render_logs_view(scope, logs, &chunks);
            draws.append(&mut view);
            proof {
                assert(cuts_rows(spec_inner(area), docker_extents(scope@), chunks@));
                assert(draw_views(draws@) =~= docker_scene(
                    scope@,
                    area,
                    focused,
                    hovered,
                    chunks@,
                ));
            }
        },
    }
    draws
}

} // verus!
