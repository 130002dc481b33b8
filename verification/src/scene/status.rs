//! The daemon status view: a header, the last snapshot and a footer.

use vstd::prelude::*;

use crate::geometry::Rect;
use crate::proto::StatusSnapshot;
use crate::scene::format::{align_left, format_uptime, pad_right, spec_format_uptime};
use crate::scene::{
    blank_line, cuts_rows, draw_views, fg, group_scene, inner, line, line_views, no_spans, one_span,
    plain, span, spec_inner, spec_span, split_rows, styled_line, Color, Draw, DrawView,
    Extent, Line, LineView, Span, Style,
};
use crate::status::ConnectionState;
use crate::text::{decimal, decimal_string};

verus! {

broadcast use group_scene;

/// Style of the program's name and of the footer's keys.
#[verifier::allow_in_spec]
pub fn badge(background: Color) -> Style
    returns
        (Style { bg: Some(background), ..fg(Color::Black) }),
{
    Style { bg: Some(background), ..fg(Color::Black) }
}

/// A line of its own in an area.
pub open spec fn spec_one_line(area: Rect, l: LineView) -> DrawView {
    DrawView::Text { area, lines: seq![l], centered: false, wrap: false }
}

fn one_line(area: Rect, l: Line) -> (d: Draw)
    ensures
        d@ == spec_one_line(area, l@),
{
    let mut lines: Vec<Line> = Vec::new();
    lines.push(l);
    assert(line_views(lines@) =~= seq![l@]);
    Draw::Text { area, lines, centered: false, wrap: false }
}

/// The header: the program's name and version, and whether the daemon is
/// reachable. Without a connection the reason takes the version's place.
pub open spec fn header_line(connection: ConnectionState, version: Seq<char>) -> LineView {
    let name = spec_span(" Tepegöz "@, badge(Color::Cyan).bold());
    let gap = spec_span("  "@, plain());
    let number = spec_span("v"@ + version, fg(Color::DarkGray));
    LineView {
        spans: match connection {
            ConnectionState::Connecting => seq![
                name,
                gap,
                number,
                gap,
                spec_span("● connecting"@, fg(Color::Yellow)),
            ],
            ConnectionState::Connected => seq![
                name,
                gap,
                number,
                gap,
                spec_span("● connected"@, fg(Color::Green)),
            ],
            ConnectionState::Disconnected(reason) => seq![
                name,
                gap,
                spec_span("● disconnected — "@ + reason@, fg(Color::Red)),
            ],
        },
        centered: false,
    }
}

/// The header.
pub fn header(connection: &ConnectionState, version: &str) -> (l: Line)
    ensures
        l@ == header_line(*connection, version@),
{
    let mut spans: Vec<Span> = Vec::new();
    spans.push(span(String::from_str(" Tepegöz "), badge(Color::Cyan).bold()));
    spans.push(span(String::from_str("  "), plain()));
    if let ConnectionState::Disconnected(reason) = connection {
        spans.push(
            span(
                String::from_str("● disconnected — ").concat(reason.as_str()),
                fg(Color::Red),
            ),
        );
    } else {
        let (indicator, color) = match connection {
            ConnectionState::Connecting => ("● connecting", Color::Yellow),
            _ => ("● connected", Color::Green),
        };
        spans.push(span(String::from_str("v").concat(version), fg(Color::DarkGray)));
        spans.push(span(String::from_str("  "), plain()));
        spans.push(span(indicator.to_owned(), fg(color)));
    }
    let l = line(spans);
    assert(l@ =~~= header_line(*connection, version@));
    l
}

/// A labelled value.
pub open spec fn status_row(label: Seq<char>, value: Seq<char>) -> LineView {
    LineView {
        spans: seq![
            spec_span("  "@, plain()),
            spec_span(pad_right(label, 16), fg(Color::DarkGray)),
            spec_span(value, fg(Color::White)),
        ],
        centered: false,
    }
}

/// A labelled value.
pub fn row(label: &str, value: String) -> (l: Line)
    ensures
        l@ == status_row(label@, value@),
{
    let mut spans: Vec<Span> = Vec::new();
    spans.push(span(String::from_str("  "), plain()));
    spans.push(span(align_left(label, 16), fg(Color::DarkGray)));
    spans.push(span(value, fg(Color::White)));
    let l = line(spans);
    assert(l@ =~~= status_row(label@, value@));
    l
}

/// What the body says.
pub open spec fn body_lines(snapshot: Option<StatusSnapshot>) -> Seq<LineView> {
    match snapshot {
        Some(s) => seq![
            no_spans(),
            status_row("daemon pid"@, decimal(s.daemon_pid as nat)),
            status_row("daemon version"@, s.daemon_version@),
            status_row("socket"@, s.socket_path@),
            no_spans(),
            status_row("uptime"@, spec_format_uptime(s.uptime_seconds)),
            no_spans(),
            status_row("clients now"@, decimal(s.clients_now as nat)),
            status_row("clients total"@, decimal(s.clients_total as nat)),
            status_row("events sent"@, decimal(s.events_sent as nat)),
        ],
        None => seq![
            no_spans(),
            one_span("  waiting for first snapshot..."@, plain(), false),
        ],
    }
}

/// The body: a border, and the last snapshot in it.
pub open spec fn body_scene(snapshot: Option<StatusSnapshot>, area: Rect) -> Seq<DrawView> {
    seq![
        DrawView::Frame {
            area,
            title: " daemon status "@,
            title_style: plain(),
            border_style: plain(),
        },
        DrawView::Text {
            area: spec_inner(area),
            lines: body_lines(snapshot),
            centered: false,
            wrap: false,
        },
    ]
}

/// Draws the body.
pub fn body(snapshot: &Option<StatusSnapshot>, area: Rect) -> (draws: Vec<Draw>)
    requires
        area.edges_fit(),
    ensures
        draw_views(draws@) == body_scene(*snapshot, area),
{
    let mut lines: Vec<Line> = Vec::new();
    lines.push(blank_line());
    match snapshot {
        Some(s) => {
            lines.push(row("daemon pid", decimal_string(s.daemon_pid as u64)));
            lines.push(row("daemon version", s.daemon_version.clone()));
            lines.push(row("socket", s.socket_path.clone()));
            lines.push(blank_line());
            lines.push(row("uptime", format_uptime(s.uptime_seconds)));
            lines.push(blank_line());
            lines.push(row("clients now", decimal_string(s.clients_now as u64)));
            lines.push(row("clients total", decimal_string(s.clients_total)));
            lines.push(row("events sent", decimal_string(s.events_sent)));
        },
        None => {
            lines.push(
                styled_line(String::from_str("  waiting for first snapshot..."), plain(), false),
            );
        },
    }
    assert(line_views(lines@) =~= body_lines(*snapshot));
    let mut draws: Vec<Draw> = Vec::new();
    draws.push(
        Draw::Frame {
            area,
            title: String::from_str(" daemon status "),
            title_style: plain(),
            border_style: plain(),
        },
    );
    draws.push(Draw::Text { area: inner(area), lines, centered: false, wrap: false });
    assert(draw_views(draws@) =~= body_scene(*snapshot, area));
    draws
}

/// The footer: the keys that quit.
pub open spec fn footer_line() -> LineView {
    LineView {
        spans: seq![
            spec_span(" q "@, badge(Color::Gray)),
            spec_span(" quit  "@, plain()),
            spec_span(" Esc "@, badge(Color::Gray)),
            spec_span(" quit"@, plain()),
        ],
        centered: false,
    }
}

/// The footer.
pub fn footer() -> (l: Line)
    ensures
        l@ == footer_line(),
{
    let mut spans: Vec<Span> = Vec::new();
    spans.push(span(String::from_str(" q "), badge(Color::Gray)));
    spans.push(span(String::from_str(" quit  "), plain()));
    spans.push(span(String::from_str(" Esc "), badge(Color::Gray)));
    spans.push(span(String::from_str(" quit"), plain()));
    let l = line(spans);
    assert(l@ =~~= footer_line());
    l
}

/// Rows of the view.
pub open spec fn status_extents() -> Seq<Extent> {
    seq![Extent::Length(1), Extent::Min(0), Extent::Length(1)]
}

/// The view, with the screen cut into the rows `chunks`.
pub open spec fn status_scene(
    connection: ConnectionState,
    version: Seq<char>,
    snapshot: Option<StatusSnapshot>,
    chunks: Seq<Rect>,
) -> Seq<DrawView> {
    seq![spec_one_line(chunks[0], header_line(connection, version))] + body_scene(
        snapshot,
        chunks[1],
    ) + seq![spec_one_line(chunks[2], footer_line())]
}

/// Draws the daemon status view.
pub fn render(
    connection: &ConnectionState,
    version: &str,
    snapshot: &Option<StatusSnapshot>,
    area: Rect,
) -> (draws: Vec<Draw>)
    requires
        area.edges_fit(),
    ensures
        exists|chunks: Seq<Rect>| #[trigger]
            cuts_rows(area, status_extents(), chunks) && draw_views(draws@) == status_scene(
                *connection,
                version@,
                *snapshot,
                chunks,
            ),
{
    let mut extents: Vec<Extent> = Vec::new();
    extents.push(Extent::Length(1));
    extents.push(Extent::Min(0));
    extents.push(Extent::Length(1));
    assert(extents@ =~= status_extents());
    let chunks = split_rows(area, &extents);
    let mut draws: Vec<Draw> = Vec::new();
    draws.push(one_line(chunks[0], header(connection, version)));
    let mut middle = body(snapshot, chunks[1]);
    draws.append(&mut middle);
    draws.push(one_line(chunks[2], footer()));
    proof {
        assert(cuts_rows(area, status_extents(), chunks@));
        assert(draw_views(draws@) =~= status_scene(*connection, version@, *snapshot, chunks@));
    }
    draws
}

} // verus!
