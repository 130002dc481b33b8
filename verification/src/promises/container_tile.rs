//! The Docker tile on the screen.

use vstd::prelude::*;

use crate::docker::{ConfirmModel, DockerModel, DockerViewModel};
use crate::geometry::Rect;
use crate::list::visible;
use crate::logs::LogsModel;
use crate::proto::{DockerActionKind, DockerPort, LogStream, ScopeTarget};
use crate::scene::{Color, Extent};
use crate::scene::docker::{
    before_first, confirm_area, docker_extents, docker_scene, port_text, spec_format_ports,
    spec_state_color, transcript, transcript_window,
};
use crate::text::{decimal, joined};

verus! {

/// The rows of the tile's inside: a status bar, a filter bar where there is a
/// filter, the body and a help bar.
pub proof fn the_docker_tile_is_cut_into_bars(m: DockerModel)
    ensures
        m.view is List && (m.cursor.filter_active || m.cursor.filter.len() > 0) ==> docker_extents(
            m,
        ) == seq![Extent::Length(1), Extent::Length(1), Extent::Min(1), Extent::Length(1)],
        m.view is Logs || (!m.cursor.filter_active && m.cursor.filter.len() == 0)
            ==> docker_extents(m) == seq![Extent::Length(1), Extent::Min(1), Extent::Length(1)],
{
}

/// The tile's border says what is shown: the machine whose engine it is, and
/// the container whose log it is. A focused tile is bright, one under the
/// pointer is lit dimly.
pub proof fn the_docker_border_says_what_is_shown(
    m: DockerModel,
    alias: String,
    area: Rect,
    focused: bool,
    hovered: bool,
    chunks: Seq<Rect>,
)
    ensures
        ({
            let scene = docker_scene(m, area, focused, hovered, chunks);
            &&& scene.len() > 0
            &&& scene[0] is Frame
            &&& scene[0]->Frame_area == area
            &&& m.view is List && m.target == ScopeTarget::Local ==> scene[0]->Frame_title
                == "docker · "@ + "local"@
            &&& m.view is List && m.target == (ScopeTarget::Remote { alias })
                ==> scene[0]->Frame_title == "docker · "@ + alias@
            &&& m.view is Logs && m.target == ScopeTarget::Local ==> scene[0]->Frame_title
                == "docker · logs · "@ + m.view->Logs_0.container_name + " · "@ + "local"@
            &&& m.view is Logs && m.target == (ScopeTarget::Remote { alias })
                ==> scene[0]->Frame_title == "docker · logs · "@ + m.view->Logs_0.container_name
                + " · "@ + alias@
            &&& scene[0]->Frame_border_style.fg == Some(
                if focused || hovered {
                    Color::Cyan
                } else {
                    Color::DarkGray
                },
            )
            &&& scene[0]->Frame_border_style.modifier.dim == !focused
            &&& scene[0]->Frame_border_style.bg is None
            &&& scene[0]->Frame_title_style.modifier.bold
            &&& scene[0]->Frame_title_style.fg == scene[0]->Frame_border_style.fg
        }),
{
}

/// Each container that the filter lets through has a row, in the order of the
/// list, with its name, image, state and status; the row of the cursor, and no
/// other, is marked.
pub proof fn containers_have_their_rows(
    m: DockerModel,
    area: Rect,
    focused: bool,
    hovered: bool,
    chunks: Seq<Rect>,
    i: int,
)
    requires
        m.view is List,
        m.state is Available,
        visible(m.state->containers@, m.cursor.filter).len() > 0,
        0 <= i < visible(m.state->containers@, m.cursor.filter).len(),
    ensures
        ({
            let shown = visible(m.state->containers@, m.cursor.filter);
            let filtering = m.cursor.filter_active || m.cursor.filter.len() > 0;
            let at = if filtering {
                3int
            } else {
                2int
            };
            let c = shown[i];
            let scene = docker_scene(m, area, focused, hovered, chunks);
            let table = scene[at];
            let row = table->Table_rows[i];
            &&& scene.len() > at
            &&& table is Table
            &&& table->Table_area == chunks[at - 1]
            &&& table->Table_rows.len() == shown.len()
            &&& row.cells.len() == 6
            &&& i == m.cursor.selection ==> row.cells[0].text == "▶ "@ && row.style.modifier.bold
                && row.style.bg == Some(Color::Rgb(40, 40, 60))
            &&& i != m.cursor.selection ==> row.cells[0].text == "  "@ && !row.style.modifier.bold
                && row.style.bg is None
            &&& c.names@.len() > 0 ==> row.cells[1].text == c.names@[0]@
            &&& c.names@.len() == 0 ==> row.cells[1].text == ""@
            &&& row.cells[2].text == c.image@
            &&& row.cells[3].text == c.state@
            &&& row.cells[3].style == spec_state_color(c.state@)
            &&& row.cells[4].text == c.status@
            &&& row.cells[5].text == spec_format_ports(c.ports@)
            &&& table->Table_header is Some
            &&& table->Table_header->0.cells.len() == 6
            &&& table->Table_header->0.cells[1].text == "NAME"@
            &&& table->Table_header->0.cells[2].text == "IMAGE"@
            &&& table->Table_header->0.cells[3].text == "STATE"@
            &&& table->Table_header->0.cells[4].text == "STATUS"@
            &&& table->Table_header->0.cells[5].text == "PORTS"@
            &&& table->Table_widths == seq![
                Extent::Length(2),
                Extent::Length(20),
                Extent::Length(20),
                Extent::Length(10),
                Extent::Length(16),
                Extent::Min(10),
            ]
        }),
{
}

/// The bars around the list: how many containers are shown of how many, under
/// which filter, from which engine; what is being typed into the filter; and
/// which keys there are.
pub proof fn the_bars_of_the_container_list(
    m: DockerModel,
    area: Rect,
    focused: bool,
    hovered: bool,
    chunks: Seq<Rect>,
)
    requires
        m.view is List,
        m.state is Available,
    ensures
        ({
            let shown = visible(m.state->containers@, m.cursor.filter);
            let all = m.state->containers@.len();
            let filtering = m.cursor.filter_active || m.cursor.filter.len() > 0;
            let scene = docker_scene(m, area, focused, hovered, chunks);
            let help = if filtering {
                scene[4]
            } else {
                scene[3]
            };
            &&& scene[1] is Text
            &&& scene[1]->Text_area == chunks[0]
            &&& scene[1]->Text_lines.len() == 1
            &&& scene[1]->Text_lines[0].spans.len() == 1
            &&& scene[1]->Text_lines[0].spans[0].style.fg == Some(Color::Green)
            &&& m.cursor.filter.len() == 0 ==> scene[1]->Text_lines[0].spans[0].text == decimal(
                shown.len(),
            ) + "/"@ + decimal(all) + " container(s)"@ + ""@ + " · "@ + m.state->engine_source@
            &&& m.cursor.filter.len() > 0 ==> scene[1]->Text_lines[0].spans[0].text == decimal(
                shown.len(),
            ) + "/"@ + decimal(all) + " container(s)"@ + (" (filter \""@ + m.cursor.filter + "\")"@)
                + " · "@ + m.state->engine_source@
            &&& filtering ==> {
                &&& scene[2] is Text
                &&& scene[2]->Text_area == chunks[1]
                &&& scene[2]->Text_lines.len() == 1
                &&& scene[2]->Text_lines[0].spans[0].text == "filter: "@
                &&& scene[2]->Text_lines[0].spans[1].text == m.cursor.filter
                &&& m.cursor.filter_active ==> scene[2]->Text_lines[0].spans.len() == 3
                    && scene[2]->Text_lines[0].spans[2].text == "_"@
                &&& !m.cursor.filter_active ==> scene[2]->Text_lines[0].spans.len() == 2
            }
            &&& help is Text
            &&& help->Text_lines.len() == 1
            &&& help->Text_lines[0].spans.len() == 1
            &&& m.confirm is Some ==> help->Text_lines[0].spans[0].text
                == "[y] confirm · any other key cancels"@
            &&& m.confirm is None && m.cursor.filter_active ==> help->Text_lines[0].spans[0].text
                == "[Enter] apply · [Esc] clear · [Backspace] delete"@
            &&& m.confirm is None && !m.cursor.filter_active ==> help->Text_lines[0].spans[0].text
                == "[j/k] nav · [/] filter · [l] logs · [r] restart · [s] stop · [K] kill · [X] remove"@
        }),
{
}

/// Where there is nothing to list, the body says why.
pub proof fn an_empty_container_list_says_why(
    m: DockerModel,
    area: Rect,
    focused: bool,
    hovered: bool,
    chunks: Seq<Rect>,
)
    requires
        m.view is List,
        m.state is Available ==> visible(m.state->containers@, m.cursor.filter).len() == 0,
    ensures
        ({
            let filtering = m.cursor.filter_active || m.cursor.filter.len() > 0;
            let scene = docker_scene(m, area, focused, hovered, chunks);
            let body = if filtering {
                scene[3]
            } else {
                scene[2]
            };
            let status = scene[1]->Text_lines[0].spans[0];
            &&& body is Text
            &&& body->Text_lines.len() >= 2
            &&& body->Text_lines[1].spans.len() == 1
            &&& m.state is Idle ==> body->Text_lines[1].spans[0].text == "idle"@ && status.text
                == "idle"@
            &&& m.state is Connecting ==> body->Text_lines[1].spans[0].text
                == "Connecting to docker engine…"@ && status.text == "connecting…"@
                && status.style.fg == Some(Color::Yellow)
            &&& m.state is Available && m.cursor.filter.len() == 0
                ==> body->Text_lines[1].spans[0].text == "No containers"@
            &&& m.state is Available && m.cursor.filter.len() > 0
                ==> body->Text_lines[1].spans[0].text == "No containers match filter"@
            &&& m.state is Unavailable ==> {
                &&& body->Text_lines.len() == 6
                &&& body->Text_lines[1].spans[0].text == "Docker engine unavailable"@
                &&& body->Text_lines[1].spans[0].style.fg == Some(Color::Red)
                &&& body->Text_lines[3].spans[0].text == m.state->reason@
                &&& body->Text_wrap
                &&& status.text == "unavailable"@
                &&& status.style.fg == Some(Color::Red)
            }
        }),
{
}

/// States have their colours.
pub proof fn states_have_their_colours(state: Seq<char>)
    ensures
        spec_state_color("running"@).fg == Some(Color::Green),
        spec_state_color("exited"@).fg == Some(Color::Red),
        spec_state_color("dead"@).fg == Some(Color::Red),
        spec_state_color("paused"@).fg == Some(Color::Yellow),
        spec_state_color("restarting"@).fg == Some(Color::Yellow),
        spec_state_color("created"@).fg == Some(Color::Blue),
        spec_state_color("removing"@).fg == Some(Color::Blue),
        state != "running"@ && state != "exited"@ && state != "dead"@ && state != "paused"@ && state
            != "restarting"@ && state != "created"@ && state != "removing"@ ==> spec_state_color(
            state,
        ).fg == Some(Color::DarkGray),
        spec_state_color(state).bg is None,
{
    reveal_strlit("running");
    reveal_strlit("exited");
    reveal_strlit("dead");
    reveal_strlit("paused");
    reveal_strlit("restarting");
    reveal_strlit("created");
    reveal_strlit("removing");
    assert("running"@.len() == 7 && "exited"@.len() == 6 && "dead"@.len() == 4 && "paused"@.len()
        == 6 && "restarting"@.len() == 10 && "created"@.len() == 7 && "removing"@.len() == 8);
    assert("exited"@[0] == 'e' && "paused"@[0] == 'p' && "running"@[0] == 'r' && "created"@[0]
        == 'c');
}

/// A published port is written with the address up to its first colon, both
/// ports and the protocol; one that is not, with its port and protocol.
pub proof fn ports_are_written_out(p: DockerPort, head: Seq<char>, tail: Seq<char>)
    requires
        p.ip@ == head + tail,
        !head.contains(':'),
        tail.len() == 0 || tail[0] == ':',
    ensures
        p.public_port != 0 ==> port_text(p) == head + ":"@ + decimal(p.public_port as nat) + "→"@
            + decimal(p.private_port as nat) + "/"@ + p.protocol@,
        p.public_port == 0 ==> port_text(p) == decimal(p.private_port as nat) + "/"@ + p.protocol@,
{
    let s = p.ip@;
    s.index_of_first_ensures(':');
    if tail.len() > 0 {
        assert(s[head.len() as int] == ':');
        assert(s.contains(':'));
        let k = s.index_of_first(':')->0;
        if k < head.len() {
            assert(head[k] == s[k]);
        }
        assert(k == head.len());
        assert(s.take(k) =~= head);
    } else {
        assert(s =~= head);
        assert(!s.contains(':'));
    }
    assert(before_first(s, ':') == head);
}

/// Up to three ports are listed, separated by commas, and then how many more
/// there are.
pub proof fn at_most_three_ports_are_listed(ports: Seq<DockerPort>)
    ensures
        ports.len() == 0 ==> spec_format_ports(ports).len() == 0,
        ports.len() == 1 ==> spec_format_ports(ports) == port_text(ports[0]),
        ports.len() == 2 ==> spec_format_ports(ports) == port_text(ports[0]) + ", "@ + port_text(
            ports[1],
        ),
        ports.len() == 3 ==> spec_format_ports(ports) == port_text(ports[0]) + ", "@ + port_text(
            ports[1],
        ) + ", "@ + port_text(ports[2]),
        ports.len() > 3 ==> spec_format_ports(ports) == port_text(ports[0]) + ", "@ + port_text(
            ports[1],
        ) + ", "@ + port_text(ports[2]) + ", "@ + ("+"@ + decimal((ports.len() - 3) as nat)),
{
    let shown = if ports.len() > 3 {
        ports.take(3)
    } else {
        ports
    };
    let bits = shown.map_values(|p: DockerPort| port_text(p));
    let more = "+"@ + decimal((ports.len() - 3) as nat);
    reveal_with_fuel(joined, 5);
    if ports.len() == 2 {
        assert(bits.drop_last() =~= seq![port_text(ports[0])]);
    } else if ports.len() == 3 {
        assert(bits.drop_last() =~= seq![port_text(ports[0]), port_text(ports[1])]);
        assert(bits.drop_last().drop_last() =~= seq![port_text(ports[0])]);
    } else if ports.len() > 3 {
        let all = bits.push(more);
        assert(all.drop_last() =~= bits);
        assert(bits.drop_last() =~= seq![port_text(ports[0]), port_text(ports[1])]);
        assert(bits.drop_last().drop_last() =~= seq![port_text(ports[0])]);
    }
}

/// The prompt names the operation and the container, on top of the list, in
/// the middle of the tile.
pub proof fn the_prompt_names_what_it_asks_for(
    m: DockerModel,
    confirm: ConfirmModel,
    area: Rect,
    focused: bool,
    hovered: bool,
    chunks: Seq<Rect>,
)
    requires
        m.view is List,
        m.confirm == Some(confirm),
        area.width >= 3,
        area.height >= 3,
        area.x + area.width <= 65_535,
        area.y + area.height <= 65_535,
    ensures
        ({
            let scene = docker_scene(m, area, focused, hovered, chunks);
            let n = scene.len() as int;
            let verb = match confirm.kind {
                DockerActionKind::Start => "Start"@,
                DockerActionKind::Stop => "Stop"@,
                DockerActionKind::Restart => "Restart"@,
                DockerActionKind::Kill => "Kill"@,
                DockerActionKind::Remove => "Remove"@,
            };
            &&& n >= 7
            &&& scene[n - 3] is Clear
            &&& scene[n - 2] is Frame
            &&& scene[n - 2]->Frame_title == " confirm "@
            &&& scene[n - 2]->Frame_area == scene[n - 3]->Clear_area
            &&& scene[n - 1] is Text
            &&& scene[n - 1]->Text_lines.len() == 3
            &&& scene[n - 1]->Text_lines[1].spans[0].text == verb + " container "@
                + confirm.container_name + "?"@
            &&& scene[n - 1]->Text_lines[2].spans[0].text == "[y] confirm · any other key cancels"@
        }),
{
}

/// The place of the prompt: five rows and fifty columns, or what a smaller
/// tile leaves, in the middle.
pub proof fn the_prompt_stands_in_the_middle(tile: Rect)
    requires
        tile.width > 0,
        tile.height > 0,
        tile.x + tile.width <= 65_535,
        tile.y + tile.height <= 65_535,
    ensures
        ({
            let at = confirm_area(tile)->0;
            &&& confirm_area(tile) is Some
            &&& tile.height >= 5 ==> at.height == 5
            &&& tile.height < 5 ==> at.height == tile.height
            &&& tile.width >= 54 ==> at.width == 50
            &&& 24 <= tile.width < 54 ==> at.width == tile.width - 4
            &&& 20 <= tile.width < 24 ==> at.width == 20
            &&& tile.width < 20 ==> at.width == tile.width
            &&& at.x == tile.x + (tile.width - at.width) / 2
            &&& at.y == tile.y + (tile.height - at.height) / 2
        }),
{
}

/// The window of a transcript: its last line is as many lines before the end
/// as was scrolled, and above it stand the lines before it, as many as there
/// are rows and lines.
pub proof fn the_window_shows_the_lines_above_the_offset(logs: LogsModel, height: nat, k: int)
    requires
        logs.wf(),
        logs.stream_ended is None,
        height > 0,
    ensures
        ({
            let window = transcript_window(logs, height);
            let end = logs.lines.len() - logs.scroll_offset;
            &&& window.len() == if end < height {
                end
            } else {
                height as int
            }
            &&& 0 <= k < window.len() ==> {
                let l = logs.lines[end - window.len() + k];
                &&& window[k].spans.len() == 2
                &&& window[k].spans[1].text == l.text
                &&& l.stream == LogStream::Stderr ==> window[k].spans[0].text == "! "@
                    && window[k].spans[1].style.fg == Some(Color::Yellow)
                &&& l.stream == LogStream::Stdout ==> window[k].spans[0].text == "  "@
                    && window[k].spans[1].style.fg == Some(Color::Gray)
            }
        }),
{
}

/// A stream that ended has one line more, behind all others, that says why.
pub proof fn an_ended_stream_has_a_last_line(logs: LogsModel, height: nat, k: int)
    requires
        logs.wf(),
        logs.stream_ended is Some,
        height > 0,
    ensures
        ({
            let window = transcript_window(logs, height);
            let end = logs.lines.len() + 1 - logs.scroll_offset;
            let at = end - window.len() + k;
            &&& window.len() == if end < height {
                end
            } else {
                height as int
            }
            &&& 0 <= k < window.len() && at < logs.lines.len() ==> window[k].spans.len() == 2
                && window[k].spans[1].text == logs.lines[at].text
            &&& 0 <= k < window.len() && at == logs.lines.len() ==> window[k].spans.len() == 1
                && window[k].spans[0].text == "— log stream ended: "@ + logs.stream_ended->0
                + " —"@
        }),
{
}

/// The logs view: a status bar with the number of lines, whether they are
/// followed and whether the stream is live; the transcript; and the keys.
pub proof fn the_logs_view_on_the_screen(
    m: DockerModel,
    logs: LogsModel,
    area: Rect,
    focused: bool,
    hovered: bool,
    chunks: Seq<Rect>,
)
    requires
        m.view == DockerViewModel::Logs(logs),
        chunks.len() == 3,
        chunks[1].height > 0,
    ensures
        ({
            let scene = docker_scene(m, area, focused, hovered, chunks);
            let status = scene[1]->Text_lines[0].spans;
            &&& scene.len() == 4
            &&& scene[1] is Text && scene[1]->Text_area == chunks[0]
            &&& status.len() == 5
            &&& status[0].text == decimal(logs.lines.len()) + " lines"@
            &&& status[1].text == " · tail: "@
            &&& logs.at_tail ==> status[2].text == "on"@ && status[2].style.fg == Some(Color::Green)
            &&& !logs.at_tail ==> status[2].text == "off"@ && status[2].style.fg == Some(
                Color::Yellow,
            )
            &&& status[3].text == " · stream: "@
            &&& logs.stream_ended is None ==> status[4].text == "live"@
            &&& logs.stream_ended is Some && logs.stream_ended->0.len() == 0 ==> status[4].text
                == "ended"@
            &&& logs.stream_ended is Some && logs.stream_ended->0.len() > 0 ==> status[4].text
                == "ended: "@ + logs.stream_ended->0
            &&& scene[2] is Text
            &&& scene[2]->Text_area == chunks[1]
            &&& scene[2]->Text_lines == transcript_window(logs, chunks[1].height as nat)
            &&& scene[3] is Text
            &&& scene[3]->Text_area == chunks[2]
            &&& scene[3]->Text_lines[0].spans[0].text
                == "[j/k] scroll · [PgUp/PgDn] page · [G] tail · [Esc/q] back"@
        }),
{
    assert(transcript(logs, chunks[1]).len() == 1);
}

} // verus!
