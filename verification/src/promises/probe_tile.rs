//! The Ports tile on the screen.

use vstd::prelude::*;

use crate::geometry::Rect;
use crate::list::visible;
use crate::ports::{PortsActiveView, PortsScopeModel};
use crate::scene::{Color, Extent};
use crate::scene::format::{pad_left, spec_first_chars, spec_format_bytes, spec_truncate};
use crate::scene::ports::{ports_extents, ports_scene};
use crate::text::{decimal, text_lines};

verus! {

/// The border says which of the two views is shown.
pub proof fn the_ports_border_says_what_is_shown(
    m: PortsScopeModel,
    area: Rect,
    focused: bool,
    hovered: bool,
    chunks: Seq<Rect>,
)
    ensures
        ({
            let scene = ports_scene(m, area, focused, hovered, chunks);
            &&& scene.len() > 0
            &&& scene[0] is Frame
            &&& scene[0]->Frame_area == area
            &&& m.active == PortsActiveView::Ports ==> scene[0]->Frame_title == "ports"@
            &&& m.active == PortsActiveView::Processes ==> scene[0]->Frame_title == "processes"@
            &&& scene[0]->Frame_border_style.fg == Some(
                if focused || hovered {
                    Color::Cyan
                } else {
                    Color::DarkGray
                },
            )
            &&& scene[0]->Frame_border_style.modifier.dim == !focused
        }),
{
}

/// The rows of the tile's inside go by the filter of the view that is shown.
pub proof fn the_ports_tile_is_cut_into_bars(m: PortsScopeModel)
    ensures
        ({
            let filtering = if m.active == PortsActiveView::Ports {
                m.ports.cursor.filter_active || m.ports.cursor.filter.len() > 0
            } else {
                m.processes.cursor.filter_active || m.processes.cursor.filter.len() > 0
            };
            &&& filtering ==> ports_extents(m) == seq![
                Extent::Length(1),
                Extent::Length(1),
                Extent::Min(1),
                Extent::Length(1),
            ]
            &&& !filtering ==> ports_extents(m) == seq![
                Extent::Length(1),
                Extent::Min(1),
                Extent::Length(1),
            ]
        }),
{
}

/// Each port that the filter lets through has a row, in the order of the list,
/// with its protocol, address and port, process and container; the row of the
/// cursor is marked and reversed, and what the probe saw only in part has a
/// question mark.
pub proof fn ports_have_their_rows(
    m: PortsScopeModel,
    area: Rect,
    focused: bool,
    hovered: bool,
    chunks: Seq<Rect>,
    i: int,
)
    requires
        m.active == PortsActiveView::Ports,
        m.ports.state is Available,
        0 <= i < visible(m.ports.state->rows@, m.ports.cursor.filter).len(),
    ensures
        ({
            let shown = visible(m.ports.state->rows@, m.ports.cursor.filter);
            let filtering = m.ports.cursor.filter_active || m.ports.cursor.filter.len() > 0;
            let at = if filtering {
                3int
            } else {
                2int
            };
            let p = shown[i];
            let scene = ports_scene(m, area, focused, hovered, chunks);
            let table = scene[at];
            let cells = table->Table_rows[i].cells;
            let selected = i == m.ports.cursor.selection;
            &&& scene.len() == at + 2
            &&& table is Table
            &&& table->Table_area == chunks[at - 1]
            &&& table->Table_rows.len() == shown.len()
            &&& cells.len() == 5
            &&& selected && p.partial ==> cells[0].text == "▶ "@ + "?"@ + " "@ + p.protocol@
            &&& selected && !p.partial ==> cells[0].text == "▶ "@ + " "@ + " "@ + p.protocol@
            &&& !selected && p.partial ==> cells[0].text == "  "@ + "?"@ + " "@ + p.protocol@
            &&& !selected && !p.partial ==> cells[0].text == "  "@ + " "@ + " "@ + p.protocol@
            &&& cells[1].text == spec_truncate(p.local_ip@, 15) + ":"@ + decimal(
                p.local_port as nat,
            )
            &&& cells[2].text == decimal(p.pid as nat)
            &&& cells[3].text == spec_truncate(p.process_name@, 24)
            &&& p.container_id is Some ==> cells[4].text == spec_first_chars(
                p.container_id->0@,
                12,
            )
            &&& p.container_id is None ==> cells[4].text.len() == 0
            &&& cells[4].style.fg == Some(Color::Cyan)
            &&& forall|k: int|
                0 <= k < 5 ==> (#[trigger] cells[k]).style.modifier.reversed == selected
            &&& table->Table_header is Some
            &&& table->Table_header->0.cells.len() == 5
            &&& table->Table_header->0.cells[0].text == "    PROTO"@
            &&& table->Table_header->0.cells[1].text == "ADDRESS"@
            &&& table->Table_header->0.cells[2].text == "PID"@
            &&& table->Table_header->0.cells[3].text == "PROCESS"@
            &&& table->Table_header->0.cells[4].text == "CONTAINER"@
            &&& table->Table_widths == seq![
                Extent::Length(12),
                Extent::Length(22),
                Extent::Length(7),
                Extent::Length(26),
                Extent::Min(12),
            ]
        }),
{
}

/// Each process that the filter lets through has a row, in the order of the
/// list, with its pid and that of its parent, its load once that is measured,
/// its memory and its command.
pub proof fn processes_have_their_rows(
    m: PortsScopeModel,
    area: Rect,
    focused: bool,
    hovered: bool,
    chunks: Seq<Rect>,
    i: int,
)
    requires
        m.active == PortsActiveView::Processes,
        m.processes.state is Available,
        0 <= i < visible(m.processes.state->rows@, m.processes.cursor.filter).len(),
    ensures
        ({
            let shown = visible(m.processes.state->rows@, m.processes.cursor.filter);
            let filtering = m.processes.cursor.filter_active || m.processes.cursor.filter.len() > 0;
            let at = if filtering {
                3int
            } else {
                2int
            };
            let p = shown[i];
            let scene = ports_scene(m, area, focused, hovered, chunks);
            let table = scene[at];
            let cells = table->Table_rows[i].cells;
            let selected = i == m.processes.cursor.selection;
            &&& scene.len() == at + 2
            &&& table is Table
            &&& table->Table_area == chunks[at - 1]
            &&& table->Table_rows.len() == shown.len()
            &&& cells.len() == 5
            &&& selected && p.partial ==> cells[0].text == "▶ "@ + "?"@ + " "@ + decimal(
                p.pid as nat,
            )
            &&& selected && !p.partial ==> cells[0].text == "▶ "@ + " "@ + " "@ + decimal(
                p.pid as nat,
            )
            &&& !selected && p.partial ==> cells[0].text == "  "@ + "?"@ + " "@ + decimal(
                p.pid as nat,
            )
            &&& !selected && !p.partial ==> cells[0].text == "  "@ + " "@ + " "@ + decimal(
                p.pid as nat,
            )
            &&& cells[1].text == decimal(p.parent_pid as nat)
            &&& cells[1].style.fg == Some(Color::DarkGray)
            &&& p.cpu_percent is None ==> cells[2].text == "   —"@
            &&& p.cpu_percent is Some ==> cells[2].text == pad_left(p.cpu_percent->0@, 5)
            &&& cells[3].text == spec_format_bytes(p.mem_bytes)
            &&& cells[4].text == spec_truncate(p.command@, 48)
            &&& forall|k: int|
                0 <= k < 5 ==> (#[trigger] cells[k]).style.modifier.reversed == selected
            &&& table->Table_header is Some
            &&& table->Table_header->0.cells.len() == 5
            &&& table->Table_header->0.cells[0].text == "      PID"@
            &&& table->Table_header->0.cells[1].text == "PPID"@
            &&& table->Table_header->0.cells[2].text == "  CPU%"@
            &&& table->Table_header->0.cells[3].text == "    MEM"@
            &&& table->Table_header->0.cells[4].text == "COMMAND"@
            &&& table->Table_widths == seq![
                Extent::Length(10),
                Extent::Length(6),
                Extent::Length(7),
                Extent::Length(10),
                Extent::Min(20),
            ]
        }),
{
}

/// The bars around the ports: how many are shown of how many, from which
/// source and under which filter; the filter; and which keys there are.
pub proof fn the_bars_of_the_ports_view(
    m: PortsScopeModel,
    area: Rect,
    focused: bool,
    hovered: bool,
    chunks: Seq<Rect>,
)
    requires
        m.active == PortsActiveView::Ports,
    ensures
        ({
            let filter = m.ports.cursor.filter;
            let typing = m.ports.cursor.filter_active;
            let filtering = typing || filter.len() > 0;
            let scene = ports_scene(m, area, focused, hovered, chunks);
            let status = scene[1]->Text_lines[0].spans[0];
            let help = if filtering {
                scene[4]
            } else {
                scene[3]
            };
            &&& scene[1] is Text && scene[1]->Text_area == chunks[0]
            &&& scene[1]->Text_lines.len() == 1 && scene[1]->Text_lines[0].spans.len() == 1
            &&& m.ports.state is Connecting ==> status.text == "connecting…"@ && status.style.fg
                == Some(Color::Yellow)
            &&& m.ports.state is Unavailable ==> status.text == "unavailable"@ && status.style.fg
                == Some(Color::Red)
            &&& m.ports.state is Available ==> {
                let counts = decimal(visible(m.ports.state->rows@, filter).len()) + "/"@ + decimal(
                    m.ports.state->rows@.len(),
                ) + " port(s) · source: "@ + m.ports.state->source@;
                &&& status.style.fg == Some(Color::Green)
                &&& filter.len() == 0 ==> status.text == counts + ""@ + " · UDP coming v1.1"@
                &&& filter.len() > 0 ==> status.text == counts + (" · filter: "@ + filter)
                    + " · UDP coming v1.1"@
            }
            &&& filtering ==> {
                &&& scene[2] is Text && scene[2]->Text_area == chunks[1]
                &&& typing ==> scene[2]->Text_lines[0].spans[0].text == "filter: "@ + filter + "_"@
                &&& !typing ==> scene[2]->Text_lines[0].spans[0].text == "filter: "@ + filter + ""@
            }
            &&& help is Text
            &&& typing ==> help->Text_lines[0].spans[0].text
                == "[Enter] apply · [Esc] clear · [Backspace] delete"@
            &&& !typing ==> help->Text_lines[0].spans[0].text
                == "[j/k] nav · [/] filter · [p] Processes"@
        }),
{
}

/// The bars around the processes.
pub proof fn the_bars_of_the_processes_view(
    m: PortsScopeModel,
    area: Rect,
    focused: bool,
    hovered: bool,
    chunks: Seq<Rect>,
)
    requires
        m.active == PortsActiveView::Processes,
    ensures
        ({
            let filter = m.processes.cursor.filter;
            let typing = m.processes.cursor.filter_active;
            let filtering = typing || filter.len() > 0;
            let scene = ports_scene(m, area, focused, hovered, chunks);
            let status = scene[1]->Text_lines[0].spans[0];
            let help = if filtering {
                scene[4]
            } else {
                scene[3]
            };
            &&& scene[1] is Text && scene[1]->Text_area == chunks[0]
            &&& scene[1]->Text_lines.len() == 1 && scene[1]->Text_lines[0].spans.len() == 1
            &&& m.processes.state is Connecting ==> status.text == "connecting…"@
                && status.style.fg == Some(Color::Yellow)
            &&& m.processes.state is Unavailable ==> status.text == "unavailable"@
                && status.style.fg == Some(Color::Red)
            &&& m.processes.state is Available ==> {
                let counts = decimal(visible(m.processes.state->rows@, filter).len()) + "/"@
                    + decimal(m.processes.state->rows@.len()) + " process(es) · source: "@
                    + m.processes.state->source@;
                &&& status.style.fg == Some(Color::Green)
                &&& filter.len() == 0 ==> status.text == counts + ""@
                &&& filter.len() > 0 ==> status.text == counts + (" · filter: "@ + filter)
            }
            &&& filtering ==> {
                &&& scene[2] is Text && scene[2]->Text_area == chunks[1]
                &&& typing ==> scene[2]->Text_lines[0].spans[0].text == "filter: "@ + filter + "_"@
                &&& !typing ==> scene[2]->Text_lines[0].spans[0].text == "filter: "@ + filter + ""@
            }
            &&& help is Text
            &&& typing ==> help->Text_lines[0].spans[0].text
                == "[Enter] apply · [Esc] clear · [Backspace] delete"@
            &&& !typing ==> help->Text_lines[0].spans[0].text
                == "[j/k] nav · [/] filter · [p] Ports"@
        }),
{
}

/// Where there is nothing to list, the body says why; the reason that a probe
/// gives is shown, up to ten lines of it.
pub proof fn an_empty_probe_says_why(
    m: PortsScopeModel,
    area: Rect,
    focused: bool,
    hovered: bool,
    chunks: Seq<Rect>,
    k: int,
)
    ensures
        ({
            let filter = if m.active == PortsActiveView::Ports {
                m.ports.cursor.filter
            } else {
                m.processes.cursor.filter
            };
            let typing = if m.active == PortsActiveView::Ports {
                m.ports.cursor.filter_active
            } else {
                m.processes.cursor.filter_active
            };
            let scene = ports_scene(m, area, focused, hovered, chunks);
            let body = if typing || filter.len() > 0 {
                scene[3]
            } else {
                scene[2]
            };
            &&& m.active == PortsActiveView::Ports && m.ports.state is Connecting ==> body is Text
                && body->Text_lines.len() == 2 && body->Text_lines[1].spans[0].text
                == "Connecting to the ports probe…"@
            &&& m.active == PortsActiveView::Ports && m.ports.state is Available && visible(
                m.ports.state->rows@,
                filter,
            ).len() == 0 ==> {
                &&& body is Text && body->Text_lines.len() == 2
                &&& filter.len() == 0 ==> body->Text_lines[1].spans[0].text == "No listening ports"@
                &&& filter.len() > 0 ==> body->Text_lines[1].spans[0].text
                    == "No ports match filter"@
            }
            &&& m.active == PortsActiveView::Ports && m.ports.state is Unavailable ==> {
                let lines = text_lines(m.ports.state->reason@);
                &&& body is Text
                &&& body->Text_lines[0].spans[0].text == "Ports probe unavailable"@
                &&& body->Text_lines.len() == 2 + if lines.len() > 10 {
                    10
                } else {
                    lines.len()
                }
                &&& 0 <= k < 10 && k < lines.len() ==> body->Text_lines[2 + k].spans[0].text
                    == lines[k]
            }
            &&& m.active == PortsActiveView::Processes && m.processes.state is Connecting
                ==> body is Text && body->Text_lines.len() == 2
                && body->Text_lines[1].spans[0].text == "Connecting to the processes probe…"@
            &&& m.active == PortsActiveView::Processes && m.processes.state is Available
                && visible(m.processes.state->rows@, filter).len() == 0 ==> {
                &&& body is Text && body->Text_lines.len() == 2
                &&& filter.len() == 0 ==> body->Text_lines[1].spans[0].text
                    == "No running processes"@
                &&& filter.len() > 0 ==> body->Text_lines[1].spans[0].text
                    == "No processes match filter"@
            }
            &&& m.active == PortsActiveView::Processes && m.processes.state is Unavailable ==> {
                let lines = text_lines(m.processes.state->reason@);
                &&& body is Text
                &&& body->Text_lines[0].spans[0].text == "Processes probe unavailable"@
                &&& body->Text_lines.len() == 2 + if lines.len() > 10 {
                    10
                } else {
                    lines.len()
                }
                &&& 0 <= k < 10 && k < lines.len() ==> body->Text_lines[2 + k].spans[0].text
                    == lines[k]
            }
        }),
{
}

} // verus!
