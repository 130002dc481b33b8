//! The status view on the screen.

use vstd::prelude::*;

use crate::geometry::Rect;
use crate::proto::StatusSnapshot;
use crate::scene::{Color, Extent};
use crate::scene::format::{pad_right, spec_format_uptime};
use crate::scene::status::{status_extents, status_scene};
use crate::status::ConnectionState;
use crate::text::decimal;

verus! {

/// The header says whether the daemon is there, and if not why; the footer
/// says how to quit.
pub proof fn the_header_says_how_the_connection_is(
    connection: ConnectionState,
    version: Seq<char>,
    snapshot: Option<StatusSnapshot>,
    chunks: Seq<Rect>,
)
    requires
        chunks.len() == 3,
    ensures
        ({
            let scene = status_scene(connection, version, snapshot, chunks);
            let spans = scene[0]->Text_lines[0].spans;
            let footer = scene[3]->Text_lines[0].spans;
            &&& scene.len() == 4
            &&& scene[0] is Text && scene[0]->Text_area == chunks[0]
            &&& spans[0].text == " Tepegöz "@
            &&& connection is Connecting ==> spans.len() == 5 && spans[2].text == "v"@ + version
                && spans[4].text == "● connecting"@ && spans[4].style.fg == Some(Color::Yellow)
            &&& connection is Connected ==> spans.len() == 5 && spans[2].text == "v"@ + version
                && spans[4].text == "● connected"@ && spans[4].style.fg == Some(Color::Green)
            &&& connection is Disconnected ==> spans.len() == 3 && spans[2].text
                == "● disconnected — "@ + connection->Disconnected_0@ && spans[2].style.fg == Some(
                Color::Red,
            )
            &&& scene[1] is Frame && scene[1]->Frame_area == chunks[1]
            &&& scene[1]->Frame_title == " daemon status "@
            &&& scene[3] is Text && scene[3]->Text_area == chunks[2]
            &&& footer.len() == 4
            &&& footer[0].text == " q "@ && footer[1].text == " quit  "@
            &&& footer[2].text == " Esc "@ && footer[3].text == " quit"@
            &&& status_extents() == seq![Extent::Length(1), Extent::Min(0), Extent::Length(1)]
        }),
{
}

/// The body lists the last snapshot, value by value.
pub proof fn the_body_lists_the_snapshot(
    connection: ConnectionState,
    version: Seq<char>,
    s: StatusSnapshot,
    chunks: Seq<Rect>,
)
    requires
        chunks.len() == 3,
    ensures
        ({
            let lines = status_scene(connection, version, Some(s), chunks)[2]->Text_lines;
            &&& lines.len() == 10
            &&& lines[1].spans[1].text == pad_right("daemon pid"@, 16)
            &&& lines[1].spans[2].text == decimal(s.daemon_pid as nat)
            &&& lines[2].spans[1].text == pad_right("daemon version"@, 16)
            &&& lines[2].spans[2].text == s.daemon_version@
            &&& lines[3].spans[1].text == pad_right("socket"@, 16)
            &&& lines[3].spans[2].text == s.socket_path@
            &&& lines[5].spans[1].text == pad_right("uptime"@, 16)
            &&& lines[5].spans[2].text == spec_format_uptime(s.uptime_seconds)
            &&& lines[7].spans[1].text == pad_right("clients now"@, 16)
            &&& lines[7].spans[2].text == decimal(s.clients_now as nat)
            &&& lines[8].spans[1].text == pad_right("clients total"@, 16)
            &&& lines[8].spans[2].text == decimal(s.clients_total as nat)
            &&& lines[9].spans[1].text == pad_right("events sent"@, 16)
            &&& lines[9].spans[2].text == decimal(s.events_sent as nat)
        }),
{
}

/// Before the first snapshot the body says that it waits.
pub proof fn the_body_waits_for_a_snapshot(
    connection: ConnectionState,
    version: Seq<char>,
    chunks: Seq<Rect>,
)
    requires
        chunks.len() == 3,
    ensures
        ({
            let lines = status_scene(connection, version, None, chunks)[2]->Text_lines;
            &&& lines.len() == 2
            &&& lines[1].spans[0].text == "  waiting for first snapshot..."@
        }),
{
}

} // verus!
