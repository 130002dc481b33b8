//! The Fleet tile on the screen.

use vstd::prelude::*;

use crate::fleet::FleetModel;
use crate::geometry::Rect;
use crate::list::visible;
use crate::proto::HostState;
use crate::scene::{Color, Extent};
use crate::scene::fleet::{fleet_scene, spec_state_glyph};
use crate::scene::format::spec_short_source;
use crate::text::decimal;

verus! {

/// Connection states have their glyphs and colours.
pub proof fn connection_states_have_their_glyphs()
    ensures
        spec_state_glyph(HostState::Connected) == ("●"@, Color::Green),
        spec_state_glyph(HostState::Connecting) == ("◐"@, Color::Yellow),
        spec_state_glyph(HostState::Degraded) == ("◐"@, Color::Yellow),
        spec_state_glyph(HostState::Disconnected) == ("○"@, Color::DarkGray),
        spec_state_glyph(HostState::AuthFailed) == ("⚠"@, Color::Red),
        spec_state_glyph(HostState::HostKeyMismatch) == ("⚠"@, Color::Red),
        spec_state_glyph(HostState::AgentNotDeployed) == ("⚠"@, Color::Red),
        spec_state_glyph(HostState::AgentVersionMismatch) == ("⚠"@, Color::Red),
{
}

/// Each host that the filter lets through has a row, in the order of the list:
/// the cursor's mark, the glyph of what is known of it, its alias, where it is
/// reached, with its port unless that is 22, and its user.
pub proof fn hosts_have_their_rows(
    m: FleetModel,
    area: Rect,
    focused: bool,
    chunks: Seq<Rect>,
    i: int,
)
    requires
        m.state is Available,
        0 <= i < visible(m.state->hosts, m.cursor.filter).len(),
    ensures
        ({
            let shown = visible(m.state->hosts, m.cursor.filter);
            let filtering = m.cursor.filter_active || m.cursor.filter.len() > 0;
            let at = if filtering {
                3int
            } else {
                2int
            };
            let h = shown[i];
            let state = if m.state->states.contains_key(h.alias@) {
                m.state->states[h.alias@]
            } else {
                HostState::Disconnected
            };
            let scene = fleet_scene(m, area, focused, chunks);
            let table = scene[at];
            let cells = table->Table_rows[i].cells;
            &&& scene.len() == at + 2
            &&& table is Table
            &&& table->Table_area == chunks[at - 1]
            &&& table->Table_rows.len() == shown.len()
            &&& table->Table_header is None
            &&& cells.len() == 5
            &&& i == m.cursor.selection ==> cells[0].text == "▶"@
            &&& i != m.cursor.selection ==> cells[0].text == " "@
            &&& cells[1].text == spec_state_glyph(state).0
            &&& cells[1].style.fg == Some(spec_state_glyph(state).1)
            &&& cells[2].text == h.alias@
            &&& h.port == 22 ==> cells[3].text == h.hostname@
            &&& h.port != 22 ==> cells[3].text == h.hostname@ + ":"@ + decimal(h.port as nat)
            &&& cells[4].text == h.user@
            &&& table->Table_widths == seq![
                Extent::Length(1),
                Extent::Length(2),
                Extent::Min(10),
                Extent::Length(24),
                Extent::Length(12),
            ]
        }),
{
}

/// The border, the bars and the body around the hosts.
pub proof fn the_fleet_tile_says_what_is_shown(
    m: FleetModel,
    area: Rect,
    focused: bool,
    chunks: Seq<Rect>,
)
    ensures
        ({
            let scene = fleet_scene(m, area, focused, chunks);
            &&& scene.len() > 1
            &&& scene[0] is Frame
            &&& scene[0]->Frame_area == area
            &&& scene[0]->Frame_title == "fleet"@
            &&& scene[0]->Frame_border_style.fg == Some(
                if focused {
                    Color::Cyan
                } else {
                    Color::DarkGray
                },
            )
            &&& scene[0]->Frame_border_style.modifier.dim == !focused
            &&& m.state is Connecting ==> {
                &&& scene.len() == 2
                &&& scene[1] is Text
                &&& scene[1]->Text_lines[0].spans[0].text == "Discovering SSH hosts…"@
            }
            &&& m.state is Available ==> {
                let shown = visible(m.state->hosts, m.cursor.filter);
                let filtering = m.cursor.filter_active || m.cursor.filter.len() > 0;
                let spans = scene[1]->Text_lines[0].spans;
                let body = if filtering {
                    scene[3]
                } else {
                    scene[2]
                };
                let help = if filtering {
                    scene[4]
                } else {
                    scene[3]
                };
                &&& scene[1] is Text && scene[1]->Text_area == chunks[0]
                &&& spans.len() == 4
                &&& spans[0].text == decimal(shown.len()) + "/"@ + decimal(
                    m.state->hosts.len(),
                ) + " hosts"@
                &&& spans[0].style.fg == Some(Color::Green)
                &&& spans[2].text == "source: "@ + spec_short_source(
                    m.state->source,
                    chunks[0].width as nat,
                )
                &&& filtering ==> {
                    &&& scene[2] is Text && scene[2]->Text_area == chunks[1]
                    &&& scene[2]->Text_lines[0].spans[0].text == "filter: "@
                    &&& scene[2]->Text_lines[0].spans[1].text == m.cursor.filter + "_"@
                }
                &&& shown.len() == 0 && m.state->hosts.len() == 0 ==> body is Text
                    && body->Text_lines[0].spans[0].text
                    == "No SSH hosts configured — add entries to ~/.ssh/config or set TEPEGOZ_SSH_HOSTS"@
                &&& shown.len() == 0 && m.state->hosts.len() > 0 ==> body is Text
                    && body->Text_lines[0].spans[0].text == "No hosts match filter"@
                &&& help is Text
                &&& m.cursor.filter_active ==> help->Text_lines[0].spans[0].text
                    == "[Enter] apply · [Esc] clear · [Backspace] delete"@
                &&& !m.cursor.filter_active ==> help->Text_lines[0].spans[0].text
                    == "[j/k] nav · [/] filter · Ctrl-b h/j/k/l focus"@
            }
        }),
{
}

} // verus!
