//! The host picker: what it lists and how it looks.

use vstd::prelude::*;

use crate::fleet::FleetModel;
use crate::geometry::Rect;
use crate::picker::{picker_rows, HostPickerModal, HostPickerTargetTile, PickerRowView};
use crate::proto::HostState;
use crate::scene::Color;
use crate::scene::format::pad_right;
use crate::scene::picker::{picker_scene, picker_size, spec_annotation, spec_state_glyph};

verus! {

/// The picker lists the daemon's own machine first, and below it every host of
/// the fleet, in its order. Only a connected host can be picked.
pub proof fn every_host_is_offered(fleet: FleetModel, i: int)
    requires
        fleet.state is Available,
        0 <= i < fleet.state->hosts.len(),
    ensures
        ({
            let rows = picker_rows(fleet);
            let h = fleet.state->hosts[i];
            let state = if fleet.state->states.contains_key(h.alias@) {
                fleet.state->states[h.alias@]
            } else {
                HostState::Disconnected
            };
            &&& rows.len() == fleet.state->hosts.len() + 1
            &&& rows[0] == PickerRowView::Local
            &&& rows[i + 1] == (PickerRowView::Remote {
                alias: h.alias@,
                state,
                usable: state == HostState::Connected,
            })
        }),
{
}

/// Before the hosts are known there is the daemon's own machine.
pub proof fn the_local_machine_is_always_offered(fleet: FleetModel)
    ensures
        picker_rows(fleet).len() > 0,
        picker_rows(fleet)[0] == PickerRowView::Local,
        fleet.state is Connecting ==> picker_rows(fleet).len() == 1,
{
}

/// What the picker says of each state.
pub proof fn states_are_explained()
    ensures
        spec_annotation(HostState::Connected, true) == "connected"@,
        spec_annotation(HostState::Disconnected, false) == "(not connected)"@,
        spec_annotation(HostState::Connecting, false) == "(connecting)"@,
        spec_annotation(HostState::Degraded, false) == "(degraded)"@,
        spec_annotation(HostState::AuthFailed, false) == "(auth failed)"@,
        spec_annotation(HostState::HostKeyMismatch, false) == "(host-key mismatch)"@,
        spec_annotation(HostState::AgentNotDeployed, false) == "(agent not deployed)"@,
        spec_annotation(HostState::AgentVersionMismatch, false) == "(agent version mismatch)"@,
        spec_state_glyph(HostState::Connected) == ("●"@, Color::Green),
        spec_state_glyph(HostState::Connecting) == ("◐"@, Color::Yellow),
        spec_state_glyph(HostState::Degraded) == ("◐"@, Color::Yellow),
        spec_state_glyph(HostState::Disconnected) == ("○"@, Color::Gray),
        spec_state_glyph(HostState::AuthFailed) == ("⚠"@, Color::Red),
        spec_state_glyph(HostState::HostKeyMismatch) == ("⚠"@, Color::Red),
        spec_state_glyph(HostState::AgentNotDeployed) == ("⚠"@, Color::Red),
        spec_state_glyph(HostState::AgentVersionMismatch) == ("⚠"@, Color::Red),
{
}

/// The picker on the screen: a line for each row, between two blank ones, with
/// a mark on the selected row.
pub proof fn the_picker_shows_its_rows(
    fleet: FleetModel,
    picker: HostPickerModal,
    area: Rect,
    i: int,
)
    requires
        area.width >= 30,
        area.x + area.width <= 65_535,
        area.y + area.height <= 65_535,
        picker_rows(fleet).len() + 5 <= area.height,
        picker.target_tile == HostPickerTargetTile::Docker,
        0 <= i < picker_rows(fleet).len(),
    ensures
        ({
            let scene = picker_scene(fleet, picker, area);
            let lines = scene[2]->Text_lines;
            let spans = lines[i + 1].spans;
            &&& scene.len() == 3
            &&& scene[0] is Clear
            &&& scene[1] is Frame
            &&& scene[1]->Frame_area == scene[0]->Clear_area
            &&& scene[1]->Frame_title == " "@ + "docker"@
                + " target · ↑/↓/j/k select · Enter commits · Esc cancels "@
            &&& scene[2] is Text
            &&& lines.len() == picker_rows(fleet).len() + 2
            &&& lines[0].spans.len() == 0
            &&& lines.last().spans.len() == 0
            &&& i == picker.selected ==> spans[0].text == " ▶ "@
            &&& i != picker.selected ==> spans[0].text == "   "@
            &&& picker_rows(fleet)[i] is Local ==> spans.len() == 2 && spans[1].text == "Local"@
            &&& picker_rows(fleet)[i] matches PickerRowView::Remote { alias, state, usable } ==> {
                &&& spans.len() == 5
                &&& spans[1].text == pad_right(alias, 24)
                &&& spans[3].text == spec_state_glyph(state).0
                &&& spans[3].style.fg == Some(spec_state_glyph(state).1)
                &&& spans[4].text == " "@ + spec_annotation(state, usable)
                &&& usable ==> !spans[1].style.modifier.dim
                &&& !usable ==> spans[1].style.modifier.dim
            }
        }),
{
}

/// The picker takes up to 68 columns, and five rows more than it has lines.
pub proof fn the_pickers_size(area: Rect, rows: nat)
    requires
        rows + 5 <= 65_535,
    ensures
        area.width >= 68 ==> picker_size(area, rows).0 == 68,
        area.width < 68 ==> picker_size(area, rows).0 == area.width,
        area.height >= rows + 5 ==> picker_size(area, rows).1 == rows + 5,
        area.height < rows + 5 ==> picker_size(area, rows).1 == area.height,
{
}

/// On a screen too small for the picker one line says so.
pub proof fn a_small_screen_has_no_picker(fleet: FleetModel, picker: HostPickerModal, area: Rect)
    requires
        area.width < 30 || area.height < 6,
    ensures
        picker_scene(fleet, picker, area).len() == 1,
        picker_scene(fleet, picker, area)[0]->Text_lines[0].spans[0].text
            == "too small — Esc closes"@,
{
}

} // verus!
