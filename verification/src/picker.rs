//! The host picker: which machine a tile shows.

use vstd::prelude::*;

use crate::fleet::{connection_state, state_of, FleetModel, FleetScope, FleetScopeState};
use crate::proto::{HostEntry, HostState};

verus! {

/// A tile that can show another machine.
#[derive(Debug, Clone, Copy, PartialEq, Eq, Structural)]
pub enum HostPickerTargetTile {
    Docker,
}

/// An open host picker.
#[derive(Debug, Clone)]
pub struct HostPickerModal {
    pub target_tile: HostPickerTargetTile,
    /// What a machine's agent must offer.
    pub required_capability: String,
    /// Index into the picker's rows.
    pub selected: usize,
}

/// The name of a tile in the picker's title.
pub open spec fn spec_target_tile_label(tile: HostPickerTargetTile) -> Seq<char> {
    match tile {
        HostPickerTargetTile::Docker => "docker"@,
    }
}

impl HostPickerModal {
    /// The name of the tile that the picker was opened for.
    pub fn target_tile_label(&self) -> (r: &'static str)
        ensures
            r@ == spec_target_tile_label(self.target_tile),
    {
        match self.target_tile {
            HostPickerTargetTile::Docker => "docker",
        }
    }
}

/// A row of the picker.
#[derive(Debug, Clone)]
pub enum HostPickerRow {
    /// The machine the daemon runs on.
    Local,
    /// A machine of the fleet. It can be picked while it is connected.
    Remote { alias: String, state: HostState, usable: bool },
}

/// [`HostPickerRow`] with its alias as a sequence of characters.
#[verifier::ext_equal]
pub ghost enum PickerRowView {
    Local,
    Remote { alias: Seq<char>, state: HostState, usable: bool },
}

impl View for HostPickerRow {
    type V = PickerRowView;

    open spec fn view(&self) -> PickerRowView {
        match *self {
            HostPickerRow::Local => PickerRowView::Local,
            HostPickerRow::Remote { alias, state, usable } => PickerRowView::Remote {
                alias: alias@,
                state,
                usable,
            },
        }
    }
}

/// The views of a list of rows.
pub open spec fn picker_row_views(rows: Seq<HostPickerRow>) -> Seq<PickerRowView> {
    rows.map_values(|r: HostPickerRow| r@)
}

/// A host's row.
pub open spec fn remote_row(states: Map<Seq<char>, HostState>, h: HostEntry) -> PickerRowView {
    let state = state_of(states, h);
    PickerRowView::Remote { alias: h.alias@, state, usable: state == HostState::Connected }
}

/// The picker's rows: the daemon's machine first, and then every host of the
/// fleet, connected or not.
pub open spec fn picker_rows(fleet: FleetModel) -> Seq<PickerRowView> {
    seq![PickerRowView::Local] + fleet.state.rows().map_values(
        |h: HostEntry| remote_row(fleet.state.known(), h),
    )
}

/// The picker's rows.
pub fn host_picker_rows(fleet: &FleetScope) -> (rows: Vec<HostPickerRow>)
    ensures
        picker_row_views(rows@) == picker_rows(fleet@),
{
    let mut rows: Vec<HostPickerRow> = Vec::new();
    rows.push(HostPickerRow::Local);
    match &fleet.state {
        FleetScopeState::Available { hosts, states, .. } => {
            let n: usize = hosts.len();
            let mut i: usize = 0;
            assert(picker_row_views(rows@) =~= picker_rows(fleet@).take(1));
            while i < n
                invariant
                    n == hosts@.len(),
                    0 <= i <= n,
                    fleet@.state.rows() == hosts@,
                    fleet@.state.known() == states@,
                    picker_row_views(rows@) == picker_rows(fleet@).take(i + 1),
                decreases n - i,
            {
                let state: HostState = connection_state(states, &hosts[i]);
                let ghost before = picker_row_views(rows@);
                let row = HostPickerRow::Remote {
                    alias: hosts[i].alias.clone(),
                    state,
                    usable: state == HostState::Connected,
                };
                rows.push(row);
                proof {
                    assert(row@ == remote_row(states@, hosts@[i as int]));
                    assert(picker_row_views(rows@) =~= before.push(row@));
                    assert(picker_rows(fleet@).take(i + 2) =~= before.push(row@));
                }
                i += 1;
            }
            assert(picker_rows(fleet@).take(n + 1) =~= picker_rows(fleet@));
        },
        FleetScopeState::Connecting => {
            assert(picker_row_views(rows@) =~= picker_rows(fleet@));
        },
    }
    rows
}

/// The daemon's machine is always the first row, and every host has exactly
/// one row, in the order of the fleet.
pub proof fn local_comes_first(fleet: FleetModel)
    ensures
        picker_rows(fleet)[0] == PickerRowView::Local,
        picker_rows(fleet).len() == fleet.state.rows().len() + 1,
        forall|i: int|
            0 <= i < fleet.state.rows().len() ==> ((#[trigger] picker_rows(fleet)[i + 1]) matches
                PickerRowView::Remote { alias, state, usable } && alias
                == fleet.state.rows()[i].alias@ && (usable <==> state == HostState::Connected)),
{
}

} // verus!
