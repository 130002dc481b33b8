//! What the states of the program are seen as: their own fields.

use vstd::prelude::*;

use crate::app::{App, PendingAction, Toast};
use crate::docker::{DockerScope, DockerViewModel, PendingConfirm};
use crate::event::{actions_view, AppAction};
use crate::fleet::FleetScope;
use crate::input::{action_views, InputAction, InputActionView};
use crate::logs::{LogLine, LogsView};
use crate::picker::{picker_row_views, HostPickerRow, PickerRowView};
use crate::ports::{PortsScope, PortsView, ProcessesView};
use crate::pty::PtyCell;
use crate::scene::{draw_views, Draw, DrawView, Line, Span, TableRow};
use crate::session::{Effect, EffectView, ExitReason, ExitView};
use crate::status::{link_views, ConnectionState, LinkAction, LinkActionView, Notice, NoticeView};
use crate::tasks::build_release::{sum_views, SumEntry};
use crate::text::{byte_seqs, texts};
use crate::tile::{TileDef, TileKindView, TileLayout};

verus! {

/// The application is seen as its parts.
pub proof fn the_application_is_its_parts(app: App, id: u64, i: int)
    ensures
        app@.layout == app.view.layout@,
        app@.focused == app.view.focused,
        app@.hovered == app.view.hovered,
        app@.pane == app.pane,
        app@.pane_sub == app.pane_sub,
        app@.pty == app.pty_parser@,
        app@.docker == app.docker@,
        app@.ports == app.ports@,
        app@.fleet == app.fleet@,
        app@.terminal_size == app.terminal_size,
        app@.next_sub_id == app.next_sub_id,
        app@.pending.contains_key(id) == app.pending_actions@.contains_key(id),
        app.pending_actions@.contains_key(id) ==> app@.pending[id] == app.pending_actions@[id]@,
        app@.toasts.len() == app.toasts@.len(),
        0 <= i < app.toasts@.len() ==> app@.toasts[i] == app.toasts@[i]@,
        app@.held_input == app.input_filter@,
        app@.held_keys == app.scope_key_parser@,
{
}

/// So are toasts, actions that are waited for, and prompts.
pub proof fn toasts_and_prompts_are_their_parts(t: Toast, p: PendingAction, c: PendingConfirm)
    ensures
        t@.kind == t.kind && t@.message == t.message@ && t@.expires_at == t.expires_at,
        p@.deadline == p.deadline && p@.description == p.description@,
        c@.kind == c.kind && c@.container_id == c.container_id@ && c@.container_name
            == c.container_name@ && c@.deadline == c.deadline,
{
}

/// So are the tiles' states.
pub proof fn scopes_are_their_parts(
    d: DockerScope,
    s: PortsScope,
    p: PortsView,
    q: ProcessesView,
    f: FleetScope,
)
    ensures
        d@.state == d.state && d@.view == d.view@ && d@.sub_id == d.sub_id && d@.target == d.target,
        d@.cursor.selection == d.selection && d@.cursor.filter == d.filter@
            && d@.cursor.filter_active == d.filter_active,
        d.pending_confirm is None <==> d@.confirm is None,
        d.pending_confirm is Some ==> d@.confirm->0 == d.pending_confirm->0@,
        d.view is List <==> d@.view is List,
        d.view is Logs ==> d@.view == DockerViewModel::Logs(d.view->Logs_0@),
        s@.ports == s.ports@ && s@.processes == s.processes@ && s@.active == s.active,
        s@.ports_sub_id == s.ports_sub_id && s@.processes_sub_id == s.processes_sub_id,
        p@.state == p.state && p@.cursor.selection == p.selection && p@.cursor.filter == p.filter@
            && p@.cursor.filter_active == p.filter_active,
        q@.state == q.state && q@.cursor.selection == q.selection && q@.cursor.filter == q.filter@
            && q@.cursor.filter_active == q.filter_active,
        f@.state == f.state@ && f@.cursor.selection == f.selection && f@.cursor.filter == f.filter@
            && f@.cursor.filter_active == f.filter_active && f@.sub_id == f.sub_id,
        f.state is Connecting <==> f.state@ is Connecting,
        f.state is Available ==> f.state@->hosts == f.state->hosts@ && f.state@->states
            == f.state->states@ && f.state@->source == f.state->source@,
{
}

/// So are transcripts.
pub proof fn transcripts_are_their_parts(l: LogsView, line: LogLine, i: int)
    ensures
        l@.container_id == l.container_id@ && l@.container_name == l.container_name@,
        l@.sub_id == l.sub_id,
        l@.lines.len() == l.lines@.len(),
        0 <= i < l.lines@.len() ==> l@.lines[i] == l.lines@[i]@,
        l@.pending_stdout == l.pending_stdout@ && l@.pending_stderr == l.pending_stderr@,
        l@.scroll_offset == l.scroll_offset && l@.at_tail == l.at_tail,
        l.stream_ended is None <==> l@.stream_ended is None,
        l.stream_ended is Some ==> l@.stream_ended->0 == l.stream_ended->0@,
        line@.stream == line.stream && line@.text == line.text@,
{
}

/// So are tiles.
pub proof fn tiles_are_their_parts(t: TileDef, l: TileLayout, i: int)
    ensures
        t@.id == t.id && t@.rect == t.rect && t@.kind == t.kind@,
        t.kind is Pty <==> t.kind@ is Pty,
        t.kind is TooSmall <==> t.kind@ is TooSmall,
        t.kind is Scope ==> t.kind@ == TileKindView::Scope(t.kind->Scope_0),
        t.kind is Placeholder ==> t.kind@ == (TileKindView::Placeholder {
            label: t.kind->label@,
            eta_phase: t.kind->eta_phase,
        }),
        l@.default_focus == l.default_focus,
        l@.tiles.len() == l.tiles@.len(),
        0 <= i < l.tiles@.len() ==> l@.tiles[i] == l.tiles@[i]@,
{
}

/// So is what is drawn.
pub proof fn drawings_are_their_parts(s: Span, l: Line, r: TableRow, d: Draw, i: int)
    ensures
        s@.text == s.text@ && s@.style == s.style,
        l@.centered == l.centered && l@.spans.len() == l.spans@.len(),
        0 <= i < l.spans@.len() ==> l@.spans[i] == l.spans@[i]@,
        r@.style == r.style && r@.cells.len() == r.cells@.len(),
        0 <= i < r.cells@.len() ==> r@.cells[i] == r.cells@[i]@,
        d matches Draw::Clear { area } ==> d@ == (DrawView::Clear { area }),
        d matches Draw::Frame { area, title, title_style, border_style } ==> d@ == (
        DrawView::Frame { area, title: title@, title_style, border_style }),
        d matches Draw::Text { area, lines, centered, wrap } ==> d@ is Text && d@->Text_area == area
            && d@->Text_centered == centered && d@->Text_wrap == wrap && d@->Text_lines.len()
            == lines@.len() && (0 <= i < lines@.len() ==> d@->Text_lines[i] == lines@[i]@),
        d matches Draw::Table { area, header, rows, widths } ==> d@ is Table && d@->Table_area
            == area && d@->Table_widths == widths@ && d@->Table_rows.len() == rows@.len() && (0 <= i
            < rows@.len() ==> d@->Table_rows[i] == rows@[i]@) && (header is None
            <==> d@->Table_header is None) && (header is Some ==> d@->Table_header->0
            == header->0@),
        d matches Draw::Cell { x, y, symbol, style } ==> d@ == (DrawView::Cell {
            x,
            y,
            symbol: symbol@,
            style,
        }),
        d matches Draw::Reverse { x, y } ==> d@ == (DrawView::Reverse { x, y }),
{
}

/// So are cells of the emulator's screen.
pub proof fn cells_are_their_parts(c: PtyCell)
    ensures
        c@.contents == c.contents@,
        c@.fg == c.fg && c@.bg == c.bg,
        c@.bold == c.bold && c@.italic == c.italic && c@.underline == c.underline && c@.inverse
            == c.inverse,
        c@.wide == c.wide && c@.continuation == c.continuation,
{
}

/// So is what the key filter finds, what the picker lists, and what a sum
/// stands for.
pub proof fn findings_are_their_parts(a: InputAction, r: HostPickerRow, e: SumEntry)
    ensures
        a matches InputAction::Forward(bytes) ==> a@ == InputActionView::Forward(bytes@),
        a is Detach <==> a@ is Detach,
        a matches InputAction::FocusDirection(dir) ==> a@ == InputActionView::FocusDirection(dir),
        a is FocusNext <==> a@ is FocusNext,
        a is FocusPrev <==> a@ is FocusPrev,
        a is Help <==> a@ is Help,
        a is PaneClose <==> a@ is PaneClose,
        r is Local <==> r@ is Local,
        r matches HostPickerRow::Remote { alias, state, usable } ==> r@ == (PickerRowView::Remote {
            alias: alias@,
            state,
            usable,
        }),
        e@.digest == e.digest@ && e@.path == e.path@,
{
}

/// So are the effects and ends of a session, and the steps of the status
/// view's conversation.
pub proof fn effects_are_their_parts(
    e: Effect,
    x: ExitReason,
    n: Notice,
    l: LinkAction,
)
    ensures
        e matches Effect::Send(m) ==> e@ == EffectView::Send(m@),
        e is Draw <==> e@ is Draw,
        e matches Effect::NoteFocus(id) ==> e@ == EffectView::NoteFocus(id),
        e matches Effect::NoteToast { warn, message } ==> e@ == (EffectView::NoteToast {
            warn,
            message: message@,
        }),
        e matches Effect::Leave(reason) ==> e@ == EffectView::Leave(reason@),
        x is UserDetach <==> x@ is UserDetach,
        x matches ExitReason::PaneExited { exit_code } ==> x@ == (ExitView::PaneExited {
            exit_code,
        }),
        x matches ExitReason::DaemonClosed(t) ==> x@ == ExitView::DaemonClosed(t@),
        x matches ExitReason::DaemonError(t) ==> x@ == ExitView::DaemonError(t@),
        x is StdinClosed <==> x@ is StdinClosed,
        x matches ExitReason::StdinError(t) ==> x@ == ExitView::StdinError(t@),
        x matches ExitReason::AppError(t) ==> x@ == ExitView::AppError(t@),
        n == Notice::State(ConnectionState::Connecting) ==> n@ == NoticeView::Connecting,
        n == Notice::State(ConnectionState::Connected) ==> n@ == NoticeView::Connected,
        n matches Notice::State(ConnectionState::Disconnected(t)) ==> n@
            == NoticeView::Disconnected(t@),
        n matches Notice::Lost(t) ==> n@ == NoticeView::Lost(t@),
        n matches Notice::Status(s) ==> n@ == NoticeView::Status(s),
        l matches LinkAction::Tell(t) ==> l@ == LinkActionView::Tell(t@),
        l is Connect <==> l@ is Connect,
        l matches LinkAction::Write(m) ==> l@ == LinkActionView::Write(m@),
        l is Read <==> l@ is Read,
{
}

/// Lists are seen item by item.
pub proof fn lists_are_seen_item_by_item(
    actions: Seq<AppAction>,
    draws: Seq<Draw>,
    links: Seq<LinkAction>,
    inputs: Seq<InputAction>,
    rows: Seq<HostPickerRow>,
    strings: Seq<String>,
    bytes: Seq<Vec<u8>>,
    sums: Seq<SumEntry>,
    i: int,
)
    ensures
        actions_view(actions).len() == actions.len(),
        0 <= i < actions.len() ==> actions_view(actions)[i] == actions[i]@,
        draw_views(draws).len() == draws.len(),
        0 <= i < draws.len() ==> draw_views(draws)[i] == draws[i]@,
        link_views(links).len() == links.len(),
        0 <= i < links.len() ==> link_views(links)[i] == links[i]@,
        action_views(inputs).len() == inputs.len(),
        0 <= i < inputs.len() ==> action_views(inputs)[i] == inputs[i]@,
        picker_row_views(rows).len() == rows.len(),
        0 <= i < rows.len() ==> picker_row_views(rows)[i] == rows[i]@,
        texts(strings).len() == strings.len(),
        0 <= i < strings.len() ==> texts(strings)[i] == strings[i]@,
        byte_seqs(bytes).len() == bytes.len(),
        0 <= i < bytes.len() ==> byte_seqs(bytes)[i] == bytes[i]@,
        sum_views(sums).len() == sums.len(),
        0 <= i < sums.len() ==> sum_views(sums)[i] == sums[i]@,
{
}

} // verus!
