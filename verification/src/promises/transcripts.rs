//! Log transcripts: what is followed is what was written.

use vstd::prelude::*;
use vstd::utf8::encode_utf8;

use crate::docker::{DockerModel, DockerViewModel};
use crate::event::{ActionView, AppEvent};
use crate::geometry::Rect;
use crate::keys::ScopeKey;
use crate::logs::{a_line_is_kept_as_it_was_written, LogLineView, LogsModel};
use crate::model::{AppModel, Step};
use crate::promises::keyboard::{
    arrows_are_read, escapes_and_arrows_go_on, home_and_end_are_read, numbered_keys_go_on,
    page_keys_are_read,
};
use crate::promises::typing::{
    at_rest, lemma_chunk_is_read, lemma_focus_routes, lemma_typed, lemma_typed_escape,
};
use crate::proto::{Envelope, Event, EventFrame, LogStream, Payload, Request};
use crate::text::utf8_lossy;
use crate::tile::{ScopeKind, TileId};

verus! {

/// A line that a container writes is shown as it was written, whatever its
/// length, on the stream that it was written to. Nothing else changes.
pub proof fn a_written_line_joins_the_transcript(
    m: AppModel,
    logs: LogsModel,
    stream: LogStream,
    t: Seq<char>,
    data: Vec<u8>,
    now: u64,
    after: Step,
)
    requires
        m.docker.view == DockerViewModel::Logs(logs),
        logs.wf(),
        logs.sub_id != m.pane_sub,
        logs.sub_id != m.docker.sub_id,
        logs.lines.len() < 10_000,
        stream == LogStream::Stdout ==> logs.pending_stdout.len() == 0,
        stream == LogStream::Stderr ==> logs.pending_stderr.len() == 0,
        !t.contains('\n'),
        t.len() == 0 || t.last() != '\r',
        data@ == encode_utf8(t) + seq![0x0au8] || data@ == encode_utf8(t) + seq![0x0du8, 0x0au8],
        m.leads_to(
            AppEvent::DaemonEnvelope(
                Envelope {
                    payload: Payload::Event(
                        EventFrame {
                            subscription_id: logs.sub_id,
                            event: Event::ContainerLog { stream, data },
                        },
                    ),
                },
            ),
            now,
            after,
        ),
    ensures
        after.actions == seq![ActionView::DrawFrame],
        after.app == (AppModel {
            docker: DockerModel {
                view: DockerViewModel::Logs(
                    LogsModel {
                        lines: logs.lines.push(
                            LogLineView { stream, text: utf8_lossy(encode_utf8(t)) },
                        ),
                        ..logs
                    },
                ),
                ..m.docker
            },
            ..m
        }),
{
    reveal(AppModel::event);
    assert(logs.pending(stream) =~= Seq::<u8>::empty());
    a_line_is_kept_as_it_was_written(logs, stream, t, data@);
}

/// Output of a stream that is not followed changes nothing.
pub proof fn strange_logs_are_ignored(
    m: AppModel,
    sub: u64,
    stream: LogStream,
    data: Vec<u8>,
    now: u64,
    after: Step,
)
    requires
        m.docker.view matches DockerViewModel::Logs(logs) ==> logs.sub_id != sub,
        m.leads_to(
            AppEvent::DaemonEnvelope(
                Envelope {
                    payload: Payload::Event(
                        EventFrame {
                            subscription_id: sub,
                            event: Event::ContainerLog { stream, data },
                        },
                    ),
                },
            ),
            now,
            after,
        ),
    ensures
        after.app == m,
        after.actions.len() == 0,
{
    reveal(AppModel::event);
}

/// `q` and Escape leave the transcript: the stream is given up and the list
/// of containers is back.
pub proof fn leaving_the_transcript_gives_it_up(
    m: AppModel,
    area: Rect,
    logs: LogsModel,
    bytes: Vec<u8>,
    now: u64,
    after: Step,
)
    requires
        at_rest(m, area),
        m.focused == TileId::Docker,
        m.docker.view == DockerViewModel::Logs(logs),
        bytes@ == seq![0x71u8] || bytes@ == seq![0x1bu8],
        m.leads_to(AppEvent::StdinChunk(bytes), now, after),
    ensures
        after.actions == seq![
            ActionView::Send(Request::Unsubscribe { id: logs.sub_id }),
            ActionView::DrawFrame,
        ],
        after.app == (AppModel {
            docker: DockerModel { view: DockerViewModel::List, ..m.docker },
            ..m
        }),
{
    lemma_focus_routes(m, area);
    if bytes@[0] == 0x1b {
        lemma_typed_escape(m, area, ScopeKind::Docker, now);
    } else {
        lemma_typed(m, area, ScopeKind::Docker, bytes@[0], now);
    }
    reveal(AppModel::scope_key);
}

/// Reading a transcript: `k`, Up and `j`, Down go a line back and on, Page-Up
/// and Page-Down ten, `G` and End to the newest line. Going back stops at the
/// oldest line and ends the following of new ones; at the newest it resumes.
pub proof fn keys_move_through_the_transcript(
    m: AppModel,
    area: Rect,
    logs: LogsModel,
    bytes: Vec<u8>,
    now: u64,
    after: Step,
)
    requires
        at_rest(m, area),
        m.focused == TileId::Docker,
        m.docker.view == DockerViewModel::Logs(logs),
        logs.wf(),
        bytes@ == seq![0x6bu8] || bytes@ == seq![0x6au8] || bytes@ == seq![0x47u8] || bytes@
            == seq![0x1bu8, 0x5bu8, 0x41u8] || bytes@ == seq![0x1bu8, 0x5bu8, 0x42u8] || bytes@
            == seq![0x1bu8, 0x5bu8, 0x46u8],
        m.leads_to(AppEvent::StdinChunk(bytes), now, after),
    ensures
        ({
            let up = bytes@ == seq![0x6bu8] || bytes@ == seq![0x1bu8, 0x5bu8, 0x41u8];
            let down = bytes@ == seq![0x6au8] || bytes@ == seq![0x1bu8, 0x5bu8, 0x42u8];
            let at = logs.scroll_offset;
            let to = if up && at + 1 < logs.lines.len() {
                at + 1
            } else if up {
                at
            } else if down && at > 0 {
                at - 1
            } else {
                0
            };
            &&& after.actions == seq![ActionView::DrawFrame]
            &&& after.app == (AppModel {
                docker: DockerModel {
                    view: DockerViewModel::Logs(
                        LogsModel {
                            scroll_offset: to,
                            at_tail: if up {
                                false
                            } else {
                                to == 0 || logs.at_tail
                            },
                            ..logs
                        },
                    ),
                    ..m.docker
                },
                ..m
            })
        }),
{
    lemma_focus_routes(m, area);
    reveal(AppModel::scope_key);
    if bytes@.len() == 1 {
        lemma_typed(m, area, ScopeKind::Docker, bytes@[0], now);
        assert(bytes@ =~= seq![bytes@[0]]);
        assert(bytes@[0] != 0x6b ==> bytes@ != seq![0x6bu8]);
        assert(bytes@[0] != 0x6a ==> bytes@ != seq![0x6au8]);
        assert(bytes@.len() != seq![0x1bu8, 0x5bu8, 0x41u8].len());
        assert(bytes@.len() != seq![0x1bu8, 0x5bu8, 0x42u8].len());
        assert(bytes@.len() != seq![0x1bu8, 0x5bu8, 0x46u8].len());
    } else {
        let last = bytes@[2];
        assert(seq![0x6bu8].len() == 1 && seq![0x6au8].len() == 1 && seq![0x47u8].len() == 1);
        assert(bytes@ =~= seq![0x1bu8, 0x5bu8, last]);
        assert(seq![0x1bu8, 0x5bu8, 0x41u8][2] == 0x41u8);
        assert(seq![0x1bu8, 0x5bu8, 0x42u8][2] == 0x42u8);
        assert(seq![0x1bu8, 0x5bu8, 0x46u8][2] == 0x46u8);
        escapes_and_arrows_go_on(last);
        arrows_are_read();
        home_and_end_are_read();
        let key = if last == 0x41 {
            ScopeKey::Up
        } else if last == 0x42 {
            ScopeKey::Down
        } else {
            ScopeKey::End
        };
        lemma_chunk_is_read(m, ScopeKind::Docker, bytes@, key, now);
    }
}

/// Page-Up and Page-Down move through a transcript by ten lines.
pub proof fn pages_move_by_ten_lines(
    m: AppModel,
    area: Rect,
    logs: LogsModel,
    bytes: Vec<u8>,
    now: u64,
    after: Step,
)
    requires
        at_rest(m, area),
        m.focused == TileId::Docker,
        m.docker.view == DockerViewModel::Logs(logs),
        logs.wf(),
        bytes@ == seq![0x1bu8, 0x5bu8, 0x35u8, 0x7eu8] || bytes@ == seq![
            0x1bu8,
            0x5bu8,
            0x36u8,
            0x7eu8,
        ],
        m.leads_to(AppEvent::StdinChunk(bytes), now, after),
    ensures
        ({
            let up = bytes@[2] == 0x35;
            let at = logs.scroll_offset;
            let to = if up && at + 10 < logs.lines.len() {
                at + 10
            } else if up && logs.lines.len() > 0 {
                logs.lines.len() - 1
            } else if !up && at > 10 {
                at - 10
            } else {
                0
            };
            &&& after.actions == seq![ActionView::DrawFrame]
            &&& after.app == (AppModel {
                docker: DockerModel {
                    view: DockerViewModel::Logs(
                        LogsModel {
                            scroll_offset: to,
                            at_tail: if up {
                                false
                            } else {
                                to == 0 || logs.at_tail
                            },
                            ..logs
                        },
                    ),
                    ..m.docker
                },
                ..m
            })
        }),
{
    lemma_focus_routes(m, area);
    reveal(AppModel::scope_key);
    numbered_keys_go_on(bytes@[2]);
    page_keys_are_read(bytes@[2]);
    let key = if bytes@[2] == 0x35 {
        ScopeKey::PgUp
    } else {
        ScopeKey::PgDn
    };
    lemma_chunk_is_read(m, ScopeKind::Docker, bytes@, key, now);
}

/// Over a transcript no other character does anything: above all, none of
/// those that act on containers.
pub proof fn other_characters_do_nothing_to_a_transcript(
    m: AppModel,
    area: Rect,
    logs: LogsModel,
    b: u8,
    bytes: Vec<u8>,
    now: u64,
    after: Step,
)
    requires
        at_rest(m, area),
        m.focused == TileId::Docker,
        m.docker.view == DockerViewModel::Logs(logs),
        bytes@ == seq![b],
        b != 0x09 && b != 0x02 && b != 0x1b,
        b != 0x71 && b != 0x6b && b != 0x6a && b != 0x47,
        m.leads_to(AppEvent::StdinChunk(bytes), now, after),
    ensures
        after.app == m,
        after.actions.len() == 0,
{
    lemma_focus_routes(m, area);
    lemma_typed(m, area, ScopeKind::Docker, b, now);
    reveal(AppModel::scope_key);
}

} // verus!
