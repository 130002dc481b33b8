//! The daemon status view's connection: who says what, and when it ends.
//!
//! [`link_start`] and [`link_step`] decide; whoever runs them connects,
//! writes, reads and passes notices on, and reports how each went.

use vstd::prelude::*;

use crate::proto::{envelope, Envelope, Event, EventFrame, Payload, Request, StatusSnapshot, Subscription};
use crate::session::{client_name, hello};

verus! {

/// Subscription id of the status stream.
pub const STATUS_SUB_ID: u64 = 1;

/// Whether the daemon is reachable.
#[derive(Debug, Clone)]
pub enum ConnectionState {
    Connecting,
    Connected,
    Disconnected(String),
}

/// What the status view is told.
#[derive(Debug)]
pub enum Notice {
    /// The connection changed.
    State(ConnectionState),
    /// The connection is gone, and why.
    Lost(String),
    /// A fresh snapshot.
    Status(StatusSnapshot),
}

/// What happens next on the connection. The runner reports back after each
/// but the notices.
#[derive(Debug)]
pub enum LinkAction {
    Tell(Notice),
    Connect,
    Write(Envelope),
    Read,
}

/// What the runner reports.
#[derive(Debug)]
pub enum LinkEvent {
    /// Connecting or writing worked.
    Done,
    /// Reading brought a payload.
    Received(Payload),
    /// Connecting, writing or reading failed.
    Failed(String),
    /// Nobody takes notices any more.
    ListenerGone,
}

/// How far the conversation is.
#[derive(Debug, Clone, Copy, PartialEq, Eq, Structural)]
pub enum LinkStage {
    Connecting,
    SayingHello,
    AwaitingWelcome,
    Subscribing,
    Listening,
    Over,
}

/// [`Notice`] with its texts as sequences.
#[verifier::ext_equal]
pub ghost enum NoticeView {
    Connecting,
    Connected,
    Disconnected(Seq<char>),
    Lost(Seq<char>),
    Status(StatusSnapshot),
}

impl View for Notice {
    type V = NoticeView;

    open spec fn view(&self) -> NoticeView {
        match *self {
            Notice::State(ConnectionState::Connecting) => NoticeView::Connecting,
            Notice::State(ConnectionState::Connected) => NoticeView::Connected,
            Notice::State(ConnectionState::Disconnected(reason)) => NoticeView::Disconnected(
                reason@,
            ),
            Notice::Lost(reason) => NoticeView::Lost(reason@),
            Notice::Status(snapshot) => NoticeView::Status(snapshot),
        }
    }
}

/// [`LinkAction`] with its contents viewed.
#[verifier::ext_equal]
pub ghost enum LinkActionView {
    Tell(NoticeView),
    Connect,
    Write(Request),
    Read,
}

impl View for LinkAction {
    type V = LinkActionView;

    open spec fn view(&self) -> LinkActionView {
        match *self {
            LinkAction::Tell(notice) => LinkActionView::Tell(notice@),
            LinkAction::Connect => LinkActionView::Connect,
            LinkAction::Write(e) => LinkActionView::Write(e@),
            LinkAction::Read => LinkActionView::Read,
        }
    }
}

/// The views of a list of actions.
pub open spec fn link_views(actions: Seq<LinkAction>) -> Seq<LinkActionView> {
    actions.map_values(|a: LinkAction| a@)
}

/// The connection starts by telling the view, and connects.
pub fn link_start() -> (r: (LinkStage, Vec<LinkAction>))
    ensures
        r.0 == LinkStage::Connecting,
        link_views(r.1@) == seq![
            LinkActionView::Tell(NoticeView::Connecting),
            LinkActionView::Connect,
        ],
{
    let mut actions: Vec<LinkAction> = Vec::new();
    actions.push(LinkAction::Tell(Notice::State(ConnectionState::Connecting)));
    actions.push(LinkAction::Connect);
    assert(link_views(actions@) =~= seq![
        LinkActionView::Tell(NoticeView::Connecting),
        LinkActionView::Connect,
    ]);
    (LinkStage::Connecting, actions)
}

/// What a failure at a stage is called. Once snapshots arrive it needs no
/// name.
pub open spec fn failure_prefix(stage: LinkStage) -> Seq<char> {
    match stage {
        LinkStage::Connecting => "connect: "@,
        LinkStage::SayingHello => "hello: "@,
        LinkStage::AwaitingWelcome => "welcome: "@,
        LinkStage::Subscribing => "subscribe: "@,
        LinkStage::Listening | LinkStage::Over => ""@,
    }
}

/// The conversation's rules.
pub open spec fn link_next(stage: LinkStage, event: LinkEvent) -> (LinkStage, Seq<LinkActionView>) {
    match (stage, event) {
        (LinkStage::Over, _) => (LinkStage::Over, Seq::empty()),
        (_, LinkEvent::Failed(why)) => (
            LinkStage::Over,
            seq![LinkActionView::Tell(NoticeView::Lost(failure_prefix(stage) + why@))],
        ),
        (LinkStage::Connecting, LinkEvent::Done) => (
            LinkStage::SayingHello,
            seq![LinkActionView::Write(Request::Hello { client_name: client_name() })],
        ),
        (LinkStage::SayingHello, LinkEvent::Done) => (
            LinkStage::AwaitingWelcome,
            seq![LinkActionView::Read],
        ),
        (LinkStage::AwaitingWelcome, LinkEvent::Received(_)) => (
            LinkStage::Subscribing,
            seq![
                LinkActionView::Tell(NoticeView::Connected),
                LinkActionView::Write(Request::SubscribeStatus { id: STATUS_SUB_ID }),
            ],
        ),
        (LinkStage::Subscribing, LinkEvent::Done) => (
            LinkStage::Listening,
            seq![LinkActionView::Read],
        ),
        (LinkStage::Listening, LinkEvent::Received(payload)) => (
            LinkStage::Listening,
            match payload {
                Payload::Event(EventFrame { event: Event::Status(snapshot), .. }) => seq![
                    LinkActionView::Tell(NoticeView::Status(snapshot)),
                    LinkActionView::Read,
                ],
                _ => seq![LinkActionView::Read],
            },
        ),
        (LinkStage::Listening, LinkEvent::ListenerGone) => (LinkStage::Over, Seq::empty()),
        _ => (stage, Seq::empty()),
    }
}

fn lost(stage: LinkStage, why: &str) -> (notice: Notice)
    ensures
        notice@ == NoticeView::Lost(failure_prefix(stage) + why@),
{
    let prefix: &str = match stage {
        LinkStage::Connecting => "connect: ",
        LinkStage::SayingHello => "hello: ",
        LinkStage::AwaitingWelcome => "welcome: ",
        LinkStage::Subscribing => "subscribe: ",
        LinkStage::Listening | LinkStage::Over => "",
    };
    Notice::Lost(String::from_str(prefix).concat(why))
}

/// Decides what follows a report.
pub fn link_step(stage: LinkStage, event: LinkEvent) -> (r: (LinkStage, Vec<LinkAction>))
    ensures
        (r.0, link_views(r.1@)) == link_next(stage, event),
{
    let mut actions: Vec<LinkAction> = Vec::new();
    let ghost rules = link_next(stage, event);
    let next: LinkStage = match (stage, event) {
        (LinkStage::Over, _) => LinkStage::Over,
        (_, LinkEvent::Failed(why)) => {
            actions.push(LinkAction::Tell(lost(stage, why.as_str())));
            LinkStage::Over
        },
        (LinkStage::Connecting, LinkEvent::Done) => {
            actions.push(LinkAction::Write(hello()));
            LinkStage::SayingHello
        },
        (LinkStage::SayingHello, LinkEvent::Done) => {
            actions.push(LinkAction::Read);
            LinkStage::AwaitingWelcome
        },
        (LinkStage::AwaitingWelcome, LinkEvent::Received(_)) => {
            actions.push(LinkAction::Tell(Notice::State(ConnectionState::Connected)));
            let subscribe = envelope(
                Payload::Subscribe(Subscription::Status { id: STATUS_SUB_ID }),
            );
            actions.push(LinkAction::Write(subscribe));
            LinkStage::Subscribing
        },
        (LinkStage::Subscribing, LinkEvent::Done) => {
            actions.push(LinkAction::Read);
            LinkStage::Listening
        },
        (LinkStage::Listening, LinkEvent::Received(payload)) => {
            match payload {
                Payload::Event(EventFrame { event: Event::Status(snapshot), .. }) => {
                    actions.push(LinkAction::Tell(Notice::Status(snapshot)));
                },
                _ => {},
            }
            actions.push(LinkAction::Read);
            LinkStage::Listening
        },
        (LinkStage::Listening, LinkEvent::ListenerGone) => LinkStage::Over,
        _ => stage,
    };
    assert(link_views(actions@) =~= rules.1);
    (next, actions)
}

/// After a failure the view is told once and the conversation is over for
/// good: whatever is reported next, nothing more happens.
pub proof fn a_failure_ends_the_conversation(stage: LinkStage, why: String, later: LinkEvent)
    requires
        stage != LinkStage::Over,
    ensures
        link_next(stage, LinkEvent::Failed(why)).0 == LinkStage::Over,
        link_next(stage, LinkEvent::Failed(why)).1.len() == 1,
        link_next(LinkStage::Over, later) == (LinkStage::Over, Seq::<LinkActionView>::empty()),
{
}

/// Snapshots are passed on only after the subscription was written.
pub proof fn snapshots_need_a_subscription(stage: LinkStage, event: LinkEvent, snapshot: StatusSnapshot)
    requires
        link_next(stage, event).1.contains(LinkActionView::Tell(NoticeView::Status(snapshot))),
    ensures
        stage == LinkStage::Listening,
{
    let actions = link_next(stage, event).1;
    let i = choose|i: int|
        0 <= i < actions.len() && actions[i] == LinkActionView::Tell(
            NoticeView::Status(snapshot),
        );
    assert(actions[i] == LinkActionView::Tell(NoticeView::Status(snapshot)));
}

/// What polling the keyboard brought.
#[derive(Debug, Clone, Copy, PartialEq, Eq, Structural)]
pub enum Polled {
    /// A key went down.
    KeyPress,
    /// The terminal has a new size.
    Resized,
    /// Anything else, a key going up among it.
    Other,
    /// Nothing within the time limit.
    Nothing,
    /// Polling or reading failed.
    Failed,
}

/// What the input loop does about it.
#[derive(Debug, Clone, Copy, PartialEq, Eq, Structural)]
pub enum InputReaction {
    PassKey,
    Redraw,
    GoOn,
    Stop,
}

/// Decides what the input loop does. While there is input the listener is
/// found gone only when something is passed on to it; when there is none,
/// `listener_gone` tells.
pub fn input_reaction(polled: Polled, listener_gone: bool) -> (r: InputReaction)
    ensures
        r == (match polled {
            Polled::KeyPress => InputReaction::PassKey,
            Polled::Resized => InputReaction::Redraw,
            Polled::Other => InputReaction::GoOn,
            Polled::Nothing => if listener_gone {
                InputReaction::Stop
            } else {
                InputReaction::GoOn
            },
            Polled::Failed => InputReaction::Stop,
        }),
{
    match polled {
        Polled::KeyPress => InputReaction::PassKey,
        Polled::Resized => InputReaction::Redraw,
        Polled::Other => InputReaction::GoOn,
        Polled::Nothing => if listener_gone {
            InputReaction::Stop
        } else {
            InputReaction::GoOn
        },
        Polled::Failed => InputReaction::Stop,
    }
}

} // verus!
