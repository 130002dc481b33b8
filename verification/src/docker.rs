//! State of the Docker tile.

use vstd::prelude::*;

use crate::list::{
    clamp, clamp_selection, fresh_cursor, matches_filter, nth_visible, row_matches, visible,
    visible_count, Cursor, FilterRow,
};
use crate::logs::{LogsModel, LogsView};
use crate::proto::{DockerActionKind, DockerContainer, ScopeTarget};
use crate::text::{
    byte_prefix, lowercase, prefix_bytes, texts, to_lowercase, trim_leading, without_leading,
};

verus! {

/// Lifecycle of the Docker tile. "Not heard yet", "no containers" and
/// "engine unreachable" are different things to a user.
#[derive(Debug)]
pub enum DockerScopeState {
    /// Not subscribed yet.
    Idle,
    /// Subscribed; no event has arrived.
    Connecting,
    /// The engine's containers, perhaps none.
    Available { containers: Vec<DockerContainer>, engine_source: String },
    /// The engine is unreachable. `reason` is the daemon's wording.
    Unavailable { reason: String },
}

/// What the Docker tile shows.
#[derive(Debug)]
pub enum DockerView {
    /// The container list.
    List,
    /// One container's log stream.
    Logs(LogsView),
}

/// Prompt before a destructive action.
#[derive(Debug)]
pub struct PendingConfirm {
    pub kind: DockerActionKind,
    pub container_id: String,
    pub container_name: String,
    /// When the prompt cancels itself, in milliseconds.
    pub deadline: u64,
}

/// The Docker tile.
#[derive(Debug)]
pub struct DockerScope {
    pub state: DockerScopeState,
    pub view: DockerView,
    /// Index into the rows that the filter lets through.
    pub selection: usize,
    pub filter: String,
    /// Keys go to the filter.
    pub filter_active: bool,
    /// Subscription of the container list. It lives as long as the session.
    pub sub_id: u64,
    pub pending_confirm: Option<PendingConfirm>,
    /// The machine whose engine is shown.
    pub target: ScopeTarget,
}

/// [`DockerView`] with its transcript viewed.
#[verifier::ext_equal]
pub ghost enum DockerViewModel {
    List,
    Logs(LogsModel),
}

impl View for DockerView {
    type V = DockerViewModel;

    open spec fn view(&self) -> DockerViewModel {
        match self {
            DockerView::List => DockerViewModel::List,
            DockerView::Logs(logs) => DockerViewModel::Logs(logs@),
        }
    }
}

/// [`PendingConfirm`] with its texts as sequences of characters.
#[verifier::ext_equal]
pub ghost struct ConfirmModel {
    pub kind: DockerActionKind,
    pub container_id: Seq<char>,
    pub container_name: Seq<char>,
    pub deadline: u64,
}

impl View for PendingConfirm {
    type V = ConfirmModel;

    open spec fn view(&self) -> ConfirmModel {
        ConfirmModel {
            kind: self.kind,
            container_id: self.container_id@,
            container_name: self.container_name@,
            deadline: self.deadline,
        }
    }
}

/// [`DockerScope`] with its mutable parts viewed.
#[verifier::ext_equal]
pub ghost struct DockerModel {
    pub state: DockerScopeState,
    pub view: DockerViewModel,
    pub cursor: Cursor,
    pub sub_id: u64,
    pub confirm: Option<ConfirmModel>,
    pub target: ScopeTarget,
}

impl View for DockerScope {
    type V = DockerModel;

    open spec fn view(&self) -> DockerModel {
        DockerModel {
            state: self.state,
            view: self.view@,
            cursor: Cursor {
                selection: self.selection as int,
                filter: self.filter@,
                filter_active: self.filter_active,
            },
            sub_id: self.sub_id,
            confirm: match self.pending_confirm {
                Some(confirm) => Some(confirm@),
                None => None,
            },
            target: self.target,
        }
    }
}

impl FilterRow for DockerContainer {
    /// The container's names and its image.
    open spec fn haystacks(&self) -> Seq<Seq<char>> {
        texts(self.names@).map_values(|name: Seq<char>| lowercase(name)).push(
            lowercase(self.image@),
        )
    }

    fn filter_texts(&self) -> (r: Vec<String>) {
        let mut out: Vec<String> = Vec::new();
        let n: usize = self.names.len();
        let mut i: usize = 0;
        while i < n
            invariant
                n == self.names@.len(),
                0 <= i <= n,
                out@.len() == i,
                forall|j: int| 0 <= j < i ==> (#[trigger] out@[j])@ == lowercase(self.names@[j]@),
            decreases n - i,
        {
            out.push(to_lowercase(self.names[i].as_str()));
            i += 1;
        }
        out.push(to_lowercase(self.image.as_str()));
        assert(texts(out@) =~= self.haystacks());
        out
    }
}

impl DockerScopeState {
    /// The engine's containers; none unless it is available.
    pub open spec fn rows(self) -> Seq<DockerContainer> {
        match self {
            DockerScopeState::Available { containers, .. } => containers@,
            _ => Seq::empty(),
        }
    }
}

impl DockerModel {
    /// The containers that the tile lists.
    pub open spec fn shown(self) -> Seq<DockerContainer> {
        visible(self.state.rows(), self.cursor.filter)
    }

    /// The selected container.
    pub open spec fn selected(self) -> Option<DockerContainer> {
        if 0 <= self.cursor.selection < self.shown().len() {
            Some(self.shown()[self.cursor.selection])
        } else {
            None
        }
    }

    /// The cursor moved onto a listed container.
    pub open spec fn clamped(self) -> DockerModel {
        DockerModel {
            cursor: Cursor {
                selection: clamp(self.cursor.selection, self.shown().len()),
                ..self.cursor
            },
            ..self
        }
    }

    /// A prompt is open only while the list is shown, and the logs view, if
    /// open, is well formed.
    pub open spec fn wf(self) -> bool {
        match self.view {
            DockerViewModel::List => true,
            DockerViewModel::Logs(logs) => self.confirm is None && logs.wf(),
        }
    }

    /// The logs view is open and follows subscription `sub_id`.
    pub open spec fn follows(self, sub_id: u64) -> bool {
        match self.view {
            DockerViewModel::List => false,
            DockerViewModel::Logs(logs) => logs.sub_id == sub_id,
        }
    }
}

proof fn lemma_no_rows(filter: Seq<char>)
    ensures
        visible(Seq::<DockerContainer>::empty(), filter).len() == 0,
{
    reveal(Seq::filter);
}

impl DockerScope {
    /// A tile that has subscribed and waits for the first event.
    pub fn new(sub_id: u64) -> (d: DockerScope)
        ensures
            d@ == (DockerModel {
                state: DockerScopeState::Connecting,
                view: DockerViewModel::List,
                cursor: fresh_cursor(),
                sub_id,
                confirm: None,
                target: ScopeTarget::Local,
            }),
    {
        DockerScope {
            state: DockerScopeState::Connecting,
            view: DockerView::List,
            selection: 0,
            filter: String::new(),
            filter_active: false,
            sub_id,
            pending_confirm: None,
            target: ScopeTarget::Local,
        }
    }

    /// Whether the logs view is open and follows subscription `sub_id`.
    pub fn is_current_logs_sub(&self, sub_id: u64) -> (r: bool)
        ensures
            r == self@.follows(sub_id),
    {
        match &self.view {
            DockerView::Logs(logs) => logs.sub_id == sub_id,
            DockerView::List => false,
        }
    }

    /// Whether the filter lets the container through.
    pub fn matches_filter(&self, c: &DockerContainer) -> (r: bool)
        ensures
            r == row_matches(self.filter@, *c),
    {
        matches_filter(&self.filter, c)
    }

    /// How many containers are listed.
    pub fn visible_count(&self) -> (n: usize)
        ensures
            n == self@.shown().len(),
    {
        match &self.state {
            DockerScopeState::Available { containers, .. } => visible_count(
                containers,
                &self.filter,
            ),
            _ => {
                proof {
                    lemma_no_rows(self.filter@);
                }
                0
            },
        }
    }

    /// The selected container.
    pub fn selected_container(&self) -> (r: Option<&DockerContainer>)
        ensures
            match r {
                Some(c) => self@.selected() == Some(*c),
                None => self@.selected() is None,
            },
    {
        match &self.state {
            DockerScopeState::Available { containers, .. } => nth_visible(
                containers,
                &self.filter,
                self.selection,
            ),
            _ => {
                proof {
                    lemma_no_rows(self.filter@);
                }
                None
            },
        }
    }

    /// Moves the cursor onto a listed container, or to the top of an empty
    /// list.
    pub fn clamp_selection(&mut self)
        ensures
            final(self)@ == old(self)@.clamped(),
    {
        let n: usize = self.visible_count();
        self.selection = clamp_selection(self.selection, n);
    }
}

/// The name a container is shown by: its first name without leading slashes,
/// or the first twelve bytes of its id where that leaves nothing.
pub open spec fn spec_display_name(c: DockerContainer) -> Seq<char> {
    if c.names@.len() > 0 && without_leading(c.names@[0]@, '/').len() > 0 {
        without_leading(c.names@[0]@, '/')
    } else {
        match byte_prefix(c.id@, 12) {
            Some(short) => short,
            None => c.id@,
        }
    }
}

/// The name a container is shown by.
pub fn display_name_for(c: &DockerContainer) -> (name: String)
    ensures
        name@ == spec_display_name(*c),
{
    if c.names.len() > 0 {
        let trimmed = trim_leading(c.names[0].as_str(), '/');
        if !trimmed.as_str().is_empty() {
            return trimmed;
        }
    }
    match prefix_bytes(c.id.as_str(), 12) {
        Some(short) => short.to_owned(),
        None => c.id.clone(),
    }
}

} // verus!
