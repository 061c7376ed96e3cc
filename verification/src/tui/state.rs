//! What the terminal interface shows.
use vstd::prelude::*;
use vstd::string::*;

use crate::text;

verus! {

/// The panes of the interface.
#[derive(Clone, Copy, Debug, PartialEq, Eq, Structural)]
pub enum Pane {
    Editor,
    Transcript,
    Actors,
    Activity,
    Todos,
}

/// An actor, as it is shown.
#[derive(Debug)]
pub struct ActorRow {
    pub id: String,
    pub name: String,
    pub state: String,
    pub outcome: Option<String>,
    /// The id of the actor that started this one; empty where none did.
    pub spawned_by: String,
}

/// What an [`ActorRow`] holds.
pub struct ActorRowView {
    pub id: Seq<char>,
    pub name: Seq<char>,
    pub state: Seq<char>,
    pub outcome: Option<Seq<char>>,
    pub spawned_by: Seq<char>,
}

impl View for ActorRow {
    type V = ActorRowView;

    open spec fn view(&self) -> ActorRowView {
        ActorRowView {
            id: self.id@,
            name: self.name@,
            state: self.state@,
            outcome: text::opt_view(self.outcome),
            spawned_by: self.spawned_by@,
        }
    }
}

/// An entry of the activity ledger, as it is shown.
#[derive(Debug)]
pub struct ActivityUiRow {
    pub kind: String,
    pub title: String,
    pub summary: String,
    pub detail: Option<String>,
    pub source_name: String,
    /// When it was produced, in RFC 3339 notation.
    pub produced_at: String,
    pub seen: bool,
}

/// What an [`ActivityUiRow`] holds.
pub struct ActivityUiRowView {
    pub kind: Seq<char>,
    pub title: Seq<char>,
    pub summary: Seq<char>,
    pub detail: Option<Seq<char>>,
    pub source_name: Seq<char>,
    pub produced_at: Seq<char>,
    pub seen: bool,
}

impl View for ActivityUiRow {
    type V = ActivityUiRowView;

    open spec fn view(&self) -> ActivityUiRowView {
        ActivityUiRowView {
            kind: self.kind@,
            title: self.title@,
            summary: self.summary@,
            detail: text::opt_view(self.detail),
            source_name: self.source_name@,
            produced_at: self.produced_at@,
            seen: self.seen,
        }
    }
}

/// A todo, as it is shown.
#[derive(Debug)]
pub struct TodoRow {
    pub title: String,
    pub status: String,
    pub priority: String,
    pub due_date: Option<String>,
}

/// What a [`TodoRow`] holds.
pub struct TodoRowView {
    pub title: Seq<char>,
    pub status: Seq<char>,
    pub priority: Seq<char>,
    pub due_date: Option<Seq<char>>,
}

impl View for TodoRow {
    type V = TodoRowView;

    open spec fn view(&self) -> TodoRowView {
        TodoRowView {
            title: self.title@,
            status: self.status@,
            priority: self.priority@,
            due_date: text::opt_view(self.due_date),
        }
    }
}

/// Everything that is shown.
#[derive(Debug)]
pub struct AppState {
    pub sidebar_visible: bool,
    pub focused_pane: Pane,
    pub actors: Vec<ActorRow>,
    /// Newest first.
    pub activity: Vec<ActivityUiRow>,
    pub activity_selected: usize,
    /// The entry whose popup is open.
    pub activity_detail: Option<usize>,
    pub unseen_insights: i64,
    pub todos: Vec<TodoRow>,
}

/// What an [`AppState`] holds.
pub struct AppStateView {
    pub sidebar_visible: bool,
    pub focused_pane: Pane,
    pub actors: Seq<ActorRowView>,
    pub activity: Seq<ActivityUiRowView>,
    pub activity_selected: nat,
    pub activity_detail: Option<nat>,
    pub unseen_insights: int,
    pub todos: Seq<TodoRowView>,
}

impl View for AppState {
    type V = AppStateView;

    open spec fn view(&self) -> AppStateView {
        AppStateView {
            sidebar_visible: self.sidebar_visible,
            focused_pane: self.focused_pane,
            actors: text::views(self.actors@),
            activity: text::views(self.activity@),
            activity_selected: self.activity_selected as nat,
            activity_detail: match self.activity_detail {
                Some(index) => Some(index as nat),
                None => None,
            },
            unseen_insights: self.unseen_insights as int,
            todos: text::views(self.todos@),
        }
    }
}

} // verus!
