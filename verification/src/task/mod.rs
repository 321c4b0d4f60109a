//! Background tasks: what they are, when two of them are the same, and the
//! manager that decides which run and which are cancelled.
//!
//! The manager does not run anything. It is the state machine behind the
//! running: it hands out handles, says which handle to cancel and which to
//! start, and collects the errors that finished tasks report. Whoever
//! drives it performs those actions and reports back.
use vstd::prelude::*;
use crate::message::{
    messages_identity, same_messages, Message, MessageIdentity, MessageView,
};
use crate::model::history::{History, HistoryNodeView};
use crate::model::register::{
    entry_identity, RegisterEntry, RegisterEntryIdentity, RegisterEntryView,
};
use crate::path::{is_same_path, path_components};

pub mod enumeration;
pub mod manager;
pub mod path;
pub mod preview;

verus! {

/// A unit of background work. Its variant and payload are its identity.
#[derive(Debug, PartialEq, Eq)]
pub enum Task {
    AddPath(String),
    DeleteMarks(Vec<char>),
    DeletePath(String),
    DeleteRegisterEntry(RegisterEntry),
    EmitMessages(Vec<Message>),
    EnumerateDirectory(String),
    LoadPreview(String),
    OptimizeHistory,
    RenamePath(String, String),
    RestorePath(RegisterEntry, String),
    SaveHistory(History),
    TrashPath(RegisterEntry),
    YankPath(RegisterEntry),
}

/// The identity of a task: its variant and payload as plain values.
pub enum TaskView {
    AddPath(Seq<char>),
    DeleteMarks(Seq<char>),
    DeletePath(Seq<char>),
    DeleteRegisterEntry(RegisterEntryView),
    EmitMessages(Seq<MessageView>),
    EnumerateDirectory(Seq<char>),
    LoadPreview(Seq<char>),
    OptimizeHistory,
    RenamePath(Seq<char>, Seq<char>),
    RestorePath(RegisterEntryView, Seq<char>),
    SaveHistory(Seq<HistoryNodeView>),
    TrashPath(RegisterEntryView),
    YankPath(RegisterEntryView),
}

impl DeepView for Task {
    type V = TaskView;

    open spec fn deep_view(&self) -> TaskView {
        match self {
            Task::AddPath(path) => TaskView::AddPath(path@),
            Task::DeleteMarks(marks) => TaskView::DeleteMarks(marks@),
            Task::DeletePath(path) => TaskView::DeletePath(path@),
            Task::DeleteRegisterEntry(entry) => TaskView::DeleteRegisterEntry(entry.deep_view()),
            Task::EmitMessages(messages) => TaskView::EmitMessages(messages.deep_view()),
            Task::EnumerateDirectory(path) => TaskView::EnumerateDirectory(path@),
            Task::LoadPreview(path) => TaskView::LoadPreview(path@),
            Task::OptimizeHistory => TaskView::OptimizeHistory,
            Task::RenamePath(old, new) => TaskView::RenamePath(old@, new@),
            Task::RestorePath(entry, path) => TaskView::RestorePath(entry.deep_view(), path@),
            Task::SaveHistory(history) => TaskView::SaveHistory(history.deep_view()),
            Task::TrashPath(entry) => TaskView::TrashPath(entry.deep_view()),
            Task::YankPath(entry) => TaskView::YankPath(entry.deep_view()),
        }
    }
}

/// What makes a task the same as another: its variant and payload, where a
/// path counts by its components.
pub enum TaskIdentity {
    AddPath(Seq<Seq<char>>),
    DeleteMarks(Seq<char>),
    DeletePath(Seq<Seq<char>>),
    DeleteRegisterEntry(RegisterEntryIdentity),
    EmitMessages(Seq<MessageIdentity>),
    EnumerateDirectory(Seq<Seq<char>>),
    LoadPreview(Seq<Seq<char>>),
    OptimizeHistory,
    RenamePath(Seq<Seq<char>>, Seq<Seq<char>>),
    RestorePath(RegisterEntryIdentity, Seq<Seq<char>>),
    SaveHistory(Seq<HistoryNodeView>),
    TrashPath(RegisterEntryIdentity),
    YankPath(RegisterEntryIdentity),
}

/// The identity of a task. Two tasks of the same identity are one for the
/// manager: running the one cancels the other.
pub open spec fn identity_of(task: TaskView) -> TaskIdentity {
    match task {
        TaskView::AddPath(path) => TaskIdentity::AddPath(path_components(path)),
        TaskView::DeleteMarks(marks) => TaskIdentity::DeleteMarks(marks),
        TaskView::DeletePath(path) => TaskIdentity::DeletePath(path_components(path)),
        TaskView::DeleteRegisterEntry(entry) => TaskIdentity::DeleteRegisterEntry(
            entry_identity(entry),
        ),
        TaskView::EmitMessages(messages) => TaskIdentity::EmitMessages(
            messages_identity(messages),
        ),
        TaskView::EnumerateDirectory(path) => TaskIdentity::EnumerateDirectory(
            path_components(path),
        ),
        TaskView::LoadPreview(path) => TaskIdentity::LoadPreview(path_components(path)),
        TaskView::OptimizeHistory => TaskIdentity::OptimizeHistory,
        TaskView::RenamePath(old, new) => TaskIdentity::RenamePath(
            path_components(old),
            path_components(new),
        ),
        TaskView::RestorePath(entry, path) => TaskIdentity::RestorePath(
            entry_identity(entry),
            path_components(path),
        ),
        TaskView::SaveHistory(history) => TaskIdentity::SaveHistory(history),
        TaskView::TrashPath(entry) => TaskIdentity::TrashPath(entry_identity(entry)),
        TaskView::YankPath(entry) => TaskIdentity::YankPath(entry_identity(entry)),
    }
}

/// Whether two tasks have the same identity.
pub open spec fn same_task(a: TaskView, b: TaskView) -> bool {
    identity_of(a) == identity_of(b)
}

impl TaskView {
    /// Whether a task of this identity is cancelled when the session ends.
    /// The others change paths or persist state and must run to their end.
    pub open spec fn aborts_on_finish(self) -> bool {
        match self {
            TaskView::EmitMessages(_) => true,
            TaskView::EnumerateDirectory(_) => true,
            TaskView::LoadPreview(_) => true,
            TaskView::AddPath(_) => false,
            TaskView::DeleteMarks(_) => false,
            TaskView::DeletePath(_) => false,
            TaskView::DeleteRegisterEntry(_) => false,
            TaskView::OptimizeHistory => false,
            TaskView::RenamePath(_, _) => false,
            TaskView::RestorePath(_, _) => false,
            TaskView::SaveHistory(_) => false,
            TaskView::TrashPath(_) => false,
            TaskView::YankPath(_) => false,
        }
    }
}

/// Whether two lists of characters are the same.
fn same_chars(a: &Vec<char>, b: &Vec<char>) -> (same: bool)
    ensures
        same == (a@ == b@),
{
    if a.len() != b.len() {
        return false;
    }
    let mut i: usize = 0;
    while i < a.len()
        invariant
            i <= a.len(),
            a.len() == b.len(),
            forall|j: int| 0 <= j < i ==> a@[j] == b@[j],
        decreases a.len() - i,
    {
        if a[i] != b[i] {
            return false;
        }
        i += 1;
    }
    proof {
        assert(a@ =~= b@);
    }
    true
}

impl Task {
    /// Whether two tasks have the same identity.
    pub fn same(&self, other: &Task) -> (same: bool)
        ensures
            same == same_task(self.deep_view(), other.deep_view()),
    {
        match (self, other) {
            (Task::AddPath(a), Task::AddPath(b)) => is_same_path(a.as_str(), b.as_str()),
            (Task::DeleteMarks(a), Task::DeleteMarks(b)) => same_chars(a, b),
            (Task::DeletePath(a), Task::DeletePath(b)) => is_same_path(a.as_str(), b.as_str()),
            (Task::DeleteRegisterEntry(a), Task::DeleteRegisterEntry(b)) => a.same(b),
            (Task::EmitMessages(a), Task::EmitMessages(b)) => same_messages(a, b),
            (Task::EnumerateDirectory(a), Task::EnumerateDirectory(b)) => is_same_path(
                a.as_str(),
                b.as_str(),
            ),
            (Task::LoadPreview(a), Task::LoadPreview(b)) => is_same_path(a.as_str(), b.as_str()),
            (Task::OptimizeHistory, Task::OptimizeHistory) => true,
            (Task::RenamePath(a, c), Task::RenamePath(b, d)) => is_same_path(
                a.as_str(),
                b.as_str(),
            ) && is_same_path(c.as_str(), d.as_str()),
            (Task::RestorePath(a, c), Task::RestorePath(b, d)) => a.same(b) && is_same_path(
                c.as_str(),
                d.as_str(),
            ),
            (Task::SaveHistory(a), Task::SaveHistory(b)) => a.same(b),
            (Task::TrashPath(a), Task::TrashPath(b)) => a.same(b),
            (Task::YankPath(a), Task::YankPath(b)) => a.same(b),
            _ => false,
        }
    }
}

/// Whether `task` is cancelled when the session ends.
pub fn should_abort_on_finish(task: &Task) -> (abort: bool)
    ensures
        abort == task.deep_view().aborts_on_finish(),
{
    match task {
        Task::AddPath(_) => false,
        Task::DeleteMarks(_) => false,
        Task::DeletePath(_) => false,
        Task::DeleteRegisterEntry(_) => false,
        Task::EmitMessages(_) => true,
        Task::EnumerateDirectory(_) => true,
        Task::LoadPreview(_) => true,
        Task::OptimizeHistory => false,
        Task::RenamePath(_, _) => false,
        Task::RestorePath(_, _) => false,
        Task::SaveHistory(_) => false,
        Task::TrashPath(_) => false,
        Task::YankPath(_) => false,
    }
}

} // verus!
