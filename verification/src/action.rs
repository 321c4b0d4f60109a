//! What the update loop asks for once a message is handled.
use vstd::prelude::*;
use crate::keymap::message::Mode;
use crate::message::{Message, MessageView};
use crate::task::{Task, TaskView};

verus! {

/// A request of the update loop to the world around it.
#[derive(Debug, PartialEq, Eq)]
pub enum Action {
    /// Feed these messages back into the loop.
    EmitMessages(Vec<Message>),
    /// Tell the key resolver that the mode is now this one.
    ModeChanged(Mode),
    Quit,
    Resize(u16, u16),
    /// Background work to start.
    Task(Task),
    /// Stop watching this path.
    UnwatchPath(String),
    /// Watch this path.
    WatchPath(String),
}

/// An action as plain values.
pub enum ActionView {
    EmitMessages(Seq<MessageView>),
    ModeChanged(Mode),
    Quit,
    Resize(u16, u16),
    Task(TaskView),
    UnwatchPath(Seq<char>),
    WatchPath(Seq<char>),
}

impl DeepView for Action {
    type V = ActionView;

    open spec fn deep_view(&self) -> ActionView {
        match self {
            Action::EmitMessages(messages) => ActionView::EmitMessages(messages.deep_view()),
            Action::ModeChanged(mode) => ActionView::ModeChanged(*mode),
            Action::Quit => ActionView::Quit,
            Action::Resize(width, height) => ActionView::Resize(*width, *height),
            Action::Task(task) => ActionView::Task(task.deep_view()),
            Action::UnwatchPath(path) => ActionView::UnwatchPath(path@),
            Action::WatchPath(path) => ActionView::WatchPath(path@),
        }
    }
}

} // verus!
