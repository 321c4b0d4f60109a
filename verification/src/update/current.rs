//! What concerns the buffer of the current directory.
use vstd::prelude::*;
use crate::action::{Action, ActionView};
use crate::layout::{AppLayout, Rect};
use crate::model::buffer::{BufferView, ViewPort};
use crate::model::{Model, ModelView};
use crate::path::{join, path_join};
use crate::task::{Task, TaskView};

verus! {

/// A change to a buffer that has not been written yet.
#[derive(Clone, Debug, PartialEq, Eq)]
pub enum BufferChanged {
    /// The line with this index had the first content and has the second.
    Content(usize, String, String),
    /// A line with this content was added at this index.
    LineAdded(usize, String),
    /// The line with this content was removed at this index.
    LineRemoved(usize, String),
}

/// A change to a buffer as plain values.
pub enum BufferChangedView {
    Content(usize, Seq<char>, Seq<char>),
    LineAdded(usize, Seq<char>),
    LineRemoved(usize, Seq<char>),
}

impl DeepView for BufferChanged {
    type V = BufferChangedView;

    open spec fn deep_view(&self) -> BufferChangedView {
        match self {
            BufferChanged::Content(index, old, new) => BufferChangedView::Content(
                *index,
                old@,
                new@,
            ),
            BufferChanged::LineAdded(index, name) => BufferChangedView::LineAdded(*index, name@),
            BufferChanged::LineRemoved(index, name) => BufferChangedView::LineRemoved(
                *index,
                name@,
            ),
        }
    }
}

/// What a buffer answers when it is asked to save.
#[derive(Clone, Debug, PartialEq, Eq)]
pub enum BufferResult {
    /// The changes since the buffer was last saved, with those left out
    /// that cancel each other.
    Changes(Vec<BufferChanged>),
    CursorPositionChanged,
}

/// A buffer's answer as plain values.
pub enum BufferResultView {
    Changes(Seq<BufferChangedView>),
    CursorPositionChanged,
}

impl DeepView for BufferResult {
    type V = BufferResultView;

    open spec fn deep_view(&self) -> BufferResultView {
        match self {
            BufferResult::Changes(changes) => BufferResultView::Changes(changes.deep_view()),
            BufferResult::CursorPositionChanged => BufferResultView::CursorPositionChanged,
        }
    }
}

/// The viewport with the width and height of `rect`.
pub open spec fn with_dimensions(vp: ViewPort, rect: Rect) -> ViewPort {
    ViewPort { height: rect.height as usize, width: rect.width as usize, ..vp }
}

/// Gives the viewport the width and height of `rect`.
pub fn set_viewport_dimensions(vp: &mut ViewPort, rect: &Rect)
    ensures
        *final(vp) == with_dimensions(*old(vp), *rect),
{
    vp.height = rect.height as usize;
    vp.width = rect.width as usize;
}

/// The model with the viewport of the current buffer fitted to the layout.
pub open spec fn fitted(model: ModelView, layout: AppLayout) -> ModelView {
    ModelView {
        current: BufferView {
            view_port: with_dimensions(model.current.view_port, layout.current),
            ..model.current
        },
        ..model
    }
}

/// Fits the viewport of the current buffer to the layout. What the message
/// does to the text of the buffer is the buffer's own business.
pub fn update(model: &mut Model, layout: &AppLayout)
    ensures
        final(model).deep_view() == fitted(old(model).deep_view(), *layout),
{
    set_viewport_dimensions(&mut model.current.buffer.view_port, &layout.current);
}

/// The task that makes a change to the buffer of the directory `path` a
/// change to the directory itself: an added line is a path to add, a
/// removed line a path to delete, a changed line a path to rename.
pub open spec fn task_for(path: Seq<char>, change: BufferChangedView) -> ActionView {
    match change {
        BufferChangedView::LineAdded(_, name) => ActionView::Task(
            TaskView::AddPath(path_join(path, name)),
        ),
        BufferChangedView::LineRemoved(_, name) => ActionView::Task(
            TaskView::DeletePath(path_join(path, name)),
        ),
        BufferChangedView::Content(_, old, new) => ActionView::Task(
            TaskView::RenamePath(path_join(path, old), path_join(path, new)),
        ),
    }
}

/// The tasks for what the current buffer answered when asked to save: none
/// at all without an answer, else one for each change it named.
pub open spec fn changes_to_save(path: Seq<char>, result: Option<BufferResultView>) -> Option<
    Seq<ActionView>,
> {
    match result {
        Some(BufferResultView::Changes(changes)) => Some(
            Seq::new(changes.len(), |i: int| task_for(path, changes[i])),
        ),
        Some(_) => Some(Seq::empty()),
        None => None,
    }
}

/// The tasks that write the changes of the current buffer to the directory
/// it shows, where `result` is what the buffer answered when asked to save.
pub fn save_changes(model: &Model, result: Option<BufferResult>) -> (actions: Option<Vec<Action>>)
    ensures
        actions.deep_view() == changes_to_save(model.deep_view().current_path, result.deep_view()),
{
    match result {
        Some(result) => {
            let path = model.current.path.as_str();
            let mut tasks: Vec<Action> = Vec::new();
            match result {
                BufferResult::Changes(changes) => {
                    let mut i: usize = 0;
                    while i < changes.len()
                        invariant
                            i <= changes.len(),
                            tasks.len() == i,
                            path@ == model.current.path@,
                            forall|j: int|
                                0 <= j < i ==> tasks@[j].deep_view() == task_for(
                                    path@,
                                    changes@[j].deep_view(),
                                ),
                        decreases changes.len() - i,
                    {
                        let task = match &changes[i] {
                            BufferChanged::LineAdded(_, name) => Task::AddPath(
                                join(path, name.as_str()),
                            ),
                            BufferChanged::LineRemoved(_, name) => Task::DeletePath(
                                join(path, name.as_str()),
                            ),
                            BufferChanged::Content(_, old, new) => Task::RenamePath(
                                join(path, old.as_str()),
                                join(path, new.as_str()),
                            ),
                        };
                        tasks.push(Action::Task(task));
                        i += 1;
                    }
                    proof {
                        assert(tasks.deep_view() =~= changes_to_save(
                            path@,
                            Some(BufferResultView::Changes(changes.deep_view())),
                        ).unwrap());
                    }
                },
                BufferResult::CursorPositionChanged => {
                    proof {
                        assert(tasks.deep_view() =~= Seq::empty());
                    }
                },
            }
            Some(tasks)
        },
        None => None,
    }
}

} // verus!
