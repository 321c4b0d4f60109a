//! What reaches the buffers from outside the keys: the content that tasks
//! report, and the deliveries that a handled message leaves to make.
use vstd::prelude::*;
use crate::action::{Action, ActionView};
use crate::keymap::message::{CursorDirection, KeymapMessage};
use crate::message::{ContentKind, Message, MessageView};
use crate::model::buffer::{moved, BufferLine, BufferView, Cursor, LineView};
use crate::model::history::{with_entry, HistoryState};
use crate::model::mark::{marks_path, Marks};
use crate::model::{Model, ModelView};
use crate::path::{
    is_same_path, join, path_components, path_join, same_as_some, same_path,
};
use crate::update::mark::{selection, set_sign_if_marked, with_sign};
use crate::update::{Delivery, DeliveryView, Target};

verus! {

/// The line without signs or styles that shows `content`.
pub open spec fn plain_line(content: Seq<char>) -> LineView {
    LineView { content, signs: Seq::empty(), style: Seq::empty() }
}

/// The line for the entry `name` of `directory`: plain, with the sign of a
/// mark if some mark stands for its path.
pub open spec fn entry_line(
    marks: Seq<(char, Seq<char>)>,
    directory: Seq<char>,
    name: Seq<char>,
) -> LineView {
    if marks_path(marks, path_join(directory, name)) {
        with_sign(plain_line(name))
    } else {
        plain_line(name)
    }
}

/// The lines for the entries of `directory`.
pub open spec fn entry_lines(
    marks: Seq<(char, Seq<char>)>,
    directory: Seq<char>,
    entries: Seq<(ContentKind, Seq<char>)>,
) -> Seq<LineView> {
    Seq::new(entries.len(), |i: int| entry_line(marks, directory, entries[i].1))
}

/// The plain lines of a text.
pub open spec fn plain_lines(content: Seq<Seq<char>>) -> Seq<LineView> {
    Seq::new(content.len(), |i: int| plain_line(content[i]))
}

/// The model with `lines` in the first of the current buffer, the preview
/// and the parent buffer that shows `path`; unchanged if none does.
pub open spec fn shown(model: ModelView, path: Seq<char>, lines: Seq<LineView>) -> ModelView {
    if same_path(path, model.current_path) {
        ModelView { current: BufferView { lines, ..model.current }, ..model }
    } else if same_path(path, model.preview_path) {
        ModelView { preview: BufferView { lines, ..model.preview }, ..model }
    } else if same_as_some(model.parent_path, path) {
        ModelView { parent: BufferView { lines, ..model.parent }, ..model }
    } else {
        model
    }
}

/// What a message from a task or the emitter does to the model, and the
/// actions it asks for. Going to a path empties the current buffer, lets go
/// of the path that was shown and asks for the new one. The content of a
/// directory goes to the buffer that shows it. The lines of a file go to
/// the preview, if that is the file it shows.
pub open spec fn received(model: ModelView, message: MessageView) -> (ModelView, Seq<ActionView>) {
    match message {
        MessageView::NavigateToPath(path) => (
            ModelView {
                current: BufferView { lines: Seq::empty(), ..model.current },
                current_path: path,
                ..model
            },
            seq![ActionView::UnwatchPath(model.current_path), ActionView::WatchPath(path)],
        ),
        MessageView::PathEnumerationContentChanged(path, entries) => (
            shown(model, path, entry_lines(model.marks, path, entries)),
            Seq::empty(),
        ),
        MessageView::PreviewLoaded(path, content) => (
            if same_path(path, model.preview_path) {
                ModelView {
                    preview: BufferView { lines: plain_lines(content), ..model.preview },
                    ..model
                }
            } else {
                model
            },
            Seq::empty(),
        ),
        _ => (model, Seq::empty()),
    }
}

/// The lines for the entries of `directory`.
fn lines_for(marks: &Marks, directory: &String, entries: &Vec<(ContentKind, String)>) -> (lines:
    Vec<BufferLine>)
    ensures
        lines.deep_view() == entry_lines(marks.deep_view(), directory@, entries.deep_view()),
{
    let mut lines: Vec<BufferLine> = Vec::new();
    let mut i: usize = 0;
    while i < entries.len()
        invariant
            i <= entries.len(),
            lines.len() == i,
            forall|j: int|
                0 <= j < i ==> lines@[j].deep_view() == entry_line(
                    marks.deep_view(),
                    directory@,
                    entries@[j].1@,
                ),
        decreases entries.len() - i,
    {
        let name = &entries[i].1;
        let mut line = BufferLine { content: name.clone(), signs: Vec::new(), style: Vec::new() };
        proof {
            assert(line.deep_view().signs =~= Seq::empty());
            assert(line.deep_view().style =~= Seq::empty());
        }
        let path = join(directory.as_str(), name.as_str());
        set_sign_if_marked(marks, &mut line, path.as_str());
        lines.push(line);
        i += 1;
    }
    proof {
        assert(lines.deep_view() =~= entry_lines(
            marks.deep_view(),
            directory@,
            entries.deep_view(),
        ));
    }
    lines
}

/// The plain lines of a text.
fn lines_from(content: &Vec<String>) -> (lines: Vec<BufferLine>)
    ensures
        lines.deep_view() == plain_lines(content.deep_view()),
{
    let mut lines: Vec<BufferLine> = Vec::new();
    let mut i: usize = 0;
    while i < content.len()
        invariant
            i <= content.len(),
            lines.len() == i,
            forall|j: int| 0 <= j < i ==> lines@[j].deep_view() == plain_line(content@[j]@),
        decreases content.len() - i,
    {
        let line = BufferLine { content: content[i].clone(), signs: Vec::new(), style: Vec::new() };
        proof {
            assert(line.deep_view().signs =~= Seq::empty());
            assert(line.deep_view().style =~= Seq::empty());
        }
        lines.push(line);
        i += 1;
    }
    proof {
        assert(lines.deep_view() =~= plain_lines(content.deep_view()));
    }
    lines
}

/// Takes a message from a task or the emitter into the model, and returns
/// the actions it asks for.
pub fn receive(model: &mut Model, message: &Message) -> (actions: Vec<Action>)
    ensures
        (final(model).deep_view(), actions.deep_view()) == received(
            old(model).deep_view(),
            message.deep_view(),
        ),
{
    let mut actions: Vec<Action> = Vec::new();
    proof {
        assert(actions.deep_view() =~= Seq::empty());
    }
    match message {
        Message::NavigateToPath(path) => {
            let mut left = path.clone();
            std::mem::swap(&mut model.current.path, &mut left);
            model.current.buffer.lines = Vec::new();
            actions.push(Action::UnwatchPath(left));
            actions.push(Action::WatchPath(path.clone()));
            proof {
                assert(model.current.buffer.lines.deep_view() =~= Seq::empty());
                assert(actions.deep_view() =~= seq![
                    ActionView::UnwatchPath(old(model).current.path@),
                    ActionView::WatchPath(path@),
                ]);
            }
        },
        Message::PathEnumerationContentChanged(path, entries) => {
            let lines = lines_for(&model.marks, path, entries);
            if is_same_path(path.as_str(), model.current.path.as_str()) {
                model.current.buffer.lines = lines;
            } else if is_same_path(path.as_str(), model.preview.path.as_str()) {
                model.preview.buffer.lines = lines;
            } else {
                let parent = match &model.parent.path {
                    Some(parent) => is_same_path(path.as_str(), parent.as_str()),
                    None => false,
                };
                if parent {
                    model.parent.buffer.lines = lines;
                }
            }
        },
        Message::PreviewLoaded(path, content) => {
            if is_same_path(path.as_str(), model.preview.path.as_str()) {
                model.preview.buffer.lines = lines_from(content);
            }
        },
        _ => {},
    }
    actions
}

/// The model after the preview is made to follow the selection: nothing
/// without a selection or where the preview shows it already; else the
/// preview is emptied and shows the selection, and the path it showed is
/// let go of and the selection asked for.
pub open spec fn preview_followed(model: ModelView) -> (ModelView, Seq<ActionView>) {
    match selection(model) {
        Some(path) => if same_path(path, model.preview_path) {
            (model, Seq::empty())
        } else {
            (
                ModelView {
                    preview: BufferView { lines: Seq::empty(), ..model.preview },
                    preview_path: path,
                    ..model
                },
                seq![ActionView::UnwatchPath(model.preview_path), ActionView::WatchPath(path)],
            )
        },
        None => (model, Seq::empty()),
    }
}

/// The model after the cursor of the buffer `target` is moved.
pub open spec fn cursor_moved(
    model: ModelView,
    target: Target,
    count: usize,
    direction: CursorDirection,
) -> ModelView {
    match target {
        Target::Commandline => ModelView {
            commandline: moved(model.commandline, count, direction),
            ..model
        },
        Target::Current => ModelView { current: moved(model.current, count, direction), ..model },
        Target::Parent => ModelView { parent: moved(model.parent, count, direction), ..model },
        Target::Preview => ModelView { preview: moved(model.preview, count, direction), ..model },
    }
}

/// What a delivery does to the model, and the actions it asks for, where
/// `message` is the message that was handled and `now` the time. A motion
/// moves the cursor of the buffer it is delivered to; delivered to the
/// preview, any message makes the preview follow the selection.
pub open spec fn delivered(
    model: ModelView,
    delivery: DeliveryView,
    message: MessageView,
    now: u64,
) -> (ModelView, Seq<ActionView>) {
    match delivery {
        DeliveryView::CursorFromHistory => (
            ModelView {
                current: BufferView { cursor: Some(Cursor::at_start()), ..model.current },
                ..model
            },
            Seq::empty(),
        ),
        DeliveryView::Focus(_) => (model, Seq::empty()),
        DeliveryView::Unfocus(_) => (model, Seq::empty()),
        DeliveryView::Message(Target::Preview) => preview_followed(model),
        DeliveryView::Message(target) => match message {
            MessageView::Keymap(KeymapMessage::MoveCursor(count, direction)) => (
                cursor_moved(model, target, count, direction),
                Seq::empty(),
            ),
            _ => (model, Seq::empty()),
        },
        DeliveryView::Remember(path) => (
            ModelView {
                history: with_entry(
                    model.history,
                    now,
                    HistoryState::Added,
                    path_components(path),
                ),
                ..model
            },
            Seq::empty(),
        ),
    }
}

/// Makes the preview follow the selection.
fn follow_selection(model: &mut Model) -> (actions: Vec<Action>)
    ensures
        (final(model).deep_view(), actions.deep_view()) == preview_followed(old(model).deep_view()),
{
    let mut actions: Vec<Action> = Vec::new();
    proof {
        assert(actions.deep_view() =~= Seq::empty());
    }
    let index = match model.current.buffer.cursor {
        Some(cursor) => {
            if cursor.vertical_index < model.current.buffer.lines.len() {
                cursor.vertical_index
            } else {
                return actions;
            }
        },
        None => {
            return actions;
        },
    };
    proof {
        assert(model.deep_view().current.lines[index as int].content
            == model.current.buffer.lines@[index as int].content@);
    }
    let mut path = join(
        model.current.path.as_str(),
        model.current.buffer.lines[index].content.as_str(),
    );
    if is_same_path(path.as_str(), model.preview.path.as_str()) {
        return actions;
    }
    let ghost selected = path@;
    std::mem::swap(&mut model.preview.path, &mut path);
    model.preview.buffer.lines = Vec::new();
    actions.push(Action::UnwatchPath(path));
    actions.push(Action::WatchPath(model.preview.path.clone()));
    proof {
        assert(model.preview.buffer.lines.deep_view() =~= Seq::empty());
        assert(actions.deep_view() =~= seq![
            ActionView::UnwatchPath(old(model).preview.path@),
            ActionView::WatchPath(selected),
        ]);
    }
    actions
}

/// Makes a delivery, and returns the actions it asks for. `message` is the
/// message that was handled, `now` the time in seconds.
pub fn deliver(model: &mut Model, delivery: &Delivery, message: &Message, now: u64) -> (actions:
    Vec<Action>)
    ensures
        (final(model).deep_view(), actions.deep_view()) == delivered(
            old(model).deep_view(),
            delivery.deep_view(),
            message.deep_view(),
            now,
        ),
{
    match delivery {
        Delivery::Message(Target::Preview) => {
            return follow_selection(model);
        },
        _ => {},
    }
    let actions: Vec<Action> = Vec::new();
    proof {
        assert(actions.deep_view() =~= Seq::empty());
    }
    match delivery {
        Delivery::CursorFromHistory => {
            model.current.buffer.cursor = Some(Cursor::default());
        },
        Delivery::Focus(_) => {},
        Delivery::Unfocus(_) => {},
        Delivery::Message(target) => {
            match message {
                Message::Keymap(KeymapMessage::MoveCursor(count, direction)) => {
                    match target {
                        Target::Commandline => model.commandline.move_cursor(*count, *direction),
                        Target::Current => model.current.buffer.move_cursor(*count, *direction),
                        Target::Parent => model.parent.buffer.move_cursor(*count, *direction),
                        Target::Preview => model.preview.buffer.move_cursor(*count, *direction),
                    }
                },
                _ => {},
            }
        },
        Delivery::Remember(path) => {
            model.history.add(path.as_str(), now);
        },
    }
    actions
}

} // verus!
