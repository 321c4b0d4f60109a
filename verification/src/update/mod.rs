//! How the model changes when a message arrives.
pub mod commandline;
pub mod content;
pub mod current;
pub mod mark;

use vstd::prelude::*;
use crate::action::{Action, ActionView};
use crate::keymap::message::{KeymapMessage, Mode};
use crate::layout::AppLayout;
use crate::message::{Message, MessageView};
use crate::model::mark::same_text;
use crate::model::{Model, ModelView};
use crate::path::{join, parent_of, path_parent};
use crate::task::{Task, TaskView};
use crate::update::current::fitted;
use crate::update::mark::selection;

verus! {

/// One of the buffers on screen.
#[derive(Clone, Copy, Debug, PartialEq, Eq, Structural)]
pub enum Target {
    Commandline,
    Current,
    Parent,
    Preview,
}

/// What is left to do to the buffers and the history once a message has
/// been handled here. The text of a buffer and the clock are not this
/// module's business: it says what is to be done, in order.
#[derive(Clone, Debug, PartialEq, Eq)]
pub enum Delivery {
    /// Put the cursor of the current buffer where the history last saw it.
    CursorFromHistory,
    /// Show the buffer as the one that takes input.
    Focus(Target),
    /// Hand the message to the buffer.
    Message(Target),
    /// Record the path in the history, as visited now.
    Remember(String),
    /// Show the buffer as one that does not take input.
    Unfocus(Target),
}

/// A delivery as plain values.
pub enum DeliveryView {
    CursorFromHistory,
    Focus(Target),
    Message(Target),
    Remember(Seq<char>),
    Unfocus(Target),
}

impl DeepView for Delivery {
    type V = DeliveryView;

    open spec fn deep_view(&self) -> DeliveryView {
        match self {
            Delivery::CursorFromHistory => DeliveryView::CursorFromHistory,
            Delivery::Focus(target) => DeliveryView::Focus(*target),
            Delivery::Message(target) => DeliveryView::Message(*target),
            Delivery::Remember(path) => DeliveryView::Remember(path@),
            Delivery::Unfocus(target) => DeliveryView::Unfocus(*target),
        }
    }
}

/// What handling a message comes to, besides the change to the model: the
/// actions to take after the next rendering, and the deliveries to make
/// before it.
#[derive(Debug, PartialEq, Eq)]
pub struct Update {
    pub actions: Option<Vec<Action>>,
    pub deliveries: Vec<Delivery>,
}

/// An update as plain values.
pub struct UpdateView {
    pub actions: Option<Seq<ActionView>>,
    pub deliveries: Seq<DeliveryView>,
}

impl DeepView for Update {
    type V = UpdateView;

    open spec fn deep_view(&self) -> UpdateView {
        UpdateView {
            actions: self.actions.deep_view(),
            deliveries: self.deliveries.deep_view(),
        }
    }
}

/// The update that changes nothing and asks for nothing.
pub open spec fn nothing() -> UpdateView {
    UpdateView { actions: None, deliveries: Seq::empty() }
}

/// The deliveries when `mode` is left.
pub open spec fn leaving(mode: Mode) -> Seq<DeliveryView> {
    match mode {
        Mode::Command => seq![
            DeliveryView::Unfocus(Target::Commandline),
            DeliveryView::Message(Target::Commandline),
        ],
        _ => seq![DeliveryView::Unfocus(Target::Current)],
    }
}

/// The deliveries when `mode` is entered.
pub open spec fn entering(mode: Mode) -> Seq<DeliveryView> {
    match mode {
        Mode::Command => seq![
            DeliveryView::Focus(Target::Commandline),
            DeliveryView::Message(Target::Commandline),
        ],
        _ => seq![DeliveryView::Focus(Target::Current)],
    }
}

/// A change of mode: nothing where the mode stays; else the model is in the
/// new mode, the buffer of the old mode gives up the input and that of the
/// new one takes it, and the resolver is to be told.
pub open spec fn mode_changed(model: ModelView, from: Mode, to: Mode) -> (ModelView, UpdateView) {
    if from == to {
        (model, nothing())
    } else {
        (
            ModelView { mode: to, ..model },
            UpdateView {
                actions: Some(seq![ActionView::ModeChanged(to)]),
                deliveries: leaving(from) + entering(to),
            },
        )
    }
}

/// The actions with which the application ends.
pub open spec fn quitting() -> Seq<ActionView> {
    seq![ActionView::Task(TaskView::OptimizeHistory), ActionView::Quit]
}

/// The actions of a list that may be missing.
pub open spec fn flattened(actions: Option<Seq<ActionView>>) -> Seq<ActionView> {
    match actions {
        Some(actions) => actions,
        None => Seq::empty(),
    }
}

/// The actions for the command `command`.
pub open spec fn command_actions(command: Seq<char>) -> Option<Seq<ActionView>> {
    if command == "histopt"@ {
        Some(seq![ActionView::Task(TaskView::OptimizeHistory)])
    } else if command == "q"@ {
        Some(quitting())
    } else {
        None
    }
}

/// The command line is executed: nothing without a line; else the actions
/// of the command in its first line, and then a change to normal mode.
pub open spec fn command_executed(model: ModelView) -> (ModelView, UpdateView) {
    if model.commandline.lines.len() == 0 {
        (model, nothing())
    } else {
        let post = command_actions(model.commandline.lines[0].content);
        let (changed, update) = mode_changed(model, model.mode, Mode::Normal);
        (
            changed,
            UpdateView {
                actions: Some(flattened(post) + flattened(update.actions)),
                deliveries: update.deliveries,
            },
        )
    }
}

/// A message for the text: in command mode it goes to the command line;
/// else to the current buffer, whose viewport is fitted first, and, if
/// `preview` says so, to the preview after it.
pub open spec fn text_changed(model: ModelView, layout: AppLayout, preview: bool) -> (
    ModelView,
    UpdateView,
) {
    if model.mode == Mode::Command {
        (
            model,
            UpdateView {
                actions: None,
                deliveries: seq![DeliveryView::Message(Target::Commandline)],
            },
        )
    } else {
        (
            fitted(model, layout),
            UpdateView {
                actions: None,
                deliveries: if preview {
                    seq![
                        DeliveryView::Message(Target::Current),
                        DeliveryView::Message(Target::Preview),
                    ]
                } else {
                    seq![DeliveryView::Message(Target::Current)]
                },
            },
        )
    }
}

/// Everything is drawn anew: every buffer gets the message.
pub open spec fn refreshed(model: ModelView, layout: AppLayout) -> (ModelView, UpdateView) {
    (
        fitted(model, layout),
        UpdateView {
            actions: None,
            deliveries: seq![
                DeliveryView::Message(Target::Current),
                DeliveryView::Message(Target::Commandline),
                DeliveryView::Message(Target::Parent),
                DeliveryView::Message(Target::Preview),
            ],
        },
    )
}

/// The selection is entered: nothing without a selection or where it is
/// no directory; else it becomes the current path, the buffers follow, and
/// the history records it.
pub open spec fn current_selected(
    model: ModelView,
    layout: AppLayout,
    selection_is_directory: bool,
) -> (ModelView, UpdateView) {
    match selection(model) {
        Some(target) => if !selection_is_directory {
            (model, nothing())
        } else {
            (
                fitted(ModelView { current_path: target, ..model }, layout),
                UpdateView {
                    actions: None,
                    deliveries: seq![
                        DeliveryView::Message(Target::Current),
                        DeliveryView::CursorFromHistory,
                        DeliveryView::Message(Target::Parent),
                        DeliveryView::Message(Target::Preview),
                        DeliveryView::Remember(target),
                    ],
                },
            )
        },
        None => (model, nothing()),
    }
}

/// The directory above is entered: nothing where there is none; else it
/// becomes the current path and the buffers follow.
pub open spec fn parent_selected(model: ModelView, layout: AppLayout) -> (ModelView, UpdateView) {
    match path_parent(model.current_path) {
        Some(parent) => (
            fitted(ModelView { current_path: parent, ..model }, layout),
            UpdateView {
                actions: None,
                deliveries: seq![
                    DeliveryView::Message(Target::Current),
                    DeliveryView::CursorFromHistory,
                    DeliveryView::Message(Target::Parent),
                    DeliveryView::Message(Target::Preview),
                ],
            },
        ),
        None => (model, nothing()),
    }
}

/// What `message` does to the model, and what it leaves to do.
/// `selection_is_directory` says whether the path under the cursor of the
/// current buffer is a directory.
pub open spec fn updated(
    model: ModelView,
    layout: AppLayout,
    message: MessageView,
    selection_is_directory: bool,
) -> (ModelView, UpdateView) {
    match message {
        MessageView::ChangeKeySequence(sequence) => (
            ModelView { key_sequence: sequence, ..model },
            nothing(),
        ),
        MessageView::Keymap(KeymapMessage::ChangeMode(from, to)) => mode_changed(model, from, to),
        MessageView::Keymap(KeymapMessage::ExecuteCommand) => command_executed(model),
        MessageView::Keymap(KeymapMessage::Modification(_, _)) => text_changed(
            model,
            layout,
            false,
        ),
        MessageView::Keymap(KeymapMessage::MoveCursor(_, _)) => text_changed(model, layout, true),
        MessageView::Keymap(KeymapMessage::MoveViewPort(_)) => text_changed(model, layout, true),
        MessageView::Keymap(KeymapMessage::Refresh) => refreshed(model, layout),
        MessageView::Keymap(KeymapMessage::SelectCurrent) => current_selected(
            model,
            layout,
            selection_is_directory,
        ),
        MessageView::Keymap(KeymapMessage::SelectParent) => parent_selected(model, layout),
        MessageView::Keymap(KeymapMessage::Quit) => (
            model,
            UpdateView { actions: Some(quitting()), deliveries: Seq::empty() },
        ),
        _ => (model, nothing()),
    }
}

/// The update that asks for nothing.
fn no_update() -> (update: Update)
    ensures
        update.deep_view() == nothing(),
{
    let update = Update { actions: None, deliveries: Vec::new() };
    proof {
        assert(update.deliveries.deep_view() =~= Seq::empty());
    }
    update
}

/// The deliveries when `mode` is left or entered.
fn switch(mode: Mode, enter: bool, deliveries: &mut Vec<Delivery>)
    ensures
        final(deliveries).deep_view() == old(deliveries).deep_view() + if enter {
            entering(mode)
        } else {
            leaving(mode)
        },
{
    let ghost before = deliveries.deep_view();
    match mode {
        Mode::Command => {
            if enter {
                deliveries.push(Delivery::Focus(Target::Commandline));
            } else {
                deliveries.push(Delivery::Unfocus(Target::Commandline));
            }
            deliveries.push(Delivery::Message(Target::Commandline));
        },
        _ => {
            if enter {
                deliveries.push(Delivery::Focus(Target::Current));
            } else {
                deliveries.push(Delivery::Unfocus(Target::Current));
            }
        },
    }
    proof {
        assert(deliveries.deep_view() =~= before + if enter {
            entering(mode)
        } else {
            leaving(mode)
        });
    }
}

/// Changes the mode of the model from `from` to `to`.
fn change_mode(model: &mut Model, from: Mode, to: Mode) -> (update: Update)
    ensures
        (final(model).deep_view(), update.deep_view()) == mode_changed(
            old(model).deep_view(),
            from,
            to,
        ),
{
    if from == to {
        return no_update();
    }
    model.mode = to;
    let mut deliveries: Vec<Delivery> = Vec::new();
    proof {
        assert(deliveries.deep_view() =~= Seq::empty());
    }
    switch(from, false, &mut deliveries);
    switch(to, true, &mut deliveries);
    let mut actions: Vec<Action> = Vec::new();
    actions.push(Action::ModeChanged(to));
    proof {
        assert(actions.deep_view() =~= seq![ActionView::ModeChanged(to)]);
        assert(deliveries.deep_view() =~= leaving(from) + entering(to));
    }
    Update { actions: Some(actions), deliveries }
}

/// Appends the actions with which the application ends.
fn push_quit(actions: &mut Vec<Action>)
    ensures
        final(actions).deep_view() == old(actions).deep_view() + quitting(),
{
    actions.push(Action::Task(Task::OptimizeHistory));
    actions.push(Action::Quit);
    proof {
        assert(actions.deep_view() =~= old(actions).deep_view() + quitting());
    }
}

/// Executes the command in the command line.
fn execute_command(model: &mut Model) -> (update: Update)
    ensures
        (final(model).deep_view(), update.deep_view()) == command_executed(old(model).deep_view()),
{
    if model.commandline.lines.len() == 0 {
        return no_update();
    }
    let mut actions: Vec<Action> = Vec::new();
    proof {
        assert(actions.deep_view() =~= Seq::empty());
        assert(model.deep_view().commandline.lines[0].content
            == model.commandline.lines@[0].content@);
    }
    let command = model.commandline.lines[0].content.as_str();
    if same_text(command, "histopt") {
        actions.push(Action::Task(Task::OptimizeHistory));
        proof {
            assert(actions.deep_view() =~= seq![ActionView::Task(TaskView::OptimizeHistory)]);
        }
    } else if same_text(command, "q") {
        push_quit(&mut actions);
        proof {
            assert(actions.deep_view() =~= quitting());
        }
    }
    let ghost post = actions.deep_view();
    proof {
        assert(post == flattened(command_actions(command@)));
    }
    let from = model.mode;
    let changed = change_mode(model, from, Mode::Normal);
    let ghost after = changed.actions.deep_view();
    match changed.actions {
        Some(mut more) => {
            let ghost added = more.deep_view();
            actions.append(&mut more);
            proof {
                assert(actions.deep_view() =~= post + added);
            }
        },
        None => {
            proof {
                assert(actions.deep_view() =~= post + flattened(after));
            }
        },
    }
    Update { actions: Some(actions), deliveries: changed.deliveries }
}

/// Hands a message for the text to the buffers it concerns.
fn change_text(model: &mut Model, layout: &AppLayout, preview: bool) -> (update: Update)
    ensures
        (final(model).deep_view(), update.deep_view()) == text_changed(
            old(model).deep_view(),
            *layout,
            preview,
        ),
{
    let mut deliveries: Vec<Delivery> = Vec::new();
    if model.mode == Mode::Command {
        deliveries.push(Delivery::Message(Target::Commandline));
        proof {
            assert(deliveries.deep_view() =~= seq![DeliveryView::Message(Target::Commandline)]);
        }
    } else {
        current::update(model, layout);
        deliveries.push(Delivery::Message(Target::Current));
        if preview {
            deliveries.push(Delivery::Message(Target::Preview));
        }
        proof {
            assert(deliveries.deep_view() =~= text_changed(
                old(model).deep_view(),
                *layout,
                preview,
            ).1.deliveries);
        }
    }
    Update { actions: None, deliveries }
}

/// The deliveries that let the buffers follow a new current path.
fn follow(deliveries: &mut Vec<Delivery>)
    requires
        old(deliveries)@.len() == 0,
    ensures
        final(deliveries).deep_view() == seq![
            DeliveryView::Message(Target::Current),
            DeliveryView::CursorFromHistory,
            DeliveryView::Message(Target::Parent),
            DeliveryView::Message(Target::Preview),
        ],
{
    deliveries.push(Delivery::Message(Target::Current));
    deliveries.push(Delivery::CursorFromHistory);
    deliveries.push(Delivery::Message(Target::Parent));
    deliveries.push(Delivery::Message(Target::Preview));
    proof {
        assert(deliveries.deep_view() =~= seq![
            DeliveryView::Message(Target::Current),
            DeliveryView::CursorFromHistory,
            DeliveryView::Message(Target::Parent),
            DeliveryView::Message(Target::Preview),
        ]);
    }
}

/// Enters the selection of the current buffer.
fn select_current(model: &mut Model, layout: &AppLayout, selection_is_directory: bool) -> (update:
    Update)
    ensures
        (final(model).deep_view(), update.deep_view()) == current_selected(
            old(model).deep_view(),
            *layout,
            selection_is_directory,
        ),
{
    let index = match model.current.buffer.cursor {
        Some(cursor) => {
            if cursor.vertical_index < model.current.buffer.lines.len() {
                cursor.vertical_index
            } else {
                return no_update();
            }
        },
        None => {
            return no_update();
        },
    };
    if !selection_is_directory {
        return no_update();
    }
    proof {
        assert(model.deep_view().current.lines[index as int].content
            == model.current.buffer.lines@[index as int].content@);
    }
    let target = join(
        model.current.path.as_str(),
        model.current.buffer.lines[index].content.as_str(),
    );
    model.current.path = target.clone();
    current::update(model, layout);
    let mut deliveries: Vec<Delivery> = Vec::new();
    follow(&mut deliveries);
    let ghost before = deliveries.deep_view();
    deliveries.push(Delivery::Remember(target));
    proof {
        assert(deliveries.deep_view() =~= before.push(DeliveryView::Remember(target@)));
        assert(deliveries.deep_view() =~= current_selected(
            old(model).deep_view(),
            *layout,
            selection_is_directory,
        ).1.deliveries);
    }
    Update { actions: None, deliveries }
}

/// Enters the directory above the current one.
fn select_parent(model: &mut Model, layout: &AppLayout) -> (update: Update)
    ensures
        (final(model).deep_view(), update.deep_view()) == parent_selected(
            old(model).deep_view(),
            *layout,
        ),
{
    match parent_of(model.current.path.as_str()) {
        Some(parent) => {
            model.current.path = parent;
            current::update(model, layout);
            let mut deliveries: Vec<Delivery> = Vec::new();
            follow(&mut deliveries);
            Update { actions: None, deliveries }
        },
        None => no_update(),
    }
}

/// Handles `message`: changes the model, and returns what is left to do.
/// `selection_is_directory` says whether the path under the cursor of the
/// current buffer is a directory.
pub fn update(
    model: &mut Model,
    layout: &AppLayout,
    message: &Message,
    selection_is_directory: bool,
) -> (update: Update)
    ensures
        (final(model).deep_view(), update.deep_view()) == updated(
            old(model).deep_view(),
            *layout,
            message.deep_view(),
            selection_is_directory,
        ),
{
    match message {
        Message::ChangeKeySequence(sequence) => {
            model.key_sequence = sequence.clone();
            no_update()
        },
        Message::Keymap(KeymapMessage::ChangeMode(from, to)) => change_mode(model, *from, *to),
        Message::Keymap(KeymapMessage::ExecuteCommand) => execute_command(model),
        Message::Keymap(KeymapMessage::Modification(_, _)) => change_text(model, layout, false),
        Message::Keymap(KeymapMessage::MoveCursor(_, _)) => change_text(model, layout, true),
        Message::Keymap(KeymapMessage::MoveViewPort(_)) => change_text(model, layout, true),
        Message::Keymap(KeymapMessage::Refresh) => {
            current::update(model, layout);
            let mut deliveries: Vec<Delivery> = Vec::new();
            deliveries.push(Delivery::Message(Target::Current));
            deliveries.push(Delivery::Message(Target::Commandline));
            deliveries.push(Delivery::Message(Target::Parent));
            deliveries.push(Delivery::Message(Target::Preview));
            proof {
                assert(deliveries.deep_view() =~= refreshed(
                    old(model).deep_view(),
                    *layout,
                ).1.deliveries);
            }
            Update { actions: None, deliveries }
        },
        Message::Keymap(KeymapMessage::SelectCurrent) => select_current(
            model,
            layout,
            selection_is_directory,
        ),
        Message::Keymap(KeymapMessage::SelectParent) => select_parent(model, layout),
        Message::Keymap(KeymapMessage::Quit) => {
            let mut actions: Vec<Action> = Vec::new();
            proof {
                assert(actions.deep_view() =~= Seq::empty());
            }
            push_quit(&mut actions);
            proof {
                assert(actions.deep_view() =~= quitting());
            }
            let update = Update { actions: Some(actions), deliveries: Vec::new() };
            proof {
                assert(update.deliveries.deep_view() =~= Seq::empty());
            }
            update
        },
        _ => no_update(),
    }
}

} // verus!
