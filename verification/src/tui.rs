//! The turn of the application loop after a rendering: what each action
//! that the update asked for comes to.
//!
//! Nothing is done here to the terminal, the watcher or the runtime. The
//! emitter is told, and the effects say what the loop has to do.
use vstd::prelude::*;
use crate::action::{Action, ActionView};
use crate::event::{Emitter, EmitterState};
use crate::keymap::message::Mode;
use crate::keymap::resolver::ResolverState;
use crate::task::manager::{abort_step, run_step, TaskAction};
use crate::task::{Task, TaskView};

verus! {

/// What the application loop has to do.
#[derive(Clone, Debug, PartialEq, Eq)]
pub enum Effect {
    /// Cancel the execution with this handle.
    Abort(u64),
    /// Leave the loop.
    Quit,
    /// Tell the terminal its new width and height.
    Resize(u16, u16),
    /// Start what is in flight under this handle.
    Spawn(u64),
    /// Take the path from the watcher.
    Unwatch(String),
    /// Give the path to the watcher.
    Watch(String),
}

/// An effect as plain values.
pub enum EffectView {
    Abort(u64),
    Quit,
    Resize(u16, u16),
    Spawn(u64),
    Unwatch(Seq<char>),
    Watch(Seq<char>),
}

impl DeepView for Effect {
    type V = EffectView;

    open spec fn deep_view(&self) -> EffectView {
        match self {
            Effect::Abort(handle) => EffectView::Abort(*handle),
            Effect::Quit => EffectView::Quit,
            Effect::Resize(width, height) => EffectView::Resize(*width, *height),
            Effect::Spawn(handle) => EffectView::Spawn(*handle),
            Effect::Unwatch(path) => EffectView::Unwatch(path@),
            Effect::Watch(path) => EffectView::Watch(path@),
        }
    }
}

/// The actions of the task manager as effects.
pub open spec fn effects_of(actions: Seq<TaskAction>) -> Seq<EffectView> {
    Seq::new(
        actions.len(),
        |i: int|
            match actions[i] {
                TaskAction::Abort(handle) => EffectView::Abort(handle),
                TaskAction::Spawn(handle) => EffectView::Spawn(handle),
            },
    )
}

/// The task that fills the buffer for a path that is watched from now on:
/// a directory is read, anything else is previewed.
pub open spec fn watch_task(path: Seq<char>, is_directory: bool) -> TaskView {
    if is_directory {
        TaskView::EnumerateDirectory(path)
    } else {
        TaskView::LoadPreview(path)
    }
}

/// What `action` comes to: the emitter afterwards, and the effects, in
/// order. `is_directory` says whether the path of the action, if it has
/// one, is a directory. A watch and an unwatch of the empty path come to
/// nothing. A path that is no longer watched is no longer read; a path that
/// is watched is read or previewed first.
pub open spec fn performed(state: EmitterState, action: ActionView, is_directory: bool) -> (
    EmitterState,
    Seq<EffectView>,
) {
    match action {
        ActionView::ModeChanged(mode) => (
            EmitterState { resolver: ResolverState::idle(mode), ..state },
            Seq::empty(),
        ),
        ActionView::Quit => (state, seq![EffectView::Quit]),
        ActionView::Resize(width, height) => (state, seq![EffectView::Resize(width, height)]),
        ActionView::Task(task) => {
            let (tasks, actions) = run_step(state.tasks, task);
            (EmitterState { tasks, ..state }, effects_of(actions))
        },
        ActionView::EmitMessages(messages) => {
            let (tasks, actions) = run_step(state.tasks, TaskView::EmitMessages(messages));
            (EmitterState { tasks, ..state }, effects_of(actions))
        },
        ActionView::UnwatchPath(path) => if path.len() == 0 {
            (state, Seq::empty())
        } else {
            let (tasks, cancel) = abort_step(state.tasks, TaskView::EnumerateDirectory(path));
            (
                EmitterState { tasks, ..state },
                match cancel {
                    Some(handle) => seq![EffectView::Abort(handle), EffectView::Unwatch(path)],
                    None => seq![EffectView::Unwatch(path)],
                },
            )
        },
        ActionView::WatchPath(path) => if path.len() == 0 {
            (state, Seq::empty())
        } else {
            let (tasks, actions) = run_step(state.tasks, watch_task(path, is_directory));
            (
                EmitterState { tasks, ..state },
                effects_of(actions).push(EffectView::Watch(path)),
            )
        },
    }
}

/// Turns the actions of the task manager into effects.
fn as_effects(actions: Vec<TaskAction>) -> (effects: Vec<Effect>)
    ensures
        effects.deep_view() == effects_of(actions@),
{
    let mut effects: Vec<Effect> = Vec::new();
    let mut i: usize = 0;
    while i < actions.len()
        invariant
            i <= actions.len(),
            effects.len() == i,
            forall|j: int| 0 <= j < i ==> effects@[j].deep_view() == effects_of(actions@)[j],
        decreases actions.len() - i,
    {
        match actions[i] {
            TaskAction::Abort(handle) => effects.push(Effect::Abort(handle)),
            TaskAction::Spawn(handle) => effects.push(Effect::Spawn(handle)),
        }
        i += 1;
    }
    proof {
        assert(effects.deep_view() =~= effects_of(actions@));
    }
    effects
}

/// Carries out `action` on the emitter and returns what is left for the
/// loop to do. `is_directory` says whether the path of the action, if it
/// has one, is a directory.
pub fn perform(emitter: &mut Emitter, action: Action, is_directory: bool) -> (effects: Vec<Effect>)
    requires
        old(emitter)@.tasks.next < u64::MAX,
    ensures
        (final(emitter)@, effects.deep_view()) == performed(
            old(emitter)@,
            action.deep_view(),
            is_directory,
        ),
        forall|mode: Mode| final(emitter).bindings(mode) == old(emitter).bindings(mode),
{
    let mut effects: Vec<Effect> = Vec::new();
    proof {
        assert(effects.deep_view() =~= Seq::empty());
    }
    match action {
        Action::ModeChanged(mode) => {
            emitter.set_current_mode(mode);
        },
        Action::Quit => {
            effects.push(Effect::Quit);
            proof {
                assert(effects.deep_view() =~= seq![EffectView::Quit]);
            }
        },
        Action::Resize(width, height) => {
            effects.push(Effect::Resize(width, height));
            proof {
                assert(effects.deep_view() =~= seq![EffectView::Resize(width, height)]);
            }
        },
        Action::Task(task) => {
            effects = as_effects(emitter.run(task));
        },
        Action::EmitMessages(messages) => {
            effects = as_effects(emitter.run(Task::EmitMessages(messages)));
        },
        Action::UnwatchPath(path) => {
            if path.as_str().unicode_len() > 0 {
                let task = Task::EnumerateDirectory(path.clone());
                match emitter.abort(&task) {
                    Some(handle) => {
                        effects.push(Effect::Abort(handle));
                    },
                    None => {},
                }
                let ghost before = effects.deep_view();
                effects.push(Effect::Unwatch(path));
                proof {
                    assert(effects.deep_view() =~= before.push(EffectView::Unwatch(path@)));
                    assert(effects.deep_view() =~= performed(
                        old(emitter)@,
                        action.deep_view(),
                        is_directory,
                    ).1);
                }
            }
        },
        Action::WatchPath(path) => {
            if path.as_str().unicode_len() > 0 {
                let task = if is_directory {
                    Task::EnumerateDirectory(path.clone())
                } else {
                    Task::LoadPreview(path.clone())
                };
                effects = as_effects(emitter.run(task));
                let ghost before = effects.deep_view();
                effects.push(Effect::Watch(path));
                proof {
                    assert(effects.deep_view() =~= before.push(EffectView::Watch(path@)));
                }
            }
        },
    }
    effects
}

} // verus!
