//! The event multiplexer: the one place where terminal input, file system
//! events and the messages of background tasks turn into messages for the
//! update loop.
//!
//! The emitter owns the key resolver and the task manager. It does no input
//! or output itself: it is handed each event and answers with the messages
//! to pass on and the actions to take.
use vstd::prelude::*;
use crate::error::AppError;
use crate::keymap::key::Key;
use crate::keymap::map::{default_mappings, table_of};
use crate::keymap::message::{Binding, KeymapMessage, Mode};
use crate::keymap::resolver::{consistent, step, MessageResolver, ResolverState};
use crate::message::{Message, MessageView};
use crate::task::manager::{
    abort_step, complete_step, failure_of, finishing_step, position_of_handle, run_step,
    ManagerState, TaskAction, TaskManager, TaskOutcome,
};
use crate::task::Task;

verus! {

/// How a file was accessed.
#[derive(Clone, Copy, Debug, PartialEq, Eq, Structural)]
pub enum AccessMode {
    Any,
    Execute,
    Read,
    Write,
    Other,
}

/// What kind of access a file system event reports.
#[derive(Clone, Copy, Debug, PartialEq, Eq, Structural)]
pub enum AccessKind {
    Any,
    Read,
    Open(AccessMode),
    Close(AccessMode),
    Other,
}

/// How a rename is reported: from which side, or from both at once.
#[derive(Clone, Copy, Debug, PartialEq, Eq, Structural)]
pub enum RenameMode {
    Any,
    To,
    From,
    Both,
    Other,
}

/// What kind of modification a file system event reports.
#[derive(Clone, Copy, Debug, PartialEq, Eq, Structural)]
pub enum ModifyKind {
    Any,
    Data,
    Metadata,
    Name(RenameMode),
    Other,
}

/// What a file system event reports.
#[derive(Clone, Copy, Debug, PartialEq, Eq, Structural)]
pub enum EventKind {
    Any,
    Access(AccessKind),
    Create,
    Modify(ModifyKind),
    Remove,
    Other,
}

/// An event of the file system watcher: what happened, and to which paths.
#[derive(Clone, Debug, PartialEq, Eq)]
pub struct FsEvent {
    pub kind: EventKind,
    pub paths: Vec<String>,
}

/// An event of the terminal.
#[derive(Clone, Copy, Debug, PartialEq, Eq, Structural)]
pub enum TerminalEvent {
    FocusGained,
    FocusLost,
    /// A key press, if the key is one the resolver knows.
    Key(Option<Key>),
    Mouse,
    Paste,
    /// The terminal has a new width and height.
    Resize(u16, u16),
}

/// The messages for a file system event of `kind` on `paths`; `None` where
/// the event is passed over. A write that was closed, a creation and a
/// removal give one message for each path. A rename that names both sides
/// gives the removal of the old path and then the addition of the new, and
/// is passed over unless it has exactly two paths.
pub open spec fn translate(kind: EventKind, paths: Seq<Seq<char>>) -> Option<Seq<MessageView>> {
    match kind {
        EventKind::Access(AccessKind::Close(AccessMode::Write)) => Some(
            Seq::new(paths.len(), |i: int| MessageView::PathsWriteFinished(seq![paths[i]])),
        ),
        EventKind::Create => Some(
            Seq::new(paths.len(), |i: int| MessageView::PathsAdded(seq![paths[i]])),
        ),
        EventKind::Modify(ModifyKind::Name(RenameMode::Both)) => if paths.len() == 2 {
            Some(
                seq![MessageView::PathRemoved(paths[0]), MessageView::PathsAdded(seq![paths[1]])],
            )
        } else {
            None
        },
        EventKind::Remove => Some(
            Seq::new(paths.len(), |i: int| MessageView::PathRemoved(paths[i])),
        ),
        _ => None,
    }
}

/// A rename that names both sides and has exactly two paths gives the
/// removal of the first and then the addition of the second; with any other
/// number of paths it gives nothing.
pub proof fn lemma_rename(paths: Seq<Seq<char>>)
    ensures
        translate(EventKind::Modify(ModifyKind::Name(RenameMode::Both)), paths) == if paths.len()
            == 2 {
            Some(
                seq![MessageView::PathRemoved(paths[0]), MessageView::PathsAdded(seq![paths[1]])],
            )
        } else {
            None::<Seq<MessageView>>
        },
{
}

/// The list that holds `text` and nothing else.
fn single(text: &String) -> (list: Vec<String>)
    ensures
        list.deep_view() == seq![text@],
{
    let mut list: Vec<String> = Vec::new();
    list.push(text.clone());
    proof {
        assert(list.deep_view() =~= seq![text@]);
    }
    list
}

/// Turns an event of the file system watcher into messages.
pub fn handle_notify_event(event: FsEvent) -> (messages: Option<Vec<Message>>)
    ensures
        messages.deep_view() == translate(event.kind, event.paths.deep_view()),
{
    let paths = &event.paths;
    let ghost expected = translate(event.kind, paths.deep_view());
    match event.kind {
        EventKind::Access(AccessKind::Close(AccessMode::Write)) => {
            let mut messages: Vec<Message> = Vec::new();
            let mut i: usize = 0;
            while i < paths.len()
                invariant
                    i <= paths.len(),
                    messages.len() == i,
                    forall|j: int|
                        0 <= j < i ==> messages@[j].deep_view() == MessageView::PathsWriteFinished(
                            seq![paths@[j]@],
                        ),
                decreases paths.len() - i,
            {
                messages.push(Message::PathsWriteFinished(single(&paths[i])));
                i += 1;
            }
            proof {
                assert(messages.deep_view() =~= expected.unwrap());
            }
            Some(messages)
        },
        EventKind::Create => {
            let mut messages: Vec<Message> = Vec::new();
            let mut i: usize = 0;
            while i < paths.len()
                invariant
                    i <= paths.len(),
                    messages.len() == i,
                    forall|j: int|
                        0 <= j < i ==> messages@[j].deep_view() == MessageView::PathsAdded(
                            seq![paths@[j]@],
                        ),
                decreases paths.len() - i,
            {
                messages.push(Message::PathsAdded(single(&paths[i])));
                i += 1;
            }
            proof {
                assert(messages.deep_view() =~= expected.unwrap());
            }
            Some(messages)
        },
        EventKind::Modify(ModifyKind::Name(RenameMode::Both)) => {
            if paths.len() == 2 {
                let mut messages: Vec<Message> = Vec::new();
                messages.push(Message::PathRemoved(paths[0].clone()));
                messages.push(Message::PathsAdded(single(&paths[1])));
                proof {
                    assert(messages.deep_view() =~= expected.unwrap());
                }
                Some(messages)
            } else {
                None
            }
        },
        EventKind::Remove => {
            let mut messages: Vec<Message> = Vec::new();
            let mut i: usize = 0;
            while i < paths.len()
                invariant
                    i <= paths.len(),
                    messages.len() == i,
                    forall|j: int|
                        0 <= j < i ==> messages@[j].deep_view() == MessageView::PathRemoved(
                            paths@[j]@,
                        ),
                decreases paths.len() - i,
            {
                messages.push(Message::PathRemoved(paths[i].clone()));
                i += 1;
            }
            proof {
                assert(messages.deep_view() =~= expected.unwrap());
            }
            Some(messages)
        },
        _ => None,
    }
}

/// The commands of the resolver as messages.
pub open spec fn as_messages(commands: Seq<KeymapMessage>) -> Seq<MessageView> {
    Seq::new(commands.len(), |i: int| MessageView::Keymap(commands[i]))
}

/// Wraps each command of the resolver in a message.
fn wrap(commands: Vec<KeymapMessage>) -> (messages: Vec<Message>)
    ensures
        messages.deep_view() == as_messages(commands@),
{
    let mut messages: Vec<Message> = Vec::new();
    let mut i: usize = 0;
    while i < commands.len()
        invariant
            i <= commands.len(),
            messages.len() == i,
            forall|j: int| 0 <= j < i ==> messages@[j].deep_view() == MessageView::Keymap(
                commands@[j],
            ),
        decreases commands.len() - i,
    {
        messages.push(Message::Keymap(commands[i]));
        i += 1;
    }
    proof {
        assert(messages.deep_view() =~= as_messages(commands@));
    }
    messages
}

/// The state of the emitter over plain values.
pub struct EmitterState {
    pub resolver: ResolverState,
    pub tasks: ManagerState,
    /// Whether terminal input is taken. It is not while the terminal is
    /// handed to another program.
    pub listening: bool,
}

/// A terminal event: the state afterwards and the messages to pass on,
/// where `table` is the binding table of the resolver's mode. While the
/// emitter does not listen, no event is taken and nothing changes.
pub open spec fn terminal_step(
    table: Map<Seq<Key>, Binding>,
    state: EmitterState,
    event: TerminalEvent,
) -> (EmitterState, Option<Seq<MessageView>>) {
    if !state.listening {
        (state, None)
    } else {
        match event {
            TerminalEvent::Key(Some(key)) => {
                let (resolver, commands) = step(table, state.resolver, key);
                (EmitterState { resolver, ..state }, Some(as_messages(commands)))
            },
            TerminalEvent::Resize(width, height) => (
                state,
                Some(seq![MessageView::Resize(width, height)]),
            ),
            _ => (state, None),
        }
    }
}

/// Suspending: input is no longer taken. The answer says whether it was
/// taken before.
pub open spec fn suspend_step(state: EmitterState) -> (EmitterState, bool) {
    (EmitterState { listening: false, ..state }, state.listening)
}

/// Resuming: input is taken again.
pub open spec fn resume_step(state: EmitterState) -> EmitterState {
    EmitterState { listening: true, ..state }
}

/// Suspending and then resuming leaves the resolver as it was, with its
/// mode and whatever chord and count were pending; and between the two no
/// terminal event is taken or changes anything.
pub proof fn lemma_suspend_resume(
    table: Map<Seq<Key>, Binding>,
    state: EmitterState,
    event: TerminalEvent,
)
    ensures
        resume_step(suspend_step(state).0).resolver == state.resolver,
        resume_step(suspend_step(state).0).tasks == state.tasks,
        resume_step(suspend_step(state).0).listening,
        terminal_step(table, suspend_step(state).0, event) == (
            suspend_step(state).0,
            None::<Seq<MessageView>>,
        ),
        suspend_step(suspend_step(state).0) == (suspend_step(state).0, false),
{
}

/// Merges terminal input, file system events and task messages into one
/// stream of messages.
pub struct Emitter {
    resolver: MessageResolver,
    tasks: TaskManager,
    listening: bool,
}

impl View for Emitter {
    type V = EmitterState;

    closed spec fn view(&self) -> EmitterState {
        EmitterState { resolver: self.resolver@, tasks: self.tasks@, listening: self.listening }
    }
}

impl Emitter {
    /// The binding table of `mode`.
    pub closed spec fn bindings(&self, mode: Mode) -> Map<Seq<Key>, Binding> {
        self.resolver.bindings(mode)
    }

    /// An emitter over `resolver` that listens and has no task in flight,
    /// and the first messages to pass on: the request to go to
    /// `initial_path`.
    pub fn with_resolver(resolver: MessageResolver, initial_path: String) -> (started: (
        Emitter,
        Vec<Message>,
    ))
        ensures
            started.0@ == (EmitterState {
                resolver: resolver@,
                tasks: ManagerState { running: Seq::empty(), next: 0, errors: Seq::empty() },
                listening: true,
            }),
            forall|mode: Mode| started.0.bindings(mode) == resolver.bindings(mode),
            started.1.deep_view() == seq![MessageView::NavigateToPath(initial_path@)],
    {
        let mut messages: Vec<Message> = Vec::new();
        messages.push(Message::NavigateToPath(initial_path));
        proof {
            assert(messages.deep_view() =~= seq![MessageView::NavigateToPath(initial_path@)]);
        }
        (Emitter { resolver, tasks: TaskManager::new(), listening: true }, messages)
    }

    /// An emitter over the default key map, in the default mode, that
    /// listens and has no task in flight, and the first messages to pass
    /// on: the request to go to `initial_path`.
    pub fn start(initial_path: String) -> (started: (Emitter, Vec<Message>))
        ensures
            started.0@ == (EmitterState {
                resolver: ResolverState::idle(Mode::Navigation),
                tasks: ManagerState { running: Seq::empty(), next: 0, errors: Seq::empty() },
                listening: true,
            }),
            forall|mode: Mode|
                started.0.bindings(mode) == table_of(default_mappings(mode)),
            started.1.deep_view() == seq![MessageView::NavigateToPath(initial_path@)],
    {
        let resolver = MessageResolver::default();
        let started = Emitter::with_resolver(resolver, initial_path);
        proof {
            assert forall|mode: Mode|
                started.0.bindings(mode) == table_of(default_mappings(mode)) by {
                assert(started.0.bindings(mode) == resolver.bindings(mode));
            }
        }
        started
    }

    /// Stops taking terminal input. Returns whether input was taken before:
    /// `false` if the emitter was suspended already.
    pub fn suspend(&mut self) -> (stopped: bool)
        ensures
            (final(self)@, stopped) == suspend_step(old(self)@),
            forall|mode: Mode| final(self).bindings(mode) == old(self).bindings(mode),
    {
        let stopped = self.listening;
        self.listening = false;
        stopped
    }

    /// Takes terminal input again, with the resolver as it was left.
    pub fn resume(&mut self)
        ensures
            final(self)@ == resume_step(old(self)@),
            forall|mode: Mode| final(self).bindings(mode) == old(self).bindings(mode),
    {
        self.listening = true;
    }

    /// Sets the mode of the resolver, which holds from the next key on. A
    /// chord or count that was pending is dropped.
    pub fn set_current_mode(&mut self, mode: Mode)
        ensures
            final(self)@ == (EmitterState { resolver: ResolverState::idle(mode), ..old(self)@ }),
            forall|m: Mode| final(self).bindings(m) == old(self).bindings(m),
    {
        self.resolver.set_mode(mode);
    }

    /// Takes an event of the terminal and returns the messages to pass on.
    pub fn handle_terminal_event(&mut self, event: TerminalEvent) -> (messages: Option<
        Vec<Message>,
    >)
        ensures
            (final(self)@, messages.deep_view()) == terminal_step(
                old(self).bindings(old(self)@.resolver.mode),
                old(self)@,
                event,
            ),
            forall|mode: Mode| final(self).bindings(mode) == old(self).bindings(mode),
            consistent(old(self).bindings(old(self)@.resolver.mode), old(self)@.resolver),
            consistent(final(self).bindings(final(self)@.resolver.mode), final(self)@.resolver),
    {
        let _ = self.resolver.mode();
        if !self.listening {
            return None;
        }
        match event {
            TerminalEvent::Key(Some(key)) => {
                let commands = self.resolver.add_and_resolve(key);
                Some(wrap(commands))
            },
            TerminalEvent::Resize(width, height) => {
                let mut messages: Vec<Message> = Vec::new();
                messages.push(Message::Resize(width, height));
                proof {
                    assert(messages.deep_view() =~= seq![MessageView::Resize(width, height)]);
                }
                Some(messages)
            },
            _ => None,
        }
    }

    /// Takes the messages that the execution with `handle` sent, and
    /// returns them if they are to be passed on: if that execution is in
    /// flight. What an execution sends after it was cancelled is dropped.
    pub fn handle_task_messages(&self, handle: u64, messages: Vec<Message>) -> (passed: Option<
        Vec<Message>,
    >)
        ensures
            passed == if self@.tasks.accepts(handle) {
                Some(messages)
            } else {
                None
            },
    {
        if self.tasks.accepts(handle) {
            Some(messages)
        } else {
            None
        }
    }

    /// Whether another task can be run; see [`TaskManager::has_handles`].
    pub fn has_handles(&self) -> (left: bool)
        ensures
            left == (self@.tasks.next < u64::MAX),
    {
        self.tasks.has_handles()
    }

    /// Runs `task`; see [`TaskManager::run`].
    pub fn run(&mut self, task: Task) -> (actions: Vec<TaskAction>)
        requires
            old(self)@.tasks.next < u64::MAX,
        ensures
            (final(self)@.tasks, actions@) == run_step(old(self)@.tasks, task.deep_view()),
            final(self)@.resolver == old(self)@.resolver,
            final(self)@.listening == old(self)@.listening,
            forall|mode: Mode| final(self).bindings(mode) == old(self).bindings(mode),
    {
        self.tasks.run(task)
    }

    /// Aborts `task`; see [`TaskManager::abort`].
    pub fn abort(&mut self, task: &Task) -> (cancel: Option<u64>)
        ensures
            (final(self)@.tasks, cancel) == abort_step(old(self)@.tasks, task.deep_view()),
            final(self)@.resolver == old(self)@.resolver,
            final(self)@.listening == old(self)@.listening,
            forall|mode: Mode| final(self).bindings(mode) == old(self).bindings(mode),
    {
        self.tasks.abort(task)
    }

    /// The task that is in flight under `handle`; see [`TaskManager::task`].
    pub fn task(&self, handle: u64) -> (task: Option<&Task>)
        ensures
            match position_of_handle(self@.tasks.running, handle) {
                Some(i) => task is Some && task.unwrap().deep_view() == self@.tasks.running[i].0,
                None => task is None,
            },
    {
        self.tasks.task(handle)
    }

    /// Records the end of an execution; see [`TaskManager::complete`].
    pub fn complete(&mut self, handle: u64, outcome: TaskOutcome)
        ensures
            final(self)@.tasks == complete_step(old(self)@.tasks, handle, failure_of(outcome)),
            final(self)@.resolver == old(self)@.resolver,
            final(self)@.listening == old(self)@.listening,
            forall|mode: Mode| final(self).bindings(mode) == old(self).bindings(mode),
    {
        self.tasks.complete(handle, outcome)
    }

    /// Begins the shutdown: the handles to cancel; see
    /// [`TaskManager::finishing`].
    pub fn shutdown(&mut self) -> (cancel: Vec<u64>)
        ensures
            (final(self)@.tasks, cancel@) == finishing_step(old(self)@.tasks),
            final(self)@.resolver == old(self)@.resolver,
            final(self)@.listening == old(self)@.listening,
            forall|mode: Mode| final(self).bindings(mode) == old(self).bindings(mode),
    {
        self.tasks.finishing()
    }

    /// Ends the shutdown: success, or every error that was reported, in
    /// one; see [`TaskManager::settle`].
    pub fn settle(&mut self) -> (result: Result<(), AppError>)
        ensures
            final(self)@ == (EmitterState {
                tasks: ManagerState { errors: Seq::empty(), ..old(self)@.tasks },
                ..old(self)@
            }),
            old(self)@.tasks.errors.len() == 0 ==> result is Ok,
            old(self)@.tasks.errors.len() > 0 ==> match result {
                Err(AppError::Aggregate(errors)) => errors@ == old(self)@.tasks.errors,
                _ => false,
            },
            forall|mode: Mode| final(self).bindings(mode) == old(self).bindings(mode),
    {
        self.tasks.settle()
    }
}

} // verus!
