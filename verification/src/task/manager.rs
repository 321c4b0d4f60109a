//! The task manager: which tasks are in flight, under which handles, and
//! what has to be cancelled or started when a task is run, aborted, or the
//! session ends.
//!
//! The manager is defined over plain values by the `*_step` functions below;
//! [`TaskManager`] carries them out.
use vstd::prelude::*;
use crate::error::AppError;
use crate::task::{identity_of, same_task, should_abort_on_finish, Task, TaskView};

verus! {

/// What the driver of the manager has to do.
#[derive(Clone, Copy, Debug, PartialEq, Eq, Structural)]
pub enum TaskAction {
    /// Cancel the execution with this handle.
    Abort(u64),
    /// Start the task running under this handle.
    Spawn(u64),
}

/// How an execution ended.
#[derive(Debug, PartialEq, Eq)]
pub enum TaskOutcome {
    /// It was cancelled, or it died, before it could report.
    Cancelled,
    /// It reported this error.
    Failed(AppError),
    /// It ran to its end.
    Succeeded,
}

/// The state of the manager over plain values.
pub struct ManagerState {
    /// The tasks in flight, each with the handle of its execution, in the
    /// order in which they were started.
    pub running: Seq<(TaskView, u64)>,
    /// The handle the next execution gets.
    pub next: u64,
    /// The errors reported so far, in the order in which they came.
    pub errors: Seq<AppError>,
}

/// The first position in `running` that holds a task of the identity of
/// `task`.
pub open spec fn position_of(running: Seq<(TaskView, u64)>, task: TaskView) -> Option<int>
    decreases running.len(),
{
    if running.len() == 0 {
        None
    } else if same_task(running[0].0, task) {
        Some(0)
    } else {
        match position_of(running.drop_first(), task) {
            Some(i) => Some(i + 1),
            None => None,
        }
    }
}

/// The first position in `running` that holds `handle`.
pub open spec fn position_of_handle(running: Seq<(TaskView, u64)>, handle: u64) -> Option<int>
    decreases running.len(),
{
    if running.len() == 0 {
        None
    } else if running[0].1 == handle {
        Some(0)
    } else {
        match position_of_handle(running.drop_first(), handle) {
            Some(i) => Some(i + 1),
            None => None,
        }
    }
}

/// The handles of the tasks in `running` that are cancelled when the
/// session ends, in order.
pub open spec fn handles_to_abort(running: Seq<(TaskView, u64)>) -> Seq<u64>
    decreases running.len(),
{
    if running.len() == 0 {
        Seq::empty()
    } else if running.last().0.aborts_on_finish() {
        handles_to_abort(running.drop_last()).push(running.last().1)
    } else {
        handles_to_abort(running.drop_last())
    }
}

impl ManagerState {
    /// No two tasks of one identity are running, no handle is running twice,
    /// and every running handle has been handed out.
    pub open spec fn valid(self) -> bool {
        &&& forall|i: int, j: int|
            0 <= i < j < self.running.len() ==> identity_of(self.running[i].0) != identity_of(
                self.running[j].0,
            )
        &&& forall|i: int, j: int|
            0 <= i < j < self.running.len() ==> self.running[i].1 != self.running[j].1
        &&& forall|i: int| 0 <= i < self.running.len() ==> self.running[i].1 < self.next
    }

    /// Whether the execution with this handle is in flight. What it sends is
    /// passed on only while this holds.
    pub open spec fn accepts(self, handle: u64) -> bool {
        position_of_handle(self.running, handle) is Some
    }

    /// The handle under which `task` is in flight.
    pub open spec fn handle_of(self, task: TaskView) -> Option<u64> {
        match position_of(self.running, task) {
            Some(i) => Some(self.running[i].1),
            None => None,
        }
    }
}

/// Running `task`: a task of the same identity that is in flight is
/// cancelled and forgotten first; then `task` is started under a new handle.
pub open spec fn run_step(state: ManagerState, task: TaskView) -> (ManagerState, Seq<TaskAction>) {
    let handle = state.next;
    let next = (handle + 1) as u64;
    match position_of(state.running, task) {
        Some(i) => (
            ManagerState { running: state.running.remove(i).push((task, handle)), next, ..state },
            seq![TaskAction::Abort(state.running[i].1), TaskAction::Spawn(handle)],
        ),
        None => (
            ManagerState { running: state.running.push((task, handle)), next, ..state },
            seq![TaskAction::Spawn(handle)],
        ),
    }
}

/// Aborting `task`: if it is in flight it is forgotten, and its handle is
/// the one to cancel.
pub open spec fn abort_step(state: ManagerState, task: TaskView) -> (ManagerState, Option<u64>) {
    match position_of(state.running, task) {
        Some(i) => (
            ManagerState { running: state.running.remove(i), ..state },
            Some(state.running[i].1),
        ),
        None => (state, None),
    }
}

/// The end of the execution with `handle`: it is forgotten, and the error it
/// reported, if any, is kept.
pub open spec fn complete_step(
    state: ManagerState,
    handle: u64,
    failure: Option<AppError>,
) -> ManagerState {
    let running = match position_of_handle(state.running, handle) {
        Some(i) => state.running.remove(i),
        None => state.running,
    };
    let errors = match failure {
        Some(error) => state.errors.push(error),
        None => state.errors,
    };
    ManagerState { running, errors, ..state }
}

/// The end of the session: every task is forgotten, and the handles of those
/// that do not have to run to their end are the ones to cancel.
pub open spec fn finishing_step(state: ManagerState) -> (ManagerState, Seq<u64>) {
    (ManagerState { running: Seq::empty(), ..state }, handles_to_abort(state.running))
}

/// The error a task reported, if it did.
pub open spec fn failure_of(outcome: TaskOutcome) -> Option<AppError> {
    match outcome {
        TaskOutcome::Failed(error) => Some(error),
        _ => None,
    }
}

/// The errors that the executions in `ended` reported, in order.
pub open spec fn reported(ended: Seq<(u64, TaskOutcome)>) -> Seq<AppError>
    decreases ended.len(),
{
    if ended.len() == 0 {
        Seq::empty()
    } else {
        match failure_of(ended.last().1) {
            Some(error) => reported(ended.drop_last()).push(error),
            None => reported(ended.drop_last()),
        }
    }
}

/// The state after the executions in `ended` have ended, in that order.
pub open spec fn complete_all(state: ManagerState, ended: Seq<(u64, TaskOutcome)>) -> ManagerState
    decreases ended.len(),
{
    if ended.len() == 0 {
        state
    } else {
        complete_step(
            complete_all(state, ended.drop_last()),
            ended.last().0,
            failure_of(ended.last().1),
        )
    }
}

/// `position_of` finds the first position that holds the identity.
pub proof fn lemma_position_of(running: Seq<(TaskView, u64)>, task: TaskView)
    ensures
        match position_of(running, task) {
            Some(i) => 0 <= i < running.len() && same_task(running[i].0, task) && forall|j: int|
                0 <= j < i ==> !same_task(running[j].0, task),
            None => forall|j: int| 0 <= j < running.len() ==> !same_task(running[j].0, task),
        },
    decreases running.len(),
{
    if running.len() > 0 && !same_task(running[0].0, task) {
        let rest = running.drop_first();
        lemma_position_of(rest, task);
        match position_of(rest, task) {
            Some(i) => {
                assert forall|j: int| 0 <= j < i + 1 implies !same_task(running[j].0, task) by {
                    if j > 0 {
                        assert(rest[j - 1] == running[j]);
                    }
                }
                assert(rest[i] == running[i + 1]);
            },
            None => {
                assert forall|j: int| 0 <= j < running.len() implies !same_task(
                    running[j].0,
                    task,
                ) by {
                    if j > 0 {
                        assert(rest[j - 1] == running[j]);
                    }
                }
            },
        }
    }
}

/// `position_of_handle` finds the first position that holds the handle.
pub proof fn lemma_position_of_handle(running: Seq<(TaskView, u64)>, handle: u64)
    ensures
        match position_of_handle(running, handle) {
            Some(i) => 0 <= i < running.len() && running[i].1 == handle && forall|j: int|
                0 <= j < i ==> running[j].1 != handle,
            None => forall|j: int| 0 <= j < running.len() ==> running[j].1 != handle,
        },
    decreases running.len(),
{
    if running.len() > 0 && running[0].1 != handle {
        let rest = running.drop_first();
        lemma_position_of_handle(rest, handle);
        match position_of_handle(rest, handle) {
            Some(i) => {
                assert forall|j: int| 0 <= j < i + 1 implies running[j].1 != handle by {
                    if j > 0 {
                        assert(rest[j - 1] == running[j]);
                    }
                }
                assert(rest[i] == running[i + 1]);
            },
            None => {
                assert forall|j: int| 0 <= j < running.len() implies running[j].1 != handle by {
                    if j > 0 {
                        assert(rest[j - 1] == running[j]);
                    }
                }
            },
        }
    }
}

/// A position that holds the identity, with none before it, is the one
/// `position_of` finds.
proof fn lemma_position_is(running: Seq<(TaskView, u64)>, task: TaskView, found: Option<int>)
    requires
        match found {
            Some(i) => 0 <= i < running.len() && same_task(running[i].0, task) && forall|j: int|
                0 <= j < i ==> !same_task(running[j].0, task),
            None => forall|j: int| 0 <= j < running.len() ==> !same_task(running[j].0, task),
        },
    ensures
        position_of(running, task) == found,
{
    lemma_position_of(running, task);
}

/// A position that holds the handle, with none before it, is the one
/// `position_of_handle` finds.
proof fn lemma_handle_position_is(running: Seq<(TaskView, u64)>, handle: u64, found: Option<int>)
    requires
        match found {
            Some(i) => 0 <= i < running.len() && running[i].1 == handle && forall|j: int|
                0 <= j < i ==> running[j].1 != handle,
            None => forall|j: int| 0 <= j < running.len() ==> running[j].1 != handle,
        },
    ensures
        position_of_handle(running, handle) == found,
{
    lemma_position_of_handle(running, handle);
}

/// Decides which tasks run and which are cancelled, and keeps the errors
/// that finished tasks report.
#[derive(Debug)]
pub struct TaskManager {
    running: Vec<(Task, u64)>,
    next: u64,
    errors: Vec<AppError>,
}

impl View for TaskManager {
    type V = ManagerState;

    closed spec fn view(&self) -> ManagerState {
        ManagerState { running: self.running.deep_view(), next: self.next, errors: self.errors@ }
    }
}

/// The first position in `running` that holds the identity of `task`.
fn find_task(running: &Vec<(Task, u64)>, task: &Task) -> (found: Option<usize>)
    ensures
        match found {
            Some(i) => position_of(running.deep_view(), task.deep_view()) == Some(i as int) && i
                < running.len(),
            None => position_of(running.deep_view(), task.deep_view()) is None,
        },
{
    let mut i: usize = 0;
    while i < running.len()
        invariant
            i <= running.len(),
            forall|j: int| 0 <= j < i ==> !same_task(running.deep_view()[j].0, task.deep_view()),
        decreases running.len() - i,
    {
        if running[i].0.same(task) {
            proof {
                assert(same_task(running.deep_view()[i as int].0, task.deep_view()));
                lemma_position_is(running.deep_view(), task.deep_view(), Some(i as int));
            }
            return Some(i);
        }
        proof {
            assert(!same_task(running.deep_view()[i as int].0, task.deep_view()));
        }
        i += 1;
    }
    proof {
        lemma_position_is(running.deep_view(), task.deep_view(), None);
    }
    None
}

/// The first position in `running` that holds `handle`.
fn find_handle(running: &Vec<(Task, u64)>, handle: u64) -> (found: Option<usize>)
    ensures
        match found {
            Some(i) => position_of_handle(running.deep_view(), handle) == Some(i as int) && i
                < running.len(),
            None => position_of_handle(running.deep_view(), handle) is None,
        },
{
    let mut i: usize = 0;
    while i < running.len()
        invariant
            i <= running.len(),
            forall|j: int| 0 <= j < i ==> running.deep_view()[j].1 != handle,
        decreases running.len() - i,
    {
        if running[i].1 == handle {
            proof {
                assert(running.deep_view()[i as int].1 == handle);
                lemma_handle_position_is(running.deep_view(), handle, Some(i as int));
            }
            return Some(i);
        }
        proof {
            assert(running.deep_view()[i as int].1 != handle);
        }
        i += 1;
    }
    proof {
        lemma_handle_position_is(running.deep_view(), handle, None);
    }
    None
}

/// Takes the entry at `index` out of `running`.
fn take_entry(running: &mut Vec<(Task, u64)>, index: usize) -> (entry: (Task, u64))
    requires
        index < old(running).len(),
    ensures
        final(running).deep_view() == old(running).deep_view().remove(index as int),
        entry.deep_view() == old(running).deep_view()[index as int],
{
    let entry = running.remove(index);
    proof {
        assert(running.deep_view() =~= old(running).deep_view().remove(index as int));
    }
    entry
}

/// Appends an entry to `running`.
fn put_entry(running: &mut Vec<(Task, u64)>, task: Task, handle: u64)
    ensures
        final(running).deep_view() == old(running).deep_view().push((task.deep_view(), handle)),
{
    running.push((task, handle));
    proof {
        assert(running.deep_view() =~= old(running).deep_view().push((task.deep_view(), handle)));
    }
}

impl TaskManager {
    #[verifier::type_invariant]
    spec fn well_formed(&self) -> bool {
        self@.valid()
    }

    /// A manager with nothing in flight and nothing reported.
    pub fn new() -> (manager: TaskManager)
        ensures
            manager@ == (ManagerState { running: Seq::empty(), next: 0, errors: Seq::empty() }),
    {
        let manager = TaskManager { running: Vec::new(), next: 0, errors: Vec::new() };
        proof {
            assert(manager@.running =~= Seq::empty());
        }
        manager
    }

    /// Takes the running tasks out, leaving none.
    fn take_running(&mut self) -> (running: Vec<(Task, u64)>)
        ensures
            running.deep_view() == old(self)@.running,
            final(self)@ == (ManagerState { running: Seq::empty(), ..old(self)@ }),
    {
        let mut running: Vec<(Task, u64)> = Vec::new();
        proof {
            assert(running.deep_view() =~= Seq::empty());
        }
        std::mem::swap(&mut self.running, &mut running);
        running
    }

    /// Puts `running` in the place of the running tasks.
    fn put_running(&mut self, running: Vec<(Task, u64)>)
        requires
            (ManagerState { running: running.deep_view(), ..old(self)@ }).valid(),
        ensures
            final(self)@ == (ManagerState { running: running.deep_view(), ..old(self)@ }),
    {
        let mut running = running;
        std::mem::swap(&mut self.running, &mut running);
    }

    /// Whether another task can be run: whether a handle is left for it.
    pub fn has_handles(&self) -> (left: bool)
        ensures
            left == (self@.next < u64::MAX),
    {
        self.next < u64::MAX
    }

    /// Runs `task`. If a task of the same identity is in flight, the first
    /// action cancels it; the last action starts `task` under a new handle.
    pub fn run(&mut self, task: Task) -> (actions: Vec<TaskAction>)
        requires
            old(self)@.next < u64::MAX,
        ensures
            (final(self)@, actions@) == run_step(old(self)@, task.deep_view()),
            final(self)@.valid(),
    {
        proof {
            use_type_invariant(&*self);
            lemma_position_of(self@.running, task.deep_view());
        }
        let mut actions: Vec<TaskAction> = Vec::new();
        let mut running = self.take_running();
        match find_task(&running, &task) {
            Some(i) => {
                let (_, handle) = take_entry(&mut running, i);
                actions.push(TaskAction::Abort(handle));
            },
            None => {},
        }
        let handle = self.next;
        self.next = handle + 1;
        put_entry(&mut running, task, handle);
        actions.push(TaskAction::Spawn(handle));
        self.put_running(running);
        proof {
            assert(actions@ =~= run_step(old(self)@, task.deep_view()).1);
            use_type_invariant(&*self);
        }
        actions
    }

    /// Forgets `task` if it is in flight, and returns the handle to cancel.
    pub fn abort(&mut self, task: &Task) -> (cancel: Option<u64>)
        ensures
            (final(self)@, cancel) == abort_step(old(self)@, task.deep_view()),
    {
        proof {
            use_type_invariant(&*self);
        }
        let mut running = self.take_running();
        let cancel = match find_task(&running, task) {
            Some(i) => {
                let (_, handle) = take_entry(&mut running, i);
                Some(handle)
            },
            None => None,
        };
        self.put_running(running);
        cancel
    }

    /// Records that the execution with `handle` has ended: it is forgotten,
    /// and the error it reported, if any, is kept for the end of the session.
    pub fn complete(&mut self, handle: u64, outcome: TaskOutcome)
        ensures
            final(self)@ == complete_step(old(self)@, handle, failure_of(outcome)),
    {
        proof {
            use_type_invariant(&*self);
        }
        let mut running = self.take_running();
        match find_handle(&running, handle) {
            Some(i) => {
                let _ = take_entry(&mut running, i);
            },
            None => {},
        }
        self.put_running(running);
        match outcome {
            TaskOutcome::Failed(error) => {
                let mut errors: Vec<AppError> = Vec::new();
                std::mem::swap(&mut self.errors, &mut errors);
                errors.push(error);
                std::mem::swap(&mut self.errors, &mut errors);
            },
            _ => {},
        }
    }

    /// Whether the execution with `handle` is in flight.
    pub fn accepts(&self, handle: u64) -> (accepted: bool)
        ensures
            accepted == self@.accepts(handle),
    {
        find_handle(&self.running, handle).is_some()
    }

    /// The task that is in flight under `handle`.
    pub fn task(&self, handle: u64) -> (task: Option<&Task>)
        ensures
            match position_of_handle(self@.running, handle) {
                Some(i) => task is Some && task.unwrap().deep_view() == self@.running[i].0,
                None => task is None,
            },
    {
        match find_handle(&self.running, handle) {
            Some(i) => {
                proof {
                    let entry = self.running@[i as int];
                    assert(self.running.deep_view()[i as int].0 == entry.0.deep_view());
                }
                Some(&self.running[i].0)
            },
            None => None,
        }
    }

    /// Begins the end of the session: every task is forgotten, and the
    /// handles returned are those to cancel. The other executions are to be
    /// awaited.
    pub fn finishing(&mut self) -> (cancel: Vec<u64>)
        ensures
            (final(self)@, cancel@) == finishing_step(old(self)@),
    {
        let running = self.take_running();
        let mut cancel: Vec<u64> = Vec::new();
        let mut i: usize = 0;
        proof {
            assert(running.deep_view().take(0) =~= Seq::empty());
        }
        while i < running.len()
            invariant
                i <= running.len(),
                cancel@ == handles_to_abort(running.deep_view().take(i as int)),
            decreases running.len() - i,
        {
            proof {
                let upto = running.deep_view().take(i + 1);
                assert(upto.drop_last() =~= running.deep_view().take(i as int));
                assert(upto.last() == (running@[i as int].0.deep_view(), running@[i as int].1));
            }
            if should_abort_on_finish(&running[i].0) {
                cancel.push(running[i].1);
            }
            i += 1;
        }
        proof {
            assert(running.deep_view().take(i as int) =~= running.deep_view());
        }
        cancel
    }

    /// Ends the session: success if no task reported an error, else all the
    /// errors reported, in one. The errors are handed over and forgotten.
    pub fn settle(&mut self) -> (result: Result<(), AppError>)
        ensures
            final(self)@ == (ManagerState { errors: Seq::empty(), ..old(self)@ }),
            old(self)@.errors.len() == 0 ==> result is Ok,
            old(self)@.errors.len() > 0 ==> match result {
                Err(AppError::Aggregate(errors)) => errors@ == old(self)@.errors,
                _ => false,
            },
    {
        proof {
            use_type_invariant(&*self);
        }
        let mut errors: Vec<AppError> = Vec::new();
        std::mem::swap(&mut self.errors, &mut errors);
        if errors.len() == 0 {
            Ok(())
        } else {
            Err(AppError::Aggregate(errors))
        }
    }
}

/// Running a task keeps the state valid: no identity and no handle is in
/// flight twice.
pub proof fn lemma_run_keeps_valid(state: ManagerState, task: TaskView)
    requires
        state.valid(),
        state.next < u64::MAX,
    ensures
        run_step(state, task).0.valid(),
        run_step(state, task).0.handle_of(task) == Some(state.next),
        run_step(state, task).0.accepts(state.next),
{
    lemma_position_of(state.running, task);
    let after = run_step(state, task).0;
    let last = after.running.len() - 1;
    assert(after.running[last] == (task, state.next));
    assert forall|j: int| 0 <= j < last implies !same_task(after.running[j].0, task)
        && after.running[j].1 != state.next by {
        match position_of(state.running, task) {
            Some(i) => {
                if j < i {
                    assert(after.running[j] == state.running[j]);
                } else {
                    assert(after.running[j] == state.running[j + 1]);
                }
            },
            None => {
                assert(after.running[j] == state.running[j]);
            },
        }
    }
    lemma_position_is(after.running, task, Some(last));
    lemma_handle_position_is(after.running, state.next, Some(last));
}

/// Aborting a task keeps the state valid, and the task is no longer in
/// flight afterwards, nor is its handle accepted.
pub proof fn lemma_abort_keeps_valid(state: ManagerState, task: TaskView)
    requires
        state.valid(),
    ensures
        abort_step(state, task).0.valid(),
        abort_step(state, task).0.handle_of(task) is None,
        match abort_step(state, task).1 {
            Some(handle) => state.handle_of(task) == Some(handle) && !abort_step(
                state,
                task,
            ).0.accepts(handle),
            None => state.handle_of(task) is None,
        },
{
    lemma_position_of(state.running, task);
    let after = abort_step(state, task).0;
    match position_of(state.running, task) {
        Some(i) => {
            let handle = state.running[i].1;
            assert forall|j: int| 0 <= j < after.running.len() implies !same_task(
                after.running[j].0,
                task,
            ) && after.running[j].1 != handle by {
                if j < i {
                    assert(after.running[j] == state.running[j]);
                } else {
                    assert(after.running[j] == state.running[j + 1]);
                }
            }
            lemma_position_is(after.running, task, None);
            lemma_handle_position_is(after.running, handle, None);
        },
        None => {},
    }
}

/// The end of an execution keeps the state valid, and its handle is no
/// longer accepted.
pub proof fn lemma_complete_keeps_valid(state: ManagerState, handle: u64, failure: Option<AppError>)
    requires
        state.valid(),
    ensures
        complete_step(state, handle, failure).valid(),
        !complete_step(state, handle, failure).accepts(handle),
{
    lemma_position_of_handle(state.running, handle);
    let after = complete_step(state, handle, failure);
    match position_of_handle(state.running, handle) {
        Some(i) => {
            assert forall|j: int| 0 <= j < after.running.len() implies after.running[j].1
                != handle by {
                if j < i {
                    assert(after.running[j] == state.running[j]);
                } else {
                    assert(after.running[j] == state.running[j + 1]);
                }
            }
            lemma_handle_position_is(after.running, handle, None);
        },
        None => {},
    }
}

/// Running a task twice in a row cancels the first execution before it
/// starts the second: the second call answers with the cancellation of the
/// first handle and then the start of a new one, and from then on only the
/// new handle is accepted for that task.
pub proof fn lemma_rerun_replaces(state: ManagerState, task: TaskView)
    requires
        state.valid(),
        state.next + 1 < u64::MAX,
    ensures
        ({
            let first = run_step(state, task);
            let second = run_step(first.0, task);
            &&& first.1.last() == TaskAction::Spawn(state.next)
            &&& second.1 == seq![
                TaskAction::Abort(state.next),
                TaskAction::Spawn((state.next + 1) as u64),
            ]
            &&& !second.0.accepts(state.next)
            &&& second.0.accepts((state.next + 1) as u64)
            &&& second.0.handle_of(task) == Some((state.next + 1) as u64)
            &&& second.0.valid()
        }),
{
    lemma_run_keeps_valid(state, task);
    let first = run_step(state, task);
    lemma_position_of(first.0.running, task);
    lemma_run_keeps_valid(first.0, task);
    let second = run_step(first.0, task);
    lemma_position_of_handle(second.0.running, state.next);
    if second.0.accepts(state.next) {
        let at = position_of_handle(second.0.running, state.next).unwrap();
        let i = position_of(first.0.running, task).unwrap();
        if at < i {
            assert(second.0.running[at] == first.0.running[at]);
        } else if at < second.0.running.len() - 1 {
            assert(second.0.running[at] == first.0.running[at + 1]);
        }
        lemma_position_of_handle(first.0.running, state.next);
    }
}

/// At the end of the session a handle is cancelled exactly if it belongs
/// to a task in flight that need not run to its end.
pub proof fn lemma_finishing_cancels(state: ManagerState, handle: u64)
    ensures
        finishing_step(state).1.contains(handle) <==> exists|i: int|
            0 <= i < state.running.len() && state.running[i].1 == handle
                && state.running[i].0.aborts_on_finish(),
        finishing_step(state).0.running.len() == 0,
    decreases state.running.len(),
{
    let running = state.running;
    if running.len() > 0 {
        let earlier = ManagerState { running: running.drop_last(), ..state };
        lemma_finishing_cancels(earlier, handle);
        let last = running.len() - 1;
        let before = handles_to_abort(running.drop_last());
        if finishing_step(state).1.contains(handle) {
            if running.last().0.aborts_on_finish() && running.last().1 == handle {
                assert(running[last].1 == handle);
            } else {
                if running.last().0.aborts_on_finish() {
                    let k = choose|k: int|
                        0 <= k < before.push(running.last().1).len() && before.push(
                            running.last().1,
                        )[k] == handle;
                    assert(before[k] == handle);
                }
                assert(before.contains(handle));
                let i = choose|i: int|
                    0 <= i < earlier.running.len() && earlier.running[i].1 == handle
                        && earlier.running[i].0.aborts_on_finish();
                assert(running[i] == earlier.running[i]);
            }
        }
        if exists|i: int|
            0 <= i < running.len() && running[i].1 == handle && running[i].0.aborts_on_finish() {
            let i = choose|i: int|
                0 <= i < running.len() && running[i].1 == handle
                    && running[i].0.aborts_on_finish();
            if i == last {
                assert(before.push(handle)[before.len() as int] == handle);
            } else {
                assert(earlier.running[i] == running[i]);
                assert(before.contains(handle));
                let k = choose|k: int| 0 <= k < before.len() && before[k] == handle;
                if running.last().0.aborts_on_finish() {
                    assert(before.push(running.last().1)[k] == handle);
                }
            }
        }
    }
}

/// The errors kept after a run of completions are those kept before,
/// followed by those the completions reported.
pub proof fn lemma_errors_after(state: ManagerState, ended: Seq<(u64, TaskOutcome)>)
    ensures
        complete_all(state, ended).errors == state.errors + reported(ended),
        complete_all(state, ended).next == state.next,
    decreases ended.len(),
{
    if ended.len() == 0 {
        assert(state.errors + reported(ended) =~= state.errors);
    } else {
        lemma_errors_after(state, ended.drop_last());
        assert(complete_all(state, ended).errors =~= state.errors + reported(ended));
    }
}

/// Some error is reported exactly if some execution failed.
pub proof fn lemma_reported_some(ended: Seq<(u64, TaskOutcome)>)
    ensures
        reported(ended).len() > 0 <==> exists|i: int|
            0 <= i < ended.len() && (#[trigger] ended[i]).1 is Failed,
    decreases ended.len(),
{
    if ended.len() > 0 {
        lemma_reported_some(ended.drop_last());
        let last = ended.len() - 1;
        if reported(ended).len() > 0 {
            if ended[last].1 is Failed {
            } else {
                let i = choose|i: int|
                    0 <= i < ended.drop_last().len() && (#[trigger] ended.drop_last()[i]).1
                        is Failed;
                assert(ended[i] == ended.drop_last()[i]);
            }
        }
        if exists|i: int| 0 <= i < ended.len() && (#[trigger] ended[i]).1 is Failed {
            let i = choose|i: int| 0 <= i < ended.len() && (#[trigger] ended[i]).1 is Failed;
            if i < last {
                assert(ended.drop_last()[i] == ended[i]);
            }
        }
    }
}

/// A session that ends with no error kept from before holds, once the
/// executions in `ended` have ended, exactly the errors they reported: none
/// if none of them failed, and at least one if one did.
pub proof fn lemma_shutdown_reports(state: ManagerState, ended: Seq<(u64, TaskOutcome)>)
    requires
        state.errors.len() == 0,
    ensures
        ({
            let end = complete_all(finishing_step(state).0, ended);
            &&& end.errors == reported(ended)
            &&& end.errors.len() > 0 <==> exists|i: int|
                0 <= i < ended.len() && (#[trigger] ended[i]).1 is Failed
        }),
{
    lemma_errors_after(finishing_step(state).0, ended);
    lemma_reported_some(ended);
    assert(state.errors + reported(ended) =~= reported(ended));
}

} // verus!
