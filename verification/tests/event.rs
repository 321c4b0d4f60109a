use yeet::action::Action;
use yeet::error::AppError;
use yeet::event::{
    handle_notify_event, AccessKind, AccessMode, Emitter, EventKind, FsEvent, ModifyKind,
    RenameMode, TerminalEvent,
};
use yeet::keymap::key::{Key, KeyCode};
use yeet::keymap::message::{CursorDirection, KeymapMessage, Mode};
use yeet::message::Message;
use yeet::task::manager::{TaskAction, TaskOutcome};
use yeet::task::Task;
use yeet::tui::{perform, Effect};

fn event(kind: EventKind, paths: &[&str]) -> FsEvent {
    FsEvent { kind, paths: paths.iter().map(|p| p.to_string()).collect() }
}

fn started() -> Emitter {
    Emitter::start("/home".to_string()).0
}

fn key(event_key: Key) -> TerminalEvent {
    TerminalEvent::Key(Some(event_key))
}

#[test]
fn rename_with_two_paths_removes_then_adds() {
    let kind = EventKind::Modify(ModifyKind::Name(RenameMode::Both));
    assert_eq!(
        handle_notify_event(event(kind, &["/old", "/new"])),
        Some(vec![
            Message::PathRemoved("/old".to_string()),
            Message::PathsAdded(vec!["/new".to_string()]),
        ])
    );
}

#[test]
fn rename_with_another_number_of_paths_is_dropped() {
    let kind = EventKind::Modify(ModifyKind::Name(RenameMode::Both));
    assert_eq!(handle_notify_event(event(kind, &[])), None);
    assert_eq!(handle_notify_event(event(kind, &["/only"])), None);
    assert_eq!(handle_notify_event(event(kind, &["/a", "/b", "/c"])), None);
}

#[test]
fn closed_write_finishes_each_path() {
    let kind = EventKind::Access(AccessKind::Close(AccessMode::Write));
    assert_eq!(
        handle_notify_event(event(kind, &["/a", "/b"])),
        Some(vec![
            Message::PathsWriteFinished(vec!["/a".to_string()]),
            Message::PathsWriteFinished(vec!["/b".to_string()]),
        ])
    );
    assert_eq!(handle_notify_event(event(kind, &[])), Some(vec![]));
}

#[test]
fn create_adds_each_path() {
    assert_eq!(
        handle_notify_event(event(EventKind::Create, &["/a", "/b"])),
        Some(vec![
            Message::PathsAdded(vec!["/a".to_string()]),
            Message::PathsAdded(vec!["/b".to_string()]),
        ])
    );
}

#[test]
fn remove_removes_each_path() {
    assert_eq!(
        handle_notify_event(event(EventKind::Remove, &["/a", "/b"])),
        Some(vec![
            Message::PathRemoved("/a".to_string()),
            Message::PathRemoved("/b".to_string()),
        ])
    );
}

#[test]
fn other_kinds_are_dropped() {
    let dropped = [
        EventKind::Any,
        EventKind::Other,
        EventKind::Access(AccessKind::Any),
        EventKind::Access(AccessKind::Read),
        EventKind::Access(AccessKind::Other),
        EventKind::Access(AccessKind::Open(AccessMode::Write)),
        EventKind::Access(AccessKind::Close(AccessMode::Read)),
        EventKind::Access(AccessKind::Close(AccessMode::Any)),
        EventKind::Access(AccessKind::Close(AccessMode::Execute)),
        EventKind::Access(AccessKind::Close(AccessMode::Other)),
        EventKind::Modify(ModifyKind::Any),
        EventKind::Modify(ModifyKind::Data),
        EventKind::Modify(ModifyKind::Metadata),
        EventKind::Modify(ModifyKind::Other),
        EventKind::Modify(ModifyKind::Name(RenameMode::Any)),
        EventKind::Modify(ModifyKind::Name(RenameMode::To)),
        EventKind::Modify(ModifyKind::Name(RenameMode::From)),
        EventKind::Modify(ModifyKind::Name(RenameMode::Other)),
    ];
    for kind in dropped {
        assert_eq!(handle_notify_event(event(kind, &["/a", "/b"])), None);
    }
}

#[test]
fn start_asks_to_navigate_to_the_initial_path() {
    let (emitter, messages) = Emitter::start("/home/me".to_string());
    assert_eq!(messages, vec![Message::NavigateToPath("/home/me".to_string())]);
    assert!(emitter.has_handles());
}

#[test]
fn key_events_go_through_the_resolver() {
    let mut emitter = started();
    assert_eq!(emitter.handle_terminal_event(key(Key::print('g'))), Some(vec![]));
    assert_eq!(
        emitter.handle_terminal_event(key(Key::print('g'))),
        Some(vec![Message::Keymap(KeymapMessage::MoveCursor(1, CursorDirection::Top))])
    );
    assert_eq!(
        emitter.handle_terminal_event(key(Key::print('h'))),
        Some(vec![Message::Keymap(KeymapMessage::SelectParent)])
    );
}

#[test]
fn resize_is_passed_on_and_the_rest_is_dropped() {
    let mut emitter = started();
    assert_eq!(
        emitter.handle_terminal_event(TerminalEvent::Resize(80, 24)),
        Some(vec![Message::Resize(80, 24)])
    );
    assert_eq!(emitter.handle_terminal_event(TerminalEvent::FocusGained), None);
    assert_eq!(emitter.handle_terminal_event(TerminalEvent::FocusLost), None);
    assert_eq!(emitter.handle_terminal_event(TerminalEvent::Mouse), None);
    assert_eq!(emitter.handle_terminal_event(TerminalEvent::Paste), None);
    assert_eq!(emitter.handle_terminal_event(TerminalEvent::Key(None)), None);
}

#[test]
fn suspend_and_resume_keep_the_pending_chord() {
    let mut emitter = started();
    emitter.set_current_mode(Mode::Normal);
    assert_eq!(emitter.handle_terminal_event(key(Key::print('2'))), Some(vec![]));
    assert_eq!(emitter.handle_terminal_event(key(Key::print('g'))), Some(vec![]));
    assert!(emitter.suspend());
    assert!(!emitter.suspend());
    assert_eq!(emitter.handle_terminal_event(key(Key::print('x'))), None);
    assert_eq!(emitter.handle_terminal_event(TerminalEvent::Resize(1, 1)), None);
    emitter.resume();
    assert_eq!(
        emitter.handle_terminal_event(key(Key::print('g'))),
        Some(vec![Message::Keymap(KeymapMessage::MoveCursor(2, CursorDirection::Top))])
    );
}

#[test]
fn set_current_mode_holds_from_the_next_key() {
    let mut emitter = started();
    assert_eq!(
        emitter.handle_terminal_event(key(Key::print('h'))),
        Some(vec![Message::Keymap(KeymapMessage::SelectParent)])
    );
    emitter.set_current_mode(Mode::Normal);
    assert_eq!(
        emitter.handle_terminal_event(key(Key::print('h'))),
        Some(vec![Message::Keymap(KeymapMessage::MoveCursor(1, CursorDirection::Left))])
    );
    assert_eq!(
        emitter.handle_terminal_event(key(Key::plain(KeyCode::Esc))),
        Some(vec![Message::Keymap(KeymapMessage::ChangeMode(Mode::Normal, Mode::Navigation))])
    );
}

#[test]
fn set_current_mode_drops_a_pending_chord() {
    let mut emitter = started();
    assert_eq!(emitter.handle_terminal_event(key(Key::print('g'))), Some(vec![]));
    emitter.set_current_mode(Mode::Normal);
    assert_eq!(emitter.handle_terminal_event(key(Key::print('g'))), Some(vec![]));
    assert_eq!(
        emitter.handle_terminal_event(key(Key::print('g'))),
        Some(vec![Message::Keymap(KeymapMessage::MoveCursor(1, CursorDirection::Top))])
    );
}

#[test]
fn only_messages_of_tasks_in_flight_are_passed_on() {
    let mut emitter = started();
    let task = || Task::EnumerateDirectory("/dir".to_string());
    assert_eq!(emitter.run(task()), vec![TaskAction::Spawn(0)]);
    let batch = || vec![Message::PathEnumerationFinished("/dir".to_string())];
    assert_eq!(emitter.handle_task_messages(0, batch()), Some(batch()));
    assert_eq!(emitter.run(task()), vec![TaskAction::Abort(0), TaskAction::Spawn(1)]);
    assert_eq!(emitter.handle_task_messages(0, batch()), None);
    assert_eq!(emitter.handle_task_messages(1, batch()), Some(batch()));
    assert_eq!(emitter.task(1), Some(&task()));
    assert_eq!(emitter.abort(&task()), Some(1));
    assert_eq!(emitter.handle_task_messages(1, batch()), None);
}

#[test]
fn shutdown_cancels_and_settles() {
    let mut emitter = started();
    emitter.run(Task::LoadPreview("/a".to_string()));
    emitter.run(Task::AddPath("/b".to_string()));
    assert_eq!(emitter.shutdown(), vec![0]);
    emitter.complete(0, TaskOutcome::Cancelled);
    emitter.complete(1, TaskOutcome::Failed(AppError::InvalidTargetPath));
    assert_eq!(
        emitter.settle(),
        Err(AppError::Aggregate(vec![AppError::InvalidTargetPath]))
    );
    assert_eq!(emitter.settle(), Ok(()));
}

#[test]
fn shutdown_without_errors_succeeds() {
    let mut emitter = started();
    emitter.run(Task::AddPath("/b".to_string()));
    assert_eq!(emitter.shutdown(), Vec::<u64>::new());
    emitter.complete(0, TaskOutcome::Succeeded);
    assert_eq!(emitter.settle(), Ok(()));
}

#[test]
fn perform_runs_tasks_and_tells_the_resolver() {
    let mut emitter = started();
    assert_eq!(
        perform(&mut emitter, Action::Task(Task::AddPath("/a".to_string())), false),
        vec![Effect::Spawn(0)]
    );
    assert_eq!(perform(&mut emitter, Action::ModeChanged(Mode::Normal), false), vec![]);
    assert_eq!(
        emitter.handle_terminal_event(key(Key::print('l'))),
        Some(vec![Message::Keymap(KeymapMessage::MoveCursor(1, CursorDirection::Right))])
    );
    assert_eq!(perform(&mut emitter, Action::Quit, false), vec![Effect::Quit]);
    assert_eq!(perform(&mut emitter, Action::Resize(3, 4), false), vec![Effect::Resize(3, 4)]);
    assert_eq!(
        perform(&mut emitter, Action::EmitMessages(vec![Message::Resize(1, 1)]), false),
        vec![Effect::Spawn(1)]
    );
    assert_eq!(emitter.task(1), Some(&Task::EmitMessages(vec![Message::Resize(1, 1)])));
}

#[test]
fn perform_watches_a_directory_by_reading_it() {
    let mut emitter = started();
    assert_eq!(
        perform(&mut emitter, Action::WatchPath("/dir".to_string()), true),
        vec![Effect::Spawn(0), Effect::Watch("/dir".to_string())]
    );
    assert_eq!(emitter.task(0), Some(&Task::EnumerateDirectory("/dir".to_string())));
    assert_eq!(
        perform(&mut emitter, Action::WatchPath("/file".to_string()), false),
        vec![Effect::Spawn(1), Effect::Watch("/file".to_string())]
    );
    assert_eq!(emitter.task(1), Some(&Task::LoadPreview("/file".to_string())));
    assert_eq!(
        perform(&mut emitter, Action::WatchPath("/dir".to_string()), true),
        vec![Effect::Abort(0), Effect::Spawn(2), Effect::Watch("/dir".to_string())]
    );
    assert_eq!(perform(&mut emitter, Action::WatchPath(String::new()), true), vec![]);
}

#[test]
fn perform_unwatches_and_stops_reading() {
    let mut emitter = started();
    perform(&mut emitter, Action::WatchPath("/dir".to_string()), true);
    assert_eq!(
        perform(&mut emitter, Action::UnwatchPath("/dir".to_string()), true),
        vec![Effect::Abort(0), Effect::Unwatch("/dir".to_string())]
    );
    assert_eq!(
        perform(&mut emitter, Action::UnwatchPath("/dir".to_string()), true),
        vec![Effect::Unwatch("/dir".to_string())]
    );
    assert_eq!(perform(&mut emitter, Action::UnwatchPath(String::new()), false), vec![]);
}
