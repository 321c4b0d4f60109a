use yeet::error::AppError;
use yeet::keymap::message::KeymapMessage;
use yeet::message::{ContentKind, Message};
use yeet::model::history::{History, HistoryNode, HistoryState};
use yeet::model::register::RegisterEntry;
use yeet::task::enumeration::{Enumeration, BATCH_SIZE};
use yeet::task::manager::{TaskAction, TaskManager, TaskOutcome};
use yeet::task::path::{plan_add, plan_add_below, plan_delete, plan_rename, PathOperation, PathState};
use yeet::task::preview::{preview_loaded, preview_of, previews, should_preview};
use yeet::task::{should_abort_on_finish, Task};

fn entry(id: &str) -> RegisterEntry {
    RegisterEntry {
        cache: "/cache".to_string(),
        id: id.to_string(),
        path: "/some/path".to_string(),
    }
}

fn history(component: &str) -> History {
    History {
        entries: vec![HistoryNode {
            changed_at: 1,
            component: component.to_string(),
            nodes: vec![],
            state: HistoryState::Added,
        }],
    }
}

#[test]
fn tasks_of_same_variant_and_payload_are_the_same() {
    assert!(Task::AddPath("/a".to_string()).same(&Task::AddPath("/a".to_string())));
    assert!(!Task::AddPath("/a".to_string()).same(&Task::AddPath("/b".to_string())));
    assert!(!Task::AddPath("/a".to_string()).same(&Task::DeletePath("/a".to_string())));
    assert!(Task::OptimizeHistory.same(&Task::OptimizeHistory));
    assert!(Task::RenamePath("/a".to_string(), "/b".to_string())
        .same(&Task::RenamePath("/a".to_string(), "/b".to_string())));
    assert!(!Task::RenamePath("/a".to_string(), "/b".to_string())
        .same(&Task::RenamePath("/a".to_string(), "/c".to_string())));
    assert!(Task::YankPath(entry("1")).same(&Task::YankPath(entry("1"))));
    assert!(!Task::YankPath(entry("1")).same(&Task::YankPath(entry("2"))));
    assert!(!Task::YankPath(entry("1")).same(&Task::TrashPath(entry("1"))));
    assert!(Task::RestorePath(entry("1"), "/x".to_string())
        .same(&Task::RestorePath(entry("1"), "/x".to_string())));
    assert!(!Task::RestorePath(entry("1"), "/x".to_string())
        .same(&Task::RestorePath(entry("1"), "/y".to_string())));
    assert!(Task::DeleteMarks(vec!['a', 'b']).same(&Task::DeleteMarks(vec!['a', 'b'])));
    assert!(!Task::DeleteMarks(vec!['a', 'b']).same(&Task::DeleteMarks(vec!['b', 'a'])));
}

#[test]
fn tasks_with_messages_and_history_compare_their_payload() {
    let first = Task::EmitMessages(vec![
        Message::Keymap(KeymapMessage::Quit),
        Message::PathsAdded(vec!["/a".to_string()]),
    ]);
    let same = Task::EmitMessages(vec![
        Message::Keymap(KeymapMessage::Quit),
        Message::PathsAdded(vec!["/a".to_string()]),
    ]);
    let other = Task::EmitMessages(vec![
        Message::Keymap(KeymapMessage::Quit),
        Message::PathsAdded(vec!["/b".to_string()]),
    ]);
    assert!(first.same(&same));
    assert!(!first.same(&other));
    assert!(!first.same(&Task::EmitMessages(vec![Message::Keymap(KeymapMessage::Quit)])));
    assert!(Task::SaveHistory(history("a")).same(&Task::SaveHistory(history("a"))));
    assert!(!Task::SaveHistory(history("a")).same(&Task::SaveHistory(history("b"))));
    assert!(!Task::SaveHistory(history("a")).same(&Task::SaveHistory(History::default())));
}

#[test]
fn messages_compare_by_value() {
    let content = Message::PathEnumerationContentChanged(
        "/a".to_string(),
        vec![(ContentKind::File, "x".to_string())],
    );
    assert!(content.same(&content.clone()));
    assert!(!content.same(&Message::PathEnumerationContentChanged(
        "/a".to_string(),
        vec![(ContentKind::Directory, "x".to_string())],
    )));
    assert!(!Message::PathRemoved("/a".to_string()).same(&Message::NavigateToPath("/a".to_string())));
    assert!(Message::Resize(1, 2).same(&Message::Resize(1, 2)));
    assert!(!Message::Resize(1, 2).same(&Message::Resize(2, 1)));
    assert!(Message::PreviewLoaded("/a".to_string(), vec!["l".to_string()])
        .same(&Message::PreviewLoaded("/a".to_string(), vec!["l".to_string()])));
}

#[test]
fn only_reading_and_emitting_tasks_abort_on_finish() {
    assert!(should_abort_on_finish(&Task::EmitMessages(vec![])));
    assert!(should_abort_on_finish(&Task::EnumerateDirectory("/a".to_string())));
    assert!(should_abort_on_finish(&Task::LoadPreview("/a".to_string())));
    assert!(!should_abort_on_finish(&Task::AddPath("/a".to_string())));
    assert!(!should_abort_on_finish(&Task::DeletePath("/a".to_string())));
    assert!(!should_abort_on_finish(&Task::DeleteMarks(vec!['a'])));
    assert!(!should_abort_on_finish(&Task::DeleteRegisterEntry(entry("1"))));
    assert!(!should_abort_on_finish(&Task::OptimizeHistory));
    assert!(!should_abort_on_finish(&Task::RenamePath("/a".to_string(), "/b".to_string())));
    assert!(!should_abort_on_finish(&Task::RestorePath(entry("1"), "/a".to_string())));
    assert!(!should_abort_on_finish(&Task::SaveHistory(History::default())));
    assert!(!should_abort_on_finish(&Task::TrashPath(entry("1"))));
    assert!(!should_abort_on_finish(&Task::YankPath(entry("1"))));
}

#[test]
fn run_starts_a_task_under_a_new_handle() {
    let mut manager = TaskManager::new();
    assert!(manager.has_handles());
    let first = manager.run(Task::AddPath("/a".to_string()));
    assert_eq!(first, vec![TaskAction::Spawn(0)]);
    let second = manager.run(Task::AddPath("/b".to_string()));
    assert_eq!(second, vec![TaskAction::Spawn(1)]);
    assert!(manager.accepts(0));
    assert!(manager.accepts(1));
    assert!(!manager.accepts(2));
    assert_eq!(manager.task(1), Some(&Task::AddPath("/b".to_string())));
    assert_eq!(manager.task(7), None);
}

#[test]
fn running_the_same_task_twice_aborts_the_first() {
    let mut manager = TaskManager::new();
    let path = "/dir".to_string();
    assert_eq!(
        manager.run(Task::EnumerateDirectory(path.clone())),
        vec![TaskAction::Spawn(0)]
    );
    assert_eq!(manager.run(Task::LoadPreview(path.clone())), vec![TaskAction::Spawn(1)]);
    assert_eq!(
        manager.run(Task::EnumerateDirectory(path.clone())),
        vec![TaskAction::Abort(0), TaskAction::Spawn(2)]
    );
    assert!(!manager.accepts(0));
    assert!(manager.accepts(1));
    assert!(manager.accepts(2));
    assert_eq!(manager.task(2), Some(&Task::EnumerateDirectory(path)));
}

#[test]
fn abort_forgets_exactly_that_task() {
    let mut manager = TaskManager::new();
    manager.run(Task::AddPath("/a".to_string()));
    manager.run(Task::AddPath("/b".to_string()));
    assert_eq!(manager.abort(&Task::AddPath("/c".to_string())), None);
    assert_eq!(manager.abort(&Task::AddPath("/a".to_string())), Some(0));
    assert_eq!(manager.abort(&Task::AddPath("/a".to_string())), None);
    assert!(!manager.accepts(0));
    assert!(manager.accepts(1));
}

#[test]
fn finishing_aborts_what_need_not_finish() {
    let mut manager = TaskManager::new();
    manager.run(Task::EnumerateDirectory("/a".to_string()));
    manager.run(Task::DeletePath("/b".to_string()));
    manager.run(Task::LoadPreview("/c".to_string()));
    manager.run(Task::SaveHistory(History::default()));
    manager.run(Task::EmitMessages(vec![]));
    assert_eq!(manager.finishing(), vec![0, 2, 4]);
    assert!(!manager.accepts(0));
    assert!(!manager.accepts(1));
    assert_eq!(manager.finishing(), Vec::<u64>::new());
}

#[test]
fn settle_succeeds_when_nothing_failed() {
    let mut manager = TaskManager::new();
    manager.run(Task::DeletePath("/b".to_string()));
    manager.run(Task::LoadPreview("/c".to_string()));
    assert_eq!(manager.finishing(), vec![1]);
    manager.complete(1, TaskOutcome::Cancelled);
    manager.complete(0, TaskOutcome::Succeeded);
    assert_eq!(manager.settle(), Ok(()));
}

#[test]
fn settle_aggregates_every_reported_error() {
    let mut manager = TaskManager::new();
    manager.run(Task::DeletePath("/b".to_string()));
    manager.run(Task::AddPath("/c".to_string()));
    manager.run(Task::RenamePath("/d".to_string(), "/e".to_string()));
    assert_eq!(manager.finishing(), Vec::<u64>::new());
    manager.complete(0, TaskOutcome::Failed(AppError::InvalidTargetPath));
    manager.complete(1, TaskOutcome::Succeeded);
    manager.complete(
        2,
        TaskOutcome::Failed(AppError::FileOperationFailed("denied".to_string())),
    );
    assert_eq!(
        manager.settle(),
        Err(AppError::Aggregate(vec![
            AppError::InvalidTargetPath,
            AppError::FileOperationFailed("denied".to_string()),
        ]))
    );
    assert_eq!(manager.settle(), Ok(()));
}

#[test]
fn complete_forgets_the_handle() {
    let mut manager = TaskManager::new();
    manager.run(Task::AddPath("/a".to_string()));
    assert!(manager.accepts(0));
    manager.complete(0, TaskOutcome::Succeeded);
    assert!(!manager.accepts(0));
    assert_eq!(manager.run(Task::AddPath("/a".to_string())), vec![TaskAction::Spawn(1)]);
}

fn feed(enumeration: &mut Enumeration, from: usize, to: usize) -> Vec<(usize, Message)> {
    let mut reports = Vec::new();
    for i in from..to {
        if let Some(report) = enumeration.push(i % 2 == 0, Some(format!("entry{}", i))) {
            reports.push((i + 1, report));
        }
    }
    reports
}

fn expected_entries(count: usize) -> Vec<(ContentKind, String)> {
    (0..count)
        .map(|i| {
            (
                if i % 2 == 0 { ContentKind::Directory } else { ContentKind::File },
                format!("entry{}", i),
            )
        })
        .collect()
}

#[test]
fn enumeration_reports_at_doubling_sizes() {
    assert_eq!(BATCH_SIZE, 100);
    let mut enumeration = Enumeration::new("/dir".to_string(), BATCH_SIZE);
    let reports = feed(&mut enumeration, 0, 450);
    let sizes: Vec<usize> = reports.iter().map(|(size, _)| *size).collect();
    assert_eq!(sizes, vec![100, 200, 400]);
    for (size, report) in reports {
        assert_eq!(
            report,
            Message::PathEnumerationContentChanged("/dir".to_string(), expected_entries(size))
        );
    }
    assert_eq!(
        enumeration.finish(),
        vec![
            Message::PathEnumerationContentChanged("/dir".to_string(), expected_entries(450)),
            Message::PathEnumerationFinished("/dir".to_string()),
        ]
    );
}

#[test]
fn enumeration_of_a_small_directory_reports_once_at_the_end() {
    let mut enumeration = Enumeration::new("/dir".to_string(), BATCH_SIZE);
    assert!(feed(&mut enumeration, 0, 99).is_empty());
    assert_eq!(
        enumeration.finish(),
        vec![
            Message::PathEnumerationContentChanged("/dir".to_string(), expected_entries(99)),
            Message::PathEnumerationFinished("/dir".to_string()),
        ]
    );
}

#[test]
fn enumeration_of_an_empty_directory() {
    let enumeration = Enumeration::new("/empty".to_string(), BATCH_SIZE);
    assert_eq!(
        enumeration.finish(),
        vec![
            Message::PathEnumerationContentChanged("/empty".to_string(), vec![]),
            Message::PathEnumerationFinished("/empty".to_string()),
        ]
    );
}

#[test]
fn enumeration_with_batch_of_one() {
    let mut enumeration = Enumeration::new("/dir".to_string(), 1);
    let sizes: Vec<usize> = feed(&mut enumeration, 0, 9).iter().map(|(size, _)| *size).collect();
    assert_eq!(sizes, vec![1, 2, 4, 8]);
}

#[test]
fn enumeration_entry_without_name_is_empty_text() {
    let mut enumeration = Enumeration::new("/dir".to_string(), 1);
    assert_eq!(
        enumeration.push(false, None),
        Some(Message::PathEnumerationContentChanged(
            "/dir".to_string(),
            vec![(ContentKind::File, String::new())],
        ))
    );
}

#[test]
fn only_text_and_unknown_content_is_previewed() {
    assert!(should_preview(&None));
    assert!(should_preview(&Some("text/plain".to_string())));
    assert!(should_preview(&Some("text".to_string())));
    assert!(!should_preview(&Some("tex".to_string())));
    assert!(!should_preview(&Some("image/png".to_string())));
    assert!(!should_preview(&Some("application/text".to_string())));
    assert!(!should_preview(&Some(String::new())));
}

#[test]
fn preview_looks_at_the_first_bytes() {
    let png: Vec<u8> = vec![0x89, 0x50, 0x4E, 0x47, 0x0D, 0x0A, 0x1A, 0x0A, 0, 0, 0, 0];
    assert!(!previews(&png));
    let plain: Vec<u8> = b"just some words".to_vec();
    assert!(previews(&plain));
    let html: Vec<u8> = b"<!DOCTYPE html><html><body></body></html>".to_vec();
    assert!(previews(&html));
    assert!(previews(&vec![]));
}

#[test]
fn preview_carries_the_lines() {
    assert_eq!(
        preview_loaded("/file".to_string(), "first\nsecond\r\nthird\n"),
        vec![Message::PreviewLoaded(
            "/file".to_string(),
            vec!["first".to_string(), "second".to_string(), "third".to_string()],
        )]
    );
    assert_eq!(
        preview_loaded("/file".to_string(), ""),
        vec![Message::PreviewLoaded("/file".to_string(), vec![])]
    );
    assert_eq!(
        preview_of("/file".to_string(), vec!["a".to_string()]),
        vec![Message::PreviewLoaded("/file".to_string(), vec!["a".to_string()])]
    );
}

#[test]
fn adding_needs_a_free_path() {
    assert_eq!(
        plan_add("/a/b".to_string(), PathState::File),
        Err(AppError::InvalidTargetPath)
    );
    assert_eq!(
        plan_add("/a/b/".to_string(), PathState::Directory),
        Err(AppError::InvalidTargetPath)
    );
    assert_eq!(
        plan_add("/a/b".to_string(), PathState::Other),
        Err(AppError::InvalidTargetPath)
    );
}

#[test]
fn adding_makes_a_directory_or_a_file_below_its_parent() {
    assert_eq!(
        plan_add("/a/b/".to_string(), PathState::Missing),
        Ok(PathOperation::CreateDirectory("/a/b/".to_string()))
    );
    assert_eq!(
        plan_add("/a/b".to_string(), PathState::Missing),
        Ok(PathOperation::CreateFile { parent: "/a".to_string(), path: "/a/b".to_string() })
    );
    assert_eq!(
        plan_add("file".to_string(), PathState::Missing),
        Ok(PathOperation::CreateFile { parent: String::new(), path: "file".to_string() })
    );
    assert_eq!(plan_add(String::new(), PathState::Missing), Err(AppError::InvalidTargetPath));
    assert_eq!(
        plan_add_below("x".to_string(), PathState::Missing, None),
        Err(AppError::InvalidTargetPath)
    );
    assert_eq!(
        plan_add_below("x".to_string(), PathState::Missing, Some("p".to_string())),
        Ok(PathOperation::CreateFile { parent: "p".to_string(), path: "x".to_string() })
    );
}

#[test]
fn deleting_needs_something_there() {
    assert_eq!(
        plan_delete("/a".to_string(), PathState::Missing),
        Err(AppError::InvalidTargetPath)
    );
    assert_eq!(
        plan_delete("/a".to_string(), PathState::File),
        Ok(PathOperation::RemoveFile("/a".to_string()))
    );
    assert_eq!(
        plan_delete("/a".to_string(), PathState::Directory),
        Ok(PathOperation::RemoveDirectory("/a".to_string()))
    );
    assert_eq!(plan_delete("/a".to_string(), PathState::Other), Ok(PathOperation::Nothing));
}

#[test]
fn renaming_needs_something_there() {
    assert_eq!(
        plan_rename("/a".to_string(), "/b".to_string(), PathState::Missing),
        Err(AppError::InvalidTargetPath)
    );
    assert_eq!(
        plan_rename("/a".to_string(), "/b".to_string(), PathState::Directory),
        Ok(PathOperation::Rename("/a".to_string(), "/b".to_string()))
    );
    assert_eq!(
        plan_rename("/a".to_string(), "/b".to_string(), PathState::File),
        Ok(PathOperation::Rename("/a".to_string(), "/b".to_string()))
    );
}

#[test]
fn reading_a_directory_needs_something_there() {
    assert_eq!(
        yeet::task::path::plan_enumeration(PathState::Missing),
        Err(AppError::InvalidTargetPath)
    );
    assert_eq!(yeet::task::path::plan_enumeration(PathState::Directory), Ok(()));
    assert_eq!(yeet::task::path::plan_enumeration(PathState::File), Ok(()));
    assert_eq!(yeet::task::path::plan_enumeration(PathState::Other), Ok(()));
}

fn lines_of(content: &str) -> Vec<String> {
    match preview_loaded("/file".to_string(), content).pop() {
        Some(Message::PreviewLoaded(_, lines)) => lines,
        other => panic!("no preview: {:?}", other),
    }
}

#[test]
fn lines_end_at_line_feeds() {
    assert_eq!(lines_of("a\nb"), vec!["a", "b"]);
    assert_eq!(lines_of("a\nb\n"), vec!["a", "b"]);
    assert_eq!(lines_of("a\r\nb\r\n"), vec!["a", "b"]);
    assert_eq!(lines_of("\n"), vec![""]);
    assert_eq!(lines_of("\n\n"), vec!["", ""]);
    assert_eq!(lines_of("a\n\nb"), vec!["a", "", "b"]);
    assert_eq!(lines_of("a\rb\n"), vec!["a\rb"]);
    assert_eq!(lines_of("a\r"), vec!["a\r"]);
    assert_eq!(lines_of("a\r\r\n"), vec!["a\r"]);
    assert_eq!(lines_of("\r\n"), vec![""]);
    assert_eq!(lines_of("no line feed"), vec!["no line feed"]);
    assert_eq!(lines_of(""), Vec::<String>::new());
}

#[test]
fn only_the_head_of_a_file_is_looked_at() {
    assert_eq!(yeet::task::preview::HEAD_SIZE, 8192);
    let mut frames: Vec<u8> = Vec::new();
    while frames.len() + 8 <= yeet::task::preview::HEAD_SIZE {
        frames.extend_from_slice(&[0x50, 0x2A, 0x4D, 0x18, 0, 0, 0, 0]);
    }
    assert!(frames.len() <= yeet::task::preview::HEAD_SIZE);
    assert!(previews(&frames));
}

#[test]
fn a_path_written_otherwise_is_the_same_task() {
    assert!(Task::AddPath("/a/b".to_string()).same(&Task::AddPath("/a/b/".to_string())));
    assert!(Task::LoadPreview("/a//b".to_string()).same(&Task::LoadPreview("/a/b".to_string())));
    assert!(Task::RenamePath("/a/".to_string(), "/b".to_string())
        .same(&Task::RenamePath("/a".to_string(), "/b/".to_string())));
    assert!(!Task::AddPath("/a/b".to_string()).same(&Task::AddPath("/a/B".to_string())));
    assert!(Message::PathRemoved("/a/".to_string()).same(&Message::PathRemoved("/a".to_string())));
    assert!(Message::PathsAdded(vec!["/a/".to_string()])
        .same(&Message::PathsAdded(vec!["/a".to_string()])));
    assert!(!Message::Error("/a/".to_string()).same(&Message::Error("/a".to_string())));
    let mut manager = TaskManager::new();
    assert_eq!(
        manager.run(Task::EnumerateDirectory("/dir".to_string())),
        vec![TaskAction::Spawn(0)]
    );
    assert_eq!(
        manager.run(Task::EnumerateDirectory("/dir/".to_string())),
        vec![TaskAction::Abort(0), TaskAction::Spawn(1)]
    );
    assert_eq!(manager.abort(&Task::EnumerateDirectory("/dir/.".to_string())), Some(1));
}
