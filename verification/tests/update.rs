use yeet::action::Action;
use yeet::keymap::key::Key;
use yeet::keymap::message::{
    CursorDirection, KeymapMessage, Mode, TextModification, ViewPortDirection,
};
use yeet::layout::{AppLayout, Rect};
use yeet::message::{ContentKind, Message};
use yeet::model::buffer::{
    Buffer, BufferLine, Color, Cursor, CursorPosition, Sign, SignIdentifier, StylePartial,
    ViewPort,
};
use yeet::model::history::{get_paths, HistoryState};
use yeet::model::mark::{retain_unmarked, same_text, Marks};
use yeet::model::Model;
use yeet::path::is_same_path;
use yeet::task::Task;
use yeet::update::content::{deliver, receive};
use yeet::update::current::{save_changes, set_viewport_dimensions, BufferChanged, BufferResult};
use yeet::update::mark::{add, delete, print, set_sign_if_marked, unset_sign};
use yeet::update::{update, Delivery, Target, Update};
use yeet::view::statusline::{
    count_changes, get_changes_content, get_position_content, to_decimal, Span,
};
use yeet::view::style::get_style_partials;

fn line(content: &str) -> BufferLine {
    BufferLine { content: content.to_string(), signs: vec![], style: vec![] }
}

fn mark_sign() -> Sign {
    Sign {
        id: SignIdentifier::Mark,
        content: 'm',
        priority: 0,
        style: vec![StylePartial::Foreground(Color::LightMagenta)],
    }
}

fn marked(content: &str) -> BufferLine {
    BufferLine { content: content.to_string(), signs: vec![mark_sign()], style: vec![] }
}

fn model_at(path: &str, lines: &[&str], cursor: usize) -> Model {
    let mut model = Model::new(path.to_string());
    model.current.buffer.lines = lines.iter().map(|l| line(l)).collect();
    model.current.buffer.cursor =
        Some(Cursor { horizontial_index: CursorPosition::Absolute(0), vertical_index: cursor });
    model
}

fn rect(width: u16, height: u16) -> Rect {
    Rect { x: 0, y: 0, width, height }
}

fn layout() -> AppLayout {
    AppLayout {
        commandline: rect(80, 1),
        current: rect(40, 20),
        parent: rect(20, 20),
        preview: rect(20, 20),
        statusline: rect(80, 1),
    }
}

fn nothing() -> Update {
    Update { actions: None, deliveries: vec![] }
}

#[test]
fn new_model_is_empty_at_its_path() {
    let model = Model::new("/home".to_string());
    assert_eq!(model.current.path, "/home");
    assert_eq!(model.mode, Mode::Navigation);
    assert_eq!(model.key_sequence, "");
    assert_eq!(model.current.buffer.cursor, Some(Cursor::default()));
    assert_eq!(model.parent.buffer.cursor, Some(Cursor::default()));
    assert_eq!(model.parent.path, None);
    assert_eq!(model.preview.buffer, Buffer::default());
    assert_eq!(model.commandline, Buffer::default());
    assert_eq!(model.marks.len(), 0);
    assert!(model.history.entries.is_empty());
    assert_eq!(model.current.buffer.view_port, ViewPort::default());
}

#[test]
fn marks_insert_replace_and_remove() {
    let mut marks = Marks::default();
    assert_eq!(marks.insert('a', "/x".to_string()), None);
    assert_eq!(marks.insert('b', "/y".to_string()), None);
    assert_eq!(marks.insert('a', "/z".to_string()), Some("/x".to_string()));
    assert_eq!(marks.len(), 2);
    assert_eq!(marks.get('a'), Some(&"/z".to_string()));
    assert_eq!(marks.get('c'), None);
    assert_eq!(marks.entry(0), Some(('a', &"/z".to_string())));
    assert_eq!(marks.entry(1), Some(('b', &"/y".to_string())));
    assert_eq!(marks.entry(2), None);
    assert!(marks.marks("/y"));
    assert!(!marks.marks("/x"));
    assert_eq!(marks.remove('a'), Some("/z".to_string()));
    assert_eq!(marks.remove('a'), None);
    assert_eq!(marks.len(), 1);
}

#[test]
fn same_text_compares_texts() {
    assert!(same_text("", ""));
    assert!(same_text("abc", "abc"));
    assert!(!same_text("abc", "abd"));
    assert!(!same_text("abc", "ab"));
    assert!(same_text("äö", "äö"));
}

#[test]
fn add_marks_the_selected_line() {
    let mut model = model_at("/dir", &["one", "two", "three"], 1);
    add(&mut model, 'a');
    assert_eq!(model.marks.get('a'), Some(&"/dir/two".to_string()));
    assert_eq!(model.current.buffer.lines, vec![line("one"), marked("two"), line("three")]);
    add(&mut model, 'b');
    assert_eq!(model.marks.get('b'), Some(&"/dir/two".to_string()));
    assert_eq!(model.current.buffer.lines, vec![line("one"), marked("two"), line("three")]);
}

#[test]
fn add_moves_a_mark_and_its_sign() {
    let mut model = model_at("/dir", &["one", "two", "three"], 0);
    add(&mut model, 'a');
    assert_eq!(model.current.buffer.lines, vec![marked("one"), line("two"), line("three")]);
    model.current.buffer.cursor =
        Some(Cursor { horizontial_index: CursorPosition::Absolute(0), vertical_index: 2 });
    add(&mut model, 'a');
    assert_eq!(model.marks.get('a'), Some(&"/dir/three".to_string()));
    assert_eq!(model.marks.len(), 1);
    assert_eq!(model.current.buffer.lines, vec![line("one"), line("two"), marked("three")]);
}

#[test]
fn add_without_selection_changes_nothing() {
    let mut model = model_at("/dir", &["one"], 5);
    add(&mut model, 'a');
    assert_eq!(model.marks.len(), 0);
    assert_eq!(model.current.buffer.lines, vec![line("one")]);
    let mut no_cursor = model_at("/dir", &["one"], 0);
    no_cursor.current.buffer.cursor = None;
    add(&mut no_cursor, 'a');
    assert_eq!(no_cursor.marks.len(), 0);
}

#[test]
fn unset_sign_looks_in_the_buffer_that_shows_the_parent() {
    let mut model = model_at("/dir", &["one"], 0);
    model.current.buffer.lines = vec![marked("one"), marked("two")];
    model.preview.path = "/dir/one".to_string();
    model.preview.buffer.lines = vec![marked("inner")];
    model.parent.path = Some("/".to_string());
    model.parent.buffer.lines = vec![marked("dir"), marked("other")];
    unset_sign(&mut model, "/dir/two");
    assert_eq!(model.current.buffer.lines, vec![marked("one"), line("two")]);
    unset_sign(&mut model, "/dir/one/inner");
    assert_eq!(model.preview.buffer.lines, vec![line("inner")]);
    unset_sign(&mut model, "/dir");
    assert_eq!(model.parent.buffer.lines, vec![line("dir"), marked("other")]);
    unset_sign(&mut model, "/elsewhere/one");
    unset_sign(&mut model, "/");
    assert_eq!(model.current.buffer.lines, vec![marked("one"), line("two")]);
    assert_eq!(model.parent.buffer.lines, vec![line("dir"), marked("other")]);
}

#[test]
fn delete_removes_marks_and_asks_to_persist() {
    let mut model = model_at("/dir", &["one", "two"], 0);
    add(&mut model, 'a');
    model.current.buffer.cursor =
        Some(Cursor { horizontial_index: CursorPosition::Absolute(0), vertical_index: 1 });
    add(&mut model, 'b');
    assert_eq!(model.current.buffer.lines, vec![marked("one"), marked("two")]);
    let actions = delete(&mut model, &vec!['x', 'b', 'y', 'a', 'b']);
    assert_eq!(actions, Some(vec![Action::Task(Task::DeleteMarks(vec!['b', 'a']))]));
    assert_eq!(model.marks.len(), 0);
    assert_eq!(model.current.buffer.lines, vec![line("one"), line("two")]);
}

#[test]
fn delete_of_unset_marks_does_nothing() {
    let mut model = model_at("/dir", &["one"], 0);
    add(&mut model, 'a');
    assert_eq!(delete(&mut model, &vec!['x', 'y']), None);
    assert_eq!(delete(&mut model, &vec![]), None);
    assert_eq!(model.marks.len(), 1);
    assert_eq!(model.current.buffer.lines, vec![marked("one")]);
}

#[test]
fn print_lists_marks_in_order() {
    let mut marks = Marks::default();
    marks.insert('z', "/last".to_string());
    marks.insert('a', "/first".to_string());
    marks.insert('m', "/middle".to_string());
    marks.insert('B', "/upper".to_string());
    assert_eq!(
        print(&marks),
        vec![
            ":marks".to_string(),
            "Char Content".to_string(),
            "B    /upper".to_string(),
            "a    /first".to_string(),
            "m    /middle".to_string(),
            "z    /last".to_string(),
        ]
    );
}

#[test]
fn print_without_marks_is_the_heading() {
    assert_eq!(
        print(&Marks::default()),
        vec![":marks".to_string(), "Char Content".to_string()]
    );
}

#[test]
fn print_agrees_with_sorting_the_lines() {
    let mut marks = Marks::default();
    for (mark, path) in [('q', "/1"), ('ä', "/2"), ('0', "/3"), ('Z', "/4"), ('~', "/5")] {
        marks.insert(mark, path.to_string());
    }
    let mut lines: Vec<String> = (0..marks.len())
        .map(|i| {
            let (mark, path) = marks.entry(i).unwrap();
            format!("{:<4} {}", mark, path)
        })
        .collect();
    lines.sort();
    assert_eq!(print(&marks)[2..].to_vec(), lines);
}

#[test]
fn set_sign_if_marked_signs_once() {
    let mut marks = Marks::default();
    marks.insert('a', "/dir/one".to_string());
    let mut bl = line("one");
    set_sign_if_marked(&marks, &mut bl, "/dir/two");
    assert_eq!(bl, line("one"));
    set_sign_if_marked(&marks, &mut bl, "/dir/one");
    assert_eq!(bl, marked("one"));
    set_sign_if_marked(&marks, &mut bl, "/dir/one");
    assert_eq!(bl, marked("one"));
}

fn view_port(horizontal_index: usize, vertical_index: usize) -> ViewPort {
    ViewPort {
        content_width: 10,
        height: 20,
        horizontal_index,
        line_number_width: 3,
        sign_column_width: 2,
        vertical_index,
        width: 15,
    }
}

#[test]
fn offset_is_signs_and_line_number() {
    assert_eq!(view_port(0, 0).get_offset_width(), 5);
}

#[test]
fn style_is_empty_away_from_the_cursor_line() {
    let vp = view_port(0, 2);
    let cursor = Some(Cursor { horizontial_index: CursorPosition::Absolute(1), vertical_index: 4 });
    assert_eq!(get_style_partials(&vp, &Mode::Normal, &cursor, &1, &line("abc")), vec![]);
    assert_eq!(get_style_partials(&vp, &Mode::Normal, &None, &2, &line("abc")), vec![]);
}

#[test]
fn style_marks_cursor_line_and_cursor() {
    let vp = view_port(0, 2);
    let cursor = Some(Cursor { horizontial_index: CursorPosition::Absolute(1), vertical_index: 4 });
    assert_eq!(
        get_style_partials(&vp, &Mode::Normal, &cursor, &2, &line("abc")),
        vec![
            (5, 15, StylePartial::Background(Color::DarkGray)),
            (6, 7, StylePartial::Reversed),
        ]
    );
    assert_eq!(
        get_style_partials(&vp, &Mode::Navigation, &cursor, &2, &line("abc")),
        vec![(5, 15, StylePartial::Background(Color::DarkGray))]
    );
}

#[test]
fn style_keeps_the_cursor_within_the_line() {
    let vp = view_port(0, 0);
    let far = Some(Cursor { horizontial_index: CursorPosition::Absolute(9), vertical_index: 0 });
    assert_eq!(
        get_style_partials(&vp, &Mode::Normal, &far, &0, &line("abc")),
        vec![
            (5, 15, StylePartial::Background(Color::DarkGray)),
            (7, 8, StylePartial::Reversed),
        ]
    );
    assert_eq!(
        get_style_partials(&vp, &Mode::Normal, &far, &0, &line("")),
        vec![
            (5, 15, StylePartial::Background(Color::DarkGray)),
            (5, 6, StylePartial::Reversed),
        ]
    );
    let end = Some(Cursor { horizontial_index: CursorPosition::End, vertical_index: 0 });
    assert_eq!(
        get_style_partials(&vp, &Mode::Normal, &end, &0, &line("abcd")),
        vec![
            (5, 15, StylePartial::Background(Color::DarkGray)),
            (8, 9, StylePartial::Reversed),
        ]
    );
    let hidden = Some(Cursor { horizontial_index: CursorPosition::Hidden, vertical_index: 0 });
    assert_eq!(
        get_style_partials(&vp, &Mode::Normal, &hidden, &0, &line("abcd")),
        vec![(5, 15, StylePartial::Background(Color::DarkGray))]
    );
    let long = "abcdefghijklmnopqrstuvwxyz";
    let wide = Some(Cursor { horizontial_index: CursorPosition::Absolute(20), vertical_index: 0 });
    assert_eq!(
        get_style_partials(&vp, &Mode::Normal, &wide, &0, &line(long)),
        vec![
            (5, 15, StylePartial::Background(Color::DarkGray)),
            (14, 15, StylePartial::Reversed),
        ]
    );
}

fn changes() -> Vec<BufferChanged> {
    vec![
        BufferChanged::LineAdded(0, "new".to_string()),
        BufferChanged::Content(1, "old".to_string(), "renamed".to_string()),
        BufferChanged::LineRemoved(2, "gone".to_string()),
        BufferChanged::LineAdded(3, "dir/".to_string()),
    ]
}

#[test]
fn changes_are_counted_by_kind() {
    assert_eq!(count_changes(&changes()), (2, 1, 1));
    assert_eq!(count_changes(&vec![]), (0, 0, 0));
}

#[test]
fn status_line_shows_the_changes() {
    assert_eq!(
        get_changes_content(&changes()),
        vec![
            Span { content: "+2 ".to_string(), color: Color::Green },
            Span { content: "~1 ".to_string(), color: Color::Yellow },
            Span { content: "-1 ".to_string(), color: Color::Red },
        ]
    );
    assert_eq!(get_changes_content(&vec![]), vec![]);
    let many: Vec<BufferChanged> =
        (0..120).map(|i| BufferChanged::LineRemoved(i, "x".to_string())).collect();
    assert_eq!(
        get_changes_content(&many),
        vec![Span { content: "-120 ".to_string(), color: Color::Red }]
    );
}

#[test]
fn status_line_shows_the_position() {
    let model = model_at("/dir", &["a", "b", "c"], 1);
    assert_eq!(
        get_position_content(&model),
        vec![
            Span { content: "2/".to_string(), color: Color::Gray },
            Span { content: "3".to_string(), color: Color::Gray },
        ]
    );
    let empty = model_at("/dir", &[], 0);
    assert_eq!(
        get_position_content(&empty),
        vec![
            Span { content: "0/".to_string(), color: Color::Gray },
            Span { content: "0".to_string(), color: Color::Gray },
        ]
    );
    let mut no_cursor = model_at("/dir", &["a"], 0);
    no_cursor.current.buffer.cursor = None;
    assert_eq!(
        get_position_content(&no_cursor),
        vec![Span { content: "1".to_string(), color: Color::Gray }]
    );
}

#[test]
fn save_changes_turns_changes_into_tasks() {
    let model = model_at("/dir", &[], 0);
    assert_eq!(
        save_changes(&model, Some(BufferResult::Changes(changes()))),
        Some(vec![
            Action::Task(Task::AddPath("/dir/new".to_string())),
            Action::Task(Task::RenamePath("/dir/old".to_string(), "/dir/renamed".to_string())),
            Action::Task(Task::DeletePath("/dir/gone".to_string())),
            Action::Task(Task::AddPath("/dir/dir/".to_string())),
        ])
    );
    assert_eq!(save_changes(&model, Some(BufferResult::Changes(vec![]))), Some(vec![]));
    assert_eq!(save_changes(&model, Some(BufferResult::CursorPositionChanged)), Some(vec![]));
    assert_eq!(save_changes(&model, None), None);
}

#[test]
fn viewport_takes_the_dimensions_of_its_rectangle() {
    let mut vp = view_port(1, 2);
    set_viewport_dimensions(&mut vp, &rect(40, 12));
    assert_eq!(vp, ViewPort { height: 12, width: 40, ..view_port(1, 2) });
    let mut model = model_at("/dir", &["a"], 0);
    yeet::update::current::update(&mut model, &layout());
    assert_eq!(model.current.buffer.view_port.width, 40);
    assert_eq!(model.current.buffer.view_port.height, 20);
}

#[test]
fn update_sets_the_key_sequence() {
    let mut model = model_at("/dir", &["a"], 0);
    let result =
        update(&mut model, &layout(), &Message::ChangeKeySequence("2g".to_string()), false);
    assert_eq!(result, nothing());
    assert_eq!(model.key_sequence, "2g");
}

#[test]
fn update_changes_the_mode() {
    let mut model = model_at("/dir", &["a"], 0);
    model.mode = Mode::Normal;
    let message = Message::Keymap(KeymapMessage::ChangeMode(Mode::Normal, Mode::Command));
    assert_eq!(
        update(&mut model, &layout(), &message, false),
        Update {
            actions: Some(vec![Action::ModeChanged(Mode::Command)]),
            deliveries: vec![
                Delivery::Unfocus(Target::Current),
                Delivery::Focus(Target::Commandline),
                Delivery::Message(Target::Commandline),
            ],
        }
    );
    assert_eq!(model.mode, Mode::Command);
    let back = Message::Keymap(KeymapMessage::ChangeMode(Mode::Command, Mode::Insert));
    assert_eq!(
        update(&mut model, &layout(), &back, false),
        Update {
            actions: Some(vec![Action::ModeChanged(Mode::Insert)]),
            deliveries: vec![
                Delivery::Unfocus(Target::Commandline),
                Delivery::Message(Target::Commandline),
                Delivery::Focus(Target::Current),
            ],
        }
    );
    let same = Message::Keymap(KeymapMessage::ChangeMode(Mode::Insert, Mode::Insert));
    assert_eq!(update(&mut model, &layout(), &same, false), nothing());
    assert_eq!(model.mode, Mode::Insert);
}

#[test]
fn update_executes_commands() {
    let execute = Message::Keymap(KeymapMessage::ExecuteCommand);
    let mut model = model_at("/dir", &["a"], 0);
    model.mode = Mode::Command;
    assert_eq!(update(&mut model, &layout(), &execute, false), nothing());
    model.commandline.lines = vec![line("histopt")];
    let leave = vec![
        Delivery::Unfocus(Target::Commandline),
        Delivery::Message(Target::Commandline),
        Delivery::Focus(Target::Current),
    ];
    assert_eq!(
        update(&mut model, &layout(), &execute, false),
        Update {
            actions: Some(vec![
                Action::Task(Task::OptimizeHistory),
                Action::ModeChanged(Mode::Normal),
            ]),
            deliveries: leave.clone(),
        }
    );
    assert_eq!(model.mode, Mode::Normal);
    model.mode = Mode::Command;
    model.commandline.lines = vec![line("q")];
    assert_eq!(
        update(&mut model, &layout(), &execute, false),
        Update {
            actions: Some(vec![
                Action::Task(Task::OptimizeHistory),
                Action::Quit,
                Action::ModeChanged(Mode::Normal),
            ]),
            deliveries: leave.clone(),
        }
    );
    model.mode = Mode::Command;
    model.commandline.lines = vec![line("unknown")];
    assert_eq!(
        update(&mut model, &layout(), &execute, false),
        Update { actions: Some(vec![Action::ModeChanged(Mode::Normal)]), deliveries: leave }
    );
    model.commandline.lines = vec![line("q")];
    assert_eq!(
        update(&mut model, &layout(), &execute, false),
        Update { actions: Some(vec![Action::Task(Task::OptimizeHistory), Action::Quit]), deliveries: vec![] }
    );
}

#[test]
fn update_routes_text_messages() {
    let mut model = model_at("/dir", &["a"], 0);
    model.mode = Mode::Normal;
    let modification = Message::Keymap(KeymapMessage::Modification(
        1,
        TextModification::Insert(Key::print('x')),
    ));
    assert_eq!(
        update(&mut model, &layout(), &modification, false),
        Update { actions: None, deliveries: vec![Delivery::Message(Target::Current)] }
    );
    assert_eq!(model.current.buffer.view_port.width, 40);
    let motion = Message::Keymap(KeymapMessage::MoveCursor(2, CursorDirection::Down));
    let both = vec![Delivery::Message(Target::Current), Delivery::Message(Target::Preview)];
    assert_eq!(
        update(&mut model, &layout(), &motion, false),
        Update { actions: None, deliveries: both.clone() }
    );
    let scroll = Message::Keymap(KeymapMessage::MoveViewPort(ViewPortDirection::HalfPageUp));
    assert_eq!(
        update(&mut model, &layout(), &scroll, false),
        Update { actions: None, deliveries: both }
    );
    let mut command = model_at("/dir", &["a"], 0);
    command.mode = Mode::Command;
    for message in [&modification, &motion, &scroll] {
        assert_eq!(
            update(&mut command, &layout(), message, false),
            Update { actions: None, deliveries: vec![Delivery::Message(Target::Commandline)] }
        );
    }
    assert_eq!(command.current.buffer.view_port.width, 0);
}

#[test]
fn update_refreshes_every_buffer() {
    let mut model = model_at("/dir", &["a"], 0);
    assert_eq!(
        update(&mut model, &layout(), &Message::Keymap(KeymapMessage::Refresh), false),
        Update {
            actions: None,
            deliveries: vec![
                Delivery::Message(Target::Current),
                Delivery::Message(Target::Commandline),
                Delivery::Message(Target::Parent),
                Delivery::Message(Target::Preview),
            ],
        }
    );
}

#[test]
fn update_enters_a_selected_directory() {
    let select = Message::Keymap(KeymapMessage::SelectCurrent);
    let mut model = model_at("/dir", &["file", "sub"], 1);
    assert_eq!(update(&mut model, &layout(), &select, false), nothing());
    assert_eq!(model.current.path, "/dir");
    assert_eq!(
        update(&mut model, &layout(), &select, true),
        Update {
            actions: None,
            deliveries: vec![
                Delivery::Message(Target::Current),
                Delivery::CursorFromHistory,
                Delivery::Message(Target::Parent),
                Delivery::Message(Target::Preview),
                Delivery::Remember("/dir/sub".to_string()),
            ],
        }
    );
    assert_eq!(model.current.path, "/dir/sub");
    let mut empty = model_at("/dir", &[], 0);
    assert_eq!(update(&mut empty, &layout(), &select, true), nothing());
}

#[test]
fn update_enters_the_parent() {
    let select = Message::Keymap(KeymapMessage::SelectParent);
    let mut model = model_at("/dir/sub", &[], 0);
    assert_eq!(
        update(&mut model, &layout(), &select, false),
        Update {
            actions: None,
            deliveries: vec![
                Delivery::Message(Target::Current),
                Delivery::CursorFromHistory,
                Delivery::Message(Target::Parent),
                Delivery::Message(Target::Preview),
            ],
        }
    );
    assert_eq!(model.current.path, "/dir");
    let mut root = model_at("/", &[], 0);
    assert_eq!(update(&mut root, &layout(), &select, false), nothing());
    assert_eq!(root.current.path, "/");
}

#[test]
fn update_quits_and_passes_over_the_rest() {
    let mut model = model_at("/dir", &["a"], 0);
    assert_eq!(
        update(&mut model, &layout(), &Message::Keymap(KeymapMessage::Quit), false),
        Update {
            actions: Some(vec![Action::Task(Task::OptimizeHistory), Action::Quit]),
            deliveries: vec![],
        }
    );
    assert_eq!(
        update(&mut model, &layout(), &Message::PathRemoved("/x".to_string()), false),
        nothing()
    );
    assert_eq!(
        update(&mut model, &layout(), &Message::Keymap(KeymapMessage::SaveBuffer), false),
        nothing()
    );
}

fn full() -> Rect {
    Rect { x: 0, y: 0, width: 100, height: 30 }
}

#[test]
fn layout_splits_the_terminal() {
    assert_eq!(
        AppLayout::new(full()),
        AppLayout {
            commandline: Rect { x: 0, y: 29, width: 100, height: 1 },
            current: Rect { x: 20, y: 0, width: 40, height: 28 },
            parent: Rect { x: 0, y: 0, width: 20, height: 28 },
            preview: Rect { x: 60, y: 0, width: 40, height: 28 },
            statusline: Rect { x: 0, y: 28, width: 100, height: 1 },
        }
    );
    assert_eq!(
        AppLayout::new(Rect { x: 3, y: 2, width: 11, height: 1 }),
        AppLayout {
            commandline: Rect { x: 3, y: 3, width: 11, height: 1 },
            current: Rect { x: 5, y: 2, width: 4, height: 0 },
            parent: Rect { x: 3, y: 2, width: 2, height: 0 },
            preview: Rect { x: 9, y: 2, width: 5, height: 0 },
            statusline: Rect { x: 3, y: 2, width: 11, height: 1 },
        }
    );
    let far = AppLayout::new(Rect { x: u16::MAX, y: u16::MAX, width: 10, height: 10 });
    assert_eq!(far.commandline.y, u16::MAX);
    assert_eq!(far.preview.x, u16::MAX);
}

fn buffer_with(lines: &[&str], vertical: usize, horizontal: CursorPosition) -> Buffer {
    Buffer {
        cursor: Some(Cursor { horizontial_index: horizontal, vertical_index: vertical }),
        lines: lines.iter().map(|l| line(l)).collect(),
        view_port: ViewPort::default(),
    }
}

fn cursor_after(buffer: &Buffer) -> (CursorPosition, usize) {
    let cursor = buffer.cursor.unwrap();
    (cursor.horizontial_index, cursor.vertical_index)
}

#[test]
fn cursor_moves_within_the_lines() {
    let mut buffer = buffer_with(&["a", "b", "c", "d"], 1, CursorPosition::Absolute(0));
    buffer.move_cursor(2, CursorDirection::Down);
    assert_eq!(cursor_after(&buffer), (CursorPosition::Absolute(0), 3));
    buffer.move_cursor(5, CursorDirection::Down);
    assert_eq!(cursor_after(&buffer), (CursorPosition::Absolute(0), 3));
    buffer.move_cursor(usize::MAX, CursorDirection::Down);
    assert_eq!(cursor_after(&buffer), (CursorPosition::Absolute(0), 3));
    buffer.move_cursor(1, CursorDirection::Up);
    assert_eq!(cursor_after(&buffer), (CursorPosition::Absolute(0), 2));
    buffer.move_cursor(7, CursorDirection::Up);
    assert_eq!(cursor_after(&buffer), (CursorPosition::Absolute(0), 0));
    buffer.move_cursor(1, CursorDirection::Bottom);
    assert_eq!(cursor_after(&buffer), (CursorPosition::Absolute(0), 3));
    buffer.move_cursor(1, CursorDirection::Top);
    assert_eq!(cursor_after(&buffer), (CursorPosition::Absolute(0), 0));
}

#[test]
fn cursor_moves_within_its_line() {
    let mut buffer = buffer_with(&["hello", ""], 0, CursorPosition::Absolute(1));
    buffer.move_cursor(2, CursorDirection::Right);
    assert_eq!(cursor_after(&buffer), (CursorPosition::Absolute(3), 0));
    buffer.move_cursor(9, CursorDirection::Right);
    assert_eq!(cursor_after(&buffer), (CursorPosition::Absolute(4), 0));
    buffer.move_cursor(3, CursorDirection::Left);
    assert_eq!(cursor_after(&buffer), (CursorPosition::Absolute(1), 0));
    buffer.move_cursor(3, CursorDirection::Left);
    assert_eq!(cursor_after(&buffer), (CursorPosition::Absolute(0), 0));
    buffer.move_cursor(1, CursorDirection::LineEnd);
    assert_eq!(cursor_after(&buffer), (CursorPosition::End, 0));
    buffer.move_cursor(1, CursorDirection::Left);
    assert_eq!(cursor_after(&buffer), (CursorPosition::End, 0));
    buffer.move_cursor(1, CursorDirection::LineStart);
    assert_eq!(cursor_after(&buffer), (CursorPosition::Absolute(0), 0));
    buffer.move_cursor(1, CursorDirection::Down);
    buffer.move_cursor(4, CursorDirection::Right);
    assert_eq!(cursor_after(&buffer), (CursorPosition::Absolute(0), 1));
}

#[test]
fn cursor_of_an_empty_buffer_stays_at_the_top() {
    let mut buffer = buffer_with(&[], 0, CursorPosition::Absolute(0));
    buffer.move_cursor(3, CursorDirection::Down);
    assert_eq!(cursor_after(&buffer), (CursorPosition::Absolute(0), 0));
    buffer.move_cursor(1, CursorDirection::Bottom);
    assert_eq!(cursor_after(&buffer), (CursorPosition::Absolute(0), 0));
    let mut none = Buffer::default();
    none.move_cursor(1, CursorDirection::Down);
    assert_eq!(none.cursor, None);
}

#[test]
fn receive_navigates() {
    let mut model = model_at("/old", &["a"], 0);
    let actions = receive(&mut model, &Message::NavigateToPath("/new".to_string()));
    assert_eq!(
        actions,
        vec![Action::UnwatchPath("/old".to_string()), Action::WatchPath("/new".to_string())]
    );
    assert_eq!(model.current.path, "/new");
    assert!(model.current.buffer.lines.is_empty());
}

#[test]
fn receive_shows_the_content_of_a_directory() {
    let mut model = model_at("/dir", &[], 0);
    model.marks.insert('a', "/dir/two".to_string());
    model.preview.path = "/dir/one".to_string();
    model.parent.path = Some("/".to_string());
    let entries = vec![
        (ContentKind::Directory, "one".to_string()),
        (ContentKind::File, "two".to_string()),
    ];
    let content = |path: &str| Message::PathEnumerationContentChanged(path.to_string(), entries.clone());
    assert_eq!(receive(&mut model, &content("/dir")), vec![]);
    assert_eq!(model.current.buffer.lines, vec![line("one"), marked("two")]);
    assert_eq!(receive(&mut model, &content("/dir/one")), vec![]);
    assert_eq!(model.preview.buffer.lines, vec![line("one"), line("two")]);
    assert_eq!(receive(&mut model, &content("/")), vec![]);
    assert_eq!(model.parent.buffer.lines, vec![line("one"), line("two")]);
    assert_eq!(receive(&mut model, &content("/elsewhere")), vec![]);
    assert_eq!(model.current.buffer.lines, vec![line("one"), marked("two")]);
}

#[test]
fn receive_shows_a_preview_of_the_file_it_shows() {
    let mut model = model_at("/dir", &["file"], 0);
    model.preview.path = "/dir/file".to_string();
    let lines = vec!["first".to_string(), "second".to_string()];
    receive(&mut model, &Message::PreviewLoaded("/dir/other".to_string(), lines.clone()));
    assert!(model.preview.buffer.lines.is_empty());
    receive(&mut model, &Message::PreviewLoaded("/dir/file".to_string(), lines));
    assert_eq!(model.preview.buffer.lines, vec![line("first"), line("second")]);
    assert_eq!(receive(&mut model, &Message::Resize(1, 1)), vec![]);
}

#[test]
fn deliver_moves_the_cursor_and_lets_the_preview_follow() {
    let mut model = model_at("/dir", &["one", "two"], 0);
    let motion = Message::Keymap(KeymapMessage::MoveCursor(1, CursorDirection::Down));
    assert_eq!(deliver(&mut model, &Delivery::Message(Target::Current), &motion, 7), vec![]);
    assert_eq!(model.current.buffer.cursor.unwrap().vertical_index, 1);
    assert_eq!(
        deliver(&mut model, &Delivery::Message(Target::Preview), &motion, 7),
        vec![Action::UnwatchPath(String::new()), Action::WatchPath("/dir/two".to_string())]
    );
    assert_eq!(model.preview.path, "/dir/two");
    assert_eq!(deliver(&mut model, &Delivery::Message(Target::Preview), &motion, 7), vec![]);
    let other = Message::Keymap(KeymapMessage::Refresh);
    assert_eq!(deliver(&mut model, &Delivery::Message(Target::Current), &other, 7), vec![]);
    assert_eq!(model.current.buffer.cursor.unwrap().vertical_index, 1);
    assert_eq!(deliver(&mut model, &Delivery::Focus(Target::Current), &motion, 7), vec![]);
    assert_eq!(deliver(&mut model, &Delivery::Unfocus(Target::Current), &motion, 7), vec![]);
    assert_eq!(deliver(&mut model, &Delivery::CursorFromHistory, &motion, 7), vec![]);
    assert_eq!(model.current.buffer.cursor, Some(Cursor::default()));
}

#[test]
fn deliver_remembers_a_path() {
    let mut model = model_at("/dir", &[], 0);
    let message = Message::Keymap(KeymapMessage::SelectCurrent);
    deliver(&mut model, &Delivery::Remember("/dir/sub".to_string()), &message, 42);
    assert_eq!(
        get_paths(String::new(), &model.history.entries),
        vec![(42, HistoryState::Added, "/dir/sub".to_string())]
    );
}

#[test]
fn deleted_marks_leave_the_marks_file() {
    let lines = vec![
        "a /one".to_string(),
        "b /two".to_string(),
        String::new(),
        "c /three".to_string(),
    ];
    assert_eq!(
        retain_unmarked(lines.clone(), &vec!['b', 'x']),
        vec!["a /one".to_string(), String::new(), "c /three".to_string()]
    );
    assert_eq!(retain_unmarked(lines.clone(), &vec![]), lines);
    assert_eq!(retain_unmarked(vec![], &vec!['a']), Vec::<String>::new());
}

#[test]
fn numbers_are_written_in_decimal() {
    for number in [0, 1, 9, 10, 11, 99, 100, 120, 1005, 65535, usize::MAX] {
        assert_eq!(to_decimal(number), number.to_string());
    }
    assert_eq!(to_decimal(4096), "4096");
}

#[test]
fn style_counts_the_characters_after_the_byte_the_viewport_begins_at() {
    let vp = view_port(2, 0);
    let cursor = Some(Cursor { horizontial_index: CursorPosition::Absolute(3), vertical_index: 0 });
    let line_style = (5, 15, StylePartial::Background(Color::DarkGray));
    assert_eq!(
        get_style_partials(&vp, &Mode::Normal, &cursor, &0, &line("\u{e9}ab")),
        vec![line_style, (6, 7, StylePartial::Reversed)]
    );
    assert_eq!(
        get_style_partials(&vp, &Mode::Normal, &cursor, &0, &line("xxab")),
        vec![line_style, (6, 7, StylePartial::Reversed)]
    );
    assert_eq!(
        get_style_partials(&vp, &Mode::Normal, &cursor, &0, &line("xxabcd")),
        vec![line_style, (6, 7, StylePartial::Reversed)]
    );
    let far = Some(Cursor { horizontial_index: CursorPosition::Absolute(9), vertical_index: 0 });
    assert_eq!(
        get_style_partials(&vp, &Mode::Normal, &far, &0, &line("\u{e9}abc")),
        vec![line_style, (7, 8, StylePartial::Reversed)]
    );
}

#[test]
fn style_of_a_line_scrolled_to_its_end() {
    let vp = view_port(4, 0);
    let cursor = Some(Cursor { horizontial_index: CursorPosition::Absolute(4), vertical_index: 0 });
    assert_eq!(
        get_style_partials(&vp, &Mode::Insert, &cursor, &0, &line("\u{e9}\u{e8}")),
        vec![(5, 15, StylePartial::Background(Color::DarkGray))]
    );
    assert_eq!(
        get_style_partials(&vp, &Mode::Normal, &cursor, &0, &line("\u{e9}\u{e8}")),
        vec![
            (5, 15, StylePartial::Background(Color::DarkGray)),
            (5, 6, StylePartial::Reversed),
        ]
    );
}

#[test]
fn paths_are_the_same_by_their_components() {
    assert!(is_same_path("/a/b", "/a/b"));
    assert!(is_same_path("/a/b", "/a/b/"));
    assert!(is_same_path("/a//b", "/a/b"));
    assert!(is_same_path("/a/./b", "/a/b"));
    assert!(is_same_path("", ""));
    assert!(!is_same_path("/a/b", "/a/c"));
    assert!(!is_same_path("/a/b", "a/b"));
    assert!(!is_same_path("/a/b", "/a"));
    assert!(!is_same_path("/a/b/..", "/a"));
}

#[test]
fn marks_and_buffers_know_a_path_written_otherwise() {
    let mut marks = Marks::default();
    marks.insert('a', "/dir/one".to_string());
    assert!(marks.marks("/dir/one/"));
    assert!(marks.marks("/dir//one"));
    assert!(!marks.marks("/dir/one/two"));
    let mut model = model_at("/dir/", &[], 0);
    model.current.buffer.lines = vec![marked("one")];
    unset_sign(&mut model, "/dir/one");
    assert_eq!(model.current.buffer.lines, vec![line("one")]);
    let entries = vec![(ContentKind::File, "x".to_string())];
    receive(
        &mut model,
        &Message::PathEnumerationContentChanged("/dir".to_string(), entries),
    );
    assert_eq!(model.current.buffer.lines, vec![line("x")]);
    model.preview.path = "/dir/file/".to_string();
    receive(
        &mut model,
        &Message::PreviewLoaded("/dir/file".to_string(), vec!["l".to_string()]),
    );
    assert_eq!(model.preview.buffer.lines, vec![line("l")]);
}
