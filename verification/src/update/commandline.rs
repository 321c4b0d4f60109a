//! The decisions of the command line: which mode follows it, what a key
//! opens, what executing it asks for, and how what is printed in it looks.
//!
//! The text of the command line is the buffer's business. Here stand the
//! rules that need no more than the mode and the last line.
use vstd::prelude::*;
use vstd::string::StringExecFns;
use crate::keymap::key::{Key, KeyCode};
use crate::keymap::message::{Mode, TextModification};

verus! {

/// Which way a search runs through the lines.
#[derive(Clone, Copy, Debug, PartialEq, Eq, Structural)]
pub enum SearchDirection {
    Down,
    Up,
}

/// Which match a motion asks for.
#[derive(Clone, Copy, Debug, PartialEq, Eq, Structural)]
pub enum Search {
    Next,
    Previous,
}

/// What the command line is open for.
#[derive(Clone, Copy, Debug, PartialEq, Eq, Structural)]
pub enum CommandMode {
    /// A command is typed.
    Command,
    /// Several lines were printed and wait to be read.
    PrintMultiline,
    /// A search term is typed.
    Search(SearchDirection),
}

impl DeepView for SearchDirection {
    type V = SearchDirection;

    open spec fn deep_view(&self) -> SearchDirection {
        *self
    }
}

/// Something to print in the command line.
#[derive(Clone, Debug, PartialEq, Eq)]
pub enum PrintContent {
    Default(String),
    Error(String),
    Information(String),
}

/// What the command line remembers: the last command and the last search.
#[derive(Clone, Debug, PartialEq, Eq)]
pub struct Register {
    pub command: Option<String>,
    pub searched: Option<(SearchDirection, String)>,
}

/// A register as plain values.
pub struct RegisterView {
    pub command: Option<Seq<char>>,
    pub searched: Option<(SearchDirection, Seq<char>)>,
}

impl DeepView for Register {
    type V = RegisterView;

    open spec fn deep_view(&self) -> RegisterView {
        RegisterView { command: self.command.deep_view(), searched: self.searched.deep_view() }
    }
}

/// What the command line asks for when it is executed or left.
#[derive(Clone, Debug, PartialEq, Eq)]
pub enum LineMessage {
    /// Change from the first mode to the second.
    ChangeMode(Mode, Mode),
    /// Execute this command.
    ExecuteCommandString(String),
    /// Move the cursor to the next match of the search.
    MoveToNextMatch,
}

/// A message of the command line as plain values.
pub enum LineMessageView {
    ChangeMode(Mode, Mode),
    ExecuteCommandString(Seq<char>),
    MoveToNextMatch,
}

impl DeepView for LineMessage {
    type V = LineMessageView;

    open spec fn deep_view(&self) -> LineMessageView {
        match self {
            LineMessage::ChangeMode(from, to) => LineMessageView::ChangeMode(*from, *to),
            LineMessage::ExecuteCommandString(command) => LineMessageView::ExecuteCommandString(
                command@,
            ),
            LineMessage::MoveToNextMatch => LineMessageView::MoveToNextMatch,
        }
    }
}

/// The mode that follows the command line, given the mode before it:
/// normal mode after insert and normal mode, navigation mode after
/// navigation mode, and the default mode where none was before.
pub open spec fn mode_after_command(mode_before: Option<Mode>) -> Mode {
    match mode_before {
        Some(Mode::Navigation) => Mode::Navigation,
        Some(_) => Mode::Normal,
        None => Mode::Navigation,
    }
}

/// The mode that follows the command line, given the mode before it, which
/// is not itself that of the command line.
pub fn get_mode_after_command(mode_before: &Option<Mode>) -> (mode: Mode)
    requires
        *mode_before != Some(Mode::Command),
    ensures
        mode == mode_after_command(*mode_before),
{
    match mode_before {
        Some(Mode::Navigation) => Mode::Navigation,
        Some(_) => Mode::Normal,
        None => Mode::default(),
    }
}

/// The match to go to when `search` is asked for and the last search ran in
/// `direction`: a search upwards turns next and previous around.
pub open spec fn search_towards(search: Search, direction: SearchDirection) -> Search {
    match (search, direction) {
        (Search::Next, SearchDirection::Down) => Search::Next,
        (Search::Next, SearchDirection::Up) => Search::Previous,
        (Search::Previous, SearchDirection::Down) => Search::Previous,
        (Search::Previous, SearchDirection::Up) => Search::Next,
    }
}

/// The match to go to when `search` is asked for and the last search ran in
/// `direction`.
pub fn search_in_direction(search: Search, direction: SearchDirection) -> (towards: Search)
    ensures
        towards == search_towards(search, direction),
{
    match (search, direction) {
        (Search::Next, SearchDirection::Down) => Search::Next,
        (Search::Next, SearchDirection::Up) => Search::Previous,
        (Search::Previous, SearchDirection::Down) => Search::Previous,
        (Search::Previous, SearchDirection::Up) => Search::Next,
    }
}

/// What a key opens when it is typed while printed lines wait to be read:
/// a colon a command, a slash a search downwards, a question mark a search
/// upwards, any other key nothing.
pub open spec fn opened_by(key: Key) -> Option<CommandMode> {
    if key.code == KeyCode::Print(':') {
        Some(CommandMode::Command)
    } else if key.code == KeyCode::Print('/') {
        Some(CommandMode::Search(SearchDirection::Down))
    } else if key.code == KeyCode::Print('?') {
        Some(CommandMode::Search(SearchDirection::Up))
    } else {
        None
    }
}

/// What a key opens when it is typed while printed lines wait to be read.
pub fn mode_opened_by(key: Key) -> (opened: Option<CommandMode>)
    ensures
        opened == opened_by(key),
{
    match key.code {
        KeyCode::Print(c) => {
            if c == ':' {
                Some(CommandMode::Command)
            } else if c == '/' {
                Some(CommandMode::Search(SearchDirection::Down))
            } else if c == '?' {
                Some(CommandMode::Search(SearchDirection::Up))
            } else {
                None
            }
        },
        _ => None,
    }
}

/// Whether a modification leaves the command line: deleting before the
/// cursor when the last line is there and empty.
pub open spec fn leaves_line(modification: TextModification, last_line: Option<Seq<char>>) -> bool {
    modification == TextModification::DeleteCharBeforeCursor && last_line == Some(
        Seq::<char>::empty(),
    )
}

/// Whether a modification leaves the command line.
pub fn leaves_command_line(modification: TextModification, last_line: &Option<String>) -> (leaves:
    bool)
    ensures
        leaves == leaves_line(modification, last_line.deep_view()),
{
    match (modification, last_line) {
        (TextModification::DeleteCharBeforeCursor, Some(line)) => {
            let empty = line.as_str().unicode_len() == 0;
            proof {
                if empty {
                    assert(line@ =~= Seq::<char>::empty());
                }
            }
            empty
        },
        _ => false,
    }
}

/// What executing the command line comes to, in the command mode
/// `command_mode`, with `last_line` the last line of the command line,
/// `mode` the mode and `after` the mode that follows: the register
/// afterwards and the messages, in order. A command is remembered and asked
/// to be executed; printed lines are left; a search is remembered, left,
/// and its next match asked for.
pub open spec fn executed(
    register: RegisterView,
    command_mode: CommandMode,
    last_line: Option<Seq<char>>,
    mode: Mode,
    after: Mode,
) -> (RegisterView, Seq<LineMessageView>) {
    match command_mode {
        CommandMode::Command => match last_line {
            Some(command) => (
                RegisterView { command: Some(command), ..register },
                seq![LineMessageView::ExecuteCommandString(command)],
            ),
            None => (register, Seq::empty()),
        },
        CommandMode::PrintMultiline => (register, seq![LineMessageView::ChangeMode(mode, after)]),
        CommandMode::Search(direction) => (
            RegisterView {
                searched: match last_line {
                    Some(term) => Some((direction, term)),
                    None => None,
                },
                ..register
            },
            seq![LineMessageView::ChangeMode(mode, after), LineMessageView::MoveToNextMatch],
        ),
    }
}

/// Executes the command line: changes the register and returns the
/// messages.
pub fn execute(
    register: &mut Register,
    command_mode: CommandMode,
    last_line: Option<String>,
    mode: Mode,
    after: Mode,
) -> (messages: Vec<LineMessage>)
    ensures
        (final(register).deep_view(), messages.deep_view()) == executed(
            old(register).deep_view(),
            command_mode,
            last_line.deep_view(),
            mode,
            after,
        ),
{
    let mut messages: Vec<LineMessage> = Vec::new();
    proof {
        assert(messages.deep_view() =~= Seq::empty());
    }
    match command_mode {
        CommandMode::Command => match last_line {
            Some(command) => {
                register.command = Some(command.clone());
                messages.push(LineMessage::ExecuteCommandString(command));
                proof {
                    assert(messages.deep_view() =~= seq![
                        LineMessageView::ExecuteCommandString(command@),
                    ]);
                }
            },
            None => {},
        },
        CommandMode::PrintMultiline => {
            messages.push(LineMessage::ChangeMode(mode, after));
            proof {
                assert(messages.deep_view() =~= seq![LineMessageView::ChangeMode(mode, after)]);
            }
        },
        CommandMode::Search(direction) => {
            register.searched = match last_line {
                Some(term) => Some((direction, term)),
                None => None,
            };
            messages.push(LineMessage::ChangeMode(mode, after));
            messages.push(LineMessage::MoveToNextMatch);
            proof {
                assert(messages.deep_view() =~= seq![
                    LineMessageView::ChangeMode(mode, after),
                    LineMessageView::MoveToNextMatch,
                ]);
            }
        },
    }
    messages
}

/// The text that ends a colour.
pub open spec fn colour_end() -> Seq<char> {
    "\x1b[39m"@
}

/// The line that prints `content`: plain, in red for an error, in light
/// green for an information.
pub open spec fn printed_line(content: PrintContent) -> Seq<char> {
    match content {
        PrintContent::Default(text) => text@,
        PrintContent::Error(text) => "\x1b[31m"@ + text@ + colour_end(),
        PrintContent::Information(text) => "\x1b[92m"@ + text@ + colour_end(),
    }
}

/// The line that asks to go on after several lines were printed.
pub open spec fn continue_line() -> Seq<char> {
    "\x1b[94mPress ENTER or type command to continue\x1b[39m"@
}

/// The lines that print `content`: one for each, and, where there are
/// several, the line that asks to go on.
pub open spec fn printed_lines(content: Seq<PrintContent>) -> Seq<Seq<char>> {
    let lines = Seq::new(content.len(), |i: int| printed_line(content[i]));
    if content.len() > 1 {
        lines.push(continue_line())
    } else {
        lines
    }
}

/// The lines that print `content`. Several lines wait to be read: the
/// command line is then in the mode for that.
pub fn print_lines(content: &Vec<PrintContent>) -> (lines: Vec<String>)
    ensures
        lines.deep_view() == printed_lines(content@),
{
    let mut lines: Vec<String> = Vec::new();
    let mut i: usize = 0;
    while i < content.len()
        invariant
            i <= content.len(),
            lines.len() == i,
            forall|j: int| 0 <= j < i ==> lines@[j]@ == printed_line(content@[j]),
        decreases content.len() - i,
    {
        let line = match &content[i] {
            PrintContent::Default(text) => text.clone(),
            PrintContent::Error(text) => String::from_str("\x1b[31m").concat(
                text.as_str(),
            ).concat("\x1b[39m"),
            PrintContent::Information(text) => String::from_str("\x1b[92m").concat(
                text.as_str(),
            ).concat("\x1b[39m"),
        };
        lines.push(line);
        i += 1;
    }
    if content.len() > 1 {
        lines.push(String::from_str("\x1b[94mPress ENTER or type command to continue\x1b[39m"));
    }
    proof {
        assert(lines.deep_view() =~= printed_lines(content@));
    }
    lines
}

} // verus!
