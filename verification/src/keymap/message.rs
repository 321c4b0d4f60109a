//! The vocabulary the resolver speaks: modes, the commands it emits, and the
//! bindings a key sequence can be mapped to.
use vstd::prelude::*;
use crate::keymap::key::Key;

verus! {

/// The modal context. It selects the binding table that is consulted.
#[derive(Clone, Copy, Debug, PartialEq, Eq, Structural, Hash)]
pub enum Mode {
    Command,
    Insert,
    Navigation,
    Normal,
}

impl Default for Mode {
    fn default() -> (mode: Mode)
        ensures
            mode == Mode::Navigation,
    {
        Mode::Navigation
    }
}

impl Mode {
    /// Whether a key that no binding matches is taken as text to insert.
    pub open spec fn spec_inserts_unmatched(self) -> bool {
        self == Mode::Command || self == Mode::Insert
    }

    /// Whether a key that no binding matches is taken as text to insert.
    #[verifier::when_used_as_spec(spec_inserts_unmatched)]
    pub fn inserts_unmatched(self) -> (literal: bool)
        ensures
            literal == self.spec_inserts_unmatched(),
    {
        match self {
            Mode::Command | Mode::Insert => true,
            Mode::Navigation | Mode::Normal => false,
        }
    }
}

/// Where a cursor motion leads.
#[derive(Clone, Copy, Debug, PartialEq, Eq, Structural, Hash)]
pub enum CursorDirection {
    Bottom,
    Down,
    Left,
    LineEnd,
    LineStart,
    Right,
    Top,
    Up,
}

/// How the viewport is moved relative to its content.
#[derive(Clone, Copy, Debug, PartialEq, Eq, Structural, Hash)]
pub enum ViewPortDirection {
    BottomOnCursor,
    CenterOnCursor,
    HalfPageDown,
    HalfPageUp,
    TopOnCursor,
}

/// On which side of the cursor line a new line opens.
#[derive(Clone, Copy, Debug, PartialEq, Eq, Structural, Hash)]
pub enum NewLineDirection {
    Above,
    Under,
}

/// A change to the text under the cursor.
#[derive(Clone, Copy, Debug, PartialEq, Eq, Structural, Hash)]
pub enum TextModification {
    DeleteCharBeforeCursor,
    DeleteCharOnCursor,
    DeleteLineOnCursor,
    /// Insert the text of the given key at the cursor.
    Insert(Key),
    InsertNewLine(NewLineDirection),
}

/// A command the resolver emits. `Modification` and `MoveCursor` carry a
/// repeat count; the other commands have none.
#[derive(Clone, Copy, Debug, PartialEq, Eq, Structural, Hash)]
pub enum KeymapMessage {
    /// The mode changes from the first to the second.
    ChangeMode(Mode, Mode),
    ExecuteCommand,
    Modification(usize, TextModification),
    MoveCursor(usize, CursorDirection),
    MoveViewPort(ViewPortDirection),
    Quit,
    Refresh,
    SaveBuffer,
    SelectCurrent,
    SelectParent,
}

impl DeepView for KeymapMessage {
    type V = KeymapMessage;

    open spec fn deep_view(&self) -> KeymapMessage {
        *self
    }
}

impl KeymapMessage {
    /// This command with its repeat count replaced by `count`. A command
    /// without a count is returned as it is.
    pub open spec fn spec_with_count(self, count: usize) -> KeymapMessage {
        match self {
            KeymapMessage::Modification(_, modification) => KeymapMessage::Modification(
                count,
                modification,
            ),
            KeymapMessage::MoveCursor(_, direction) => KeymapMessage::MoveCursor(count, direction),
            _ => self,
        }
    }

    /// This command with its repeat count replaced by `count`. A command
    /// without a count is returned as it is.
    #[verifier::when_used_as_spec(spec_with_count)]
    pub fn with_count(self, count: usize) -> (message: KeymapMessage)
        ensures
            message == self.spec_with_count(count),
    {
        match self {
            KeymapMessage::Modification(_, modification) => KeymapMessage::Modification(
                count,
                modification,
            ),
            KeymapMessage::MoveCursor(_, direction) => KeymapMessage::MoveCursor(count, direction),
            other => other,
        }
    }
}

/// What a key sequence is mapped to.
#[derive(Clone, Copy, Debug, PartialEq, Eq, Structural, Hash)]
pub enum Binding {
    /// Emit the command as written, or with the accumulated count if there is
    /// one.
    Message(KeymapMessage),
    /// Ask for a change to the given mode.
    Mode(Mode),
    /// Ask for a change to the given mode, then for the modification.
    ModeAndTextModification(Mode, TextModification),
    /// Move the cursor, by the accumulated count if there is one, else once.
    Motion(CursorDirection),
    /// A digit of a repeat count.
    Repeat(u8),
    /// A digit of a repeat count while a nonzero count is accumulating, else
    /// the motion.
    RepeatOrMotion(u8, CursorDirection),
}

impl Binding {
    /// The binding of a modification that is made once.
    pub open spec fn spec_modification(modification: TextModification) -> Binding {
        Binding::Message(KeymapMessage::Modification(1, modification))
    }

    /// The binding of a modification that is made once.
    #[verifier::when_used_as_spec(spec_modification)]
    pub fn modification(modification: TextModification) -> (binding: Binding)
        ensures
            binding == Binding::spec_modification(modification),
    {
        Binding::Message(KeymapMessage::Modification(1, modification))
    }

    /// The binding of a move of the viewport.
    pub open spec fn spec_scroll(direction: ViewPortDirection) -> Binding {
        Binding::Message(KeymapMessage::MoveViewPort(direction))
    }

    /// The binding of a move of the viewport.
    #[verifier::when_used_as_spec(spec_scroll)]
    pub fn scroll(direction: ViewPortDirection) -> (binding: Binding)
        ensures
            binding == Binding::spec_scroll(direction),
    {
        Binding::Message(KeymapMessage::MoveViewPort(direction))
    }

    /// The binding that opens a new line and changes to insert mode.
    pub open spec fn spec_open_line(direction: NewLineDirection) -> Binding {
        Binding::ModeAndTextModification(Mode::Insert, TextModification::InsertNewLine(direction))
    }

    /// The binding that opens a new line and changes to insert mode.
    #[verifier::when_used_as_spec(spec_open_line)]
    pub fn open_line(direction: NewLineDirection) -> (binding: Binding)
        ensures
            binding == Binding::spec_open_line(direction),
    {
        Binding::ModeAndTextModification(Mode::Insert, TextModification::InsertNewLine(direction))
    }
}

} // verus!
