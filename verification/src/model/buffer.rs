//! What a buffer on screen is made of: its lines, its cursor, its viewport.
use vstd::prelude::*;
use crate::keymap::message::CursorDirection;

verus! {

/// A colour of the terminal palette.
#[derive(Clone, Copy, Debug, PartialEq, Eq, Structural)]
pub enum Color {
    Black,
    Blue,
    Cyan,
    DarkGray,
    Gray,
    Green,
    LightBlue,
    LightCyan,
    LightGreen,
    LightMagenta,
    LightRed,
    LightYellow,
    Magenta,
    Red,
    White,
    Yellow,
}

/// One aspect of how text is drawn.
#[derive(Clone, Copy, Debug, PartialEq, Eq, Structural)]
pub enum StylePartial {
    Background(Color),
    Foreground(Color),
    /// Foreground and background exchanged.
    Reversed,
}

/// What a sign stands for.
#[derive(Clone, Copy, Debug, PartialEq, Eq, Structural)]
pub enum SignIdentifier {
    Mark,
}

/// A sign in the column before a line.
#[derive(Clone, Debug, PartialEq, Eq)]
pub struct Sign {
    pub id: SignIdentifier,
    pub content: char,
    pub priority: usize,
    pub style: Vec<StylePartial>,
}

/// A line of a buffer.
#[derive(Clone, Debug, PartialEq, Eq)]
pub struct BufferLine {
    pub content: String,
    pub signs: Vec<Sign>,
    /// Styles for parts of the line: from a column, up to a column, the style.
    pub style: Vec<(usize, usize, StylePartial)>,
}

/// Where in its line the cursor stands.
#[derive(Clone, Copy, Debug, PartialEq, Eq, Structural)]
pub enum CursorPosition {
    /// On the character with this index.
    Absolute(usize),
    /// On the last character.
    End,
    /// Nowhere: the cursor is not shown within the line.
    Hidden,
}

/// The cursor of a buffer.
#[derive(Clone, Copy, Debug, PartialEq, Eq, Structural)]
pub struct Cursor {
    pub horizontial_index: CursorPosition,
    pub vertical_index: usize,
}

impl Cursor {
    /// The cursor on the first character of the first line.
    pub open spec fn at_start() -> Cursor {
        Cursor { horizontial_index: CursorPosition::Absolute(0), vertical_index: 0 }
    }
}

impl Default for Cursor {
    /// The cursor on the first character of the first line.
    fn default() -> (cursor: Cursor)
        ensures
            cursor == Cursor::at_start(),
    {
        Cursor { horizontial_index: CursorPosition::Absolute(0), vertical_index: 0 }
    }
}

/// The part of a buffer that is on screen.
#[derive(Clone, Copy, Debug, PartialEq, Eq, Structural)]
pub struct ViewPort {
    /// The number of columns for the content of a line.
    pub content_width: usize,
    pub height: usize,
    /// The byte of each line at which the first character shown begins.
    pub horizontal_index: usize,
    pub line_number_width: usize,
    pub sign_column_width: usize,
    /// The index of the first line shown.
    pub vertical_index: usize,
    pub width: usize,
}

impl Default for ViewPort {
    /// The viewport of no extent at the top left.
    fn default() -> (view_port: ViewPort)
        ensures
            view_port == ViewPort::empty(),
    {
        ViewPort {
            content_width: 0,
            height: 0,
            horizontal_index: 0,
            line_number_width: 0,
            sign_column_width: 0,
            vertical_index: 0,
            width: 0,
        }
    }
}

impl ViewPort {
    /// The viewport of no extent at the top left.
    pub open spec fn empty() -> ViewPort {
        ViewPort {
            content_width: 0,
            height: 0,
            horizontal_index: 0,
            line_number_width: 0,
            sign_column_width: 0,
            vertical_index: 0,
            width: 0,
        }
    }

    /// The number of columns before the content of a line: those of the
    /// signs and those of the line number.
    pub open spec fn offset_width(self) -> int {
        self.sign_column_width + self.line_number_width
    }

    /// The number of columns before the content of a line.
    pub fn get_offset_width(&self) -> (offset: usize)
        requires
            self.offset_width() <= usize::MAX,
        ensures
            offset == self.offset_width(),
    {
        self.sign_column_width + self.line_number_width
    }
}

/// A buffer: lines, and where the cursor and the viewport stand in them.
#[derive(Clone, Debug, PartialEq, Eq)]
pub struct Buffer {
    pub cursor: Option<Cursor>,
    pub lines: Vec<BufferLine>,
    pub view_port: ViewPort,
}

impl Default for Buffer {
    /// The empty buffer without a cursor.
    fn default() -> (buffer: Buffer)
        ensures
            buffer.cursor is None,
            buffer.lines@.len() == 0,
            buffer.view_port == ViewPort::empty(),
    {
        Buffer { cursor: None, lines: Vec::new(), view_port: ViewPort::default() }
    }
}


/// A sign as plain values.
pub struct SignView {
    pub id: SignIdentifier,
    pub content: char,
    pub priority: usize,
    pub style: Seq<StylePartial>,
}

impl DeepView for Sign {
    type V = SignView;

    open spec fn deep_view(&self) -> SignView {
        SignView { id: self.id, content: self.content, priority: self.priority, style: self.style@ }
    }
}

/// A line as plain values.
pub struct LineView {
    pub content: Seq<char>,
    pub signs: Seq<SignView>,
    pub style: Seq<(usize, usize, StylePartial)>,
}

impl DeepView for BufferLine {
    type V = LineView;

    open spec fn deep_view(&self) -> LineView {
        LineView { content: self.content@, signs: self.signs.deep_view(), style: self.style@ }
    }
}

/// A buffer as plain values.
pub struct BufferView {
    pub cursor: Option<Cursor>,
    pub lines: Seq<LineView>,
    pub view_port: ViewPort,
}

impl DeepView for Buffer {
    type V = BufferView;

    open spec fn deep_view(&self) -> BufferView {
        BufferView {
            cursor: self.cursor,
            lines: self.lines.deep_view(),
            view_port: self.view_port,
        }
    }
}


/// The smaller of two numbers.
pub open spec fn least(a: int, b: int) -> int {
    if a <= b {
        a
    } else {
        b
    }
}

/// The index of the last of `count` places, or zero where there is none.
pub open spec fn last_index(count: int) -> int {
    if count > 0 {
        count - 1
    } else {
        0
    }
}

/// The cursor after it is moved `count` times in `direction` within
/// `lines`. It stays within the lines, and within its line where it stands
/// on a character.
pub open spec fn moved_cursor(
    cursor: Cursor,
    lines: Seq<LineView>,
    count: usize,
    direction: CursorDirection,
) -> Cursor {
    let last = last_index(lines.len() as int);
    let width = if cursor.vertical_index < lines.len() {
        lines[cursor.vertical_index as int].content.len() as int
    } else {
        0
    };
    match direction {
        CursorDirection::Bottom => Cursor { vertical_index: last as usize, ..cursor },
        CursorDirection::Down => Cursor {
            vertical_index: least(cursor.vertical_index + count, last) as usize,
            ..cursor
        },
        CursorDirection::Top => Cursor { vertical_index: 0, ..cursor },
        CursorDirection::Up => Cursor {
            vertical_index: (cursor.vertical_index - least(
                count as int,
                cursor.vertical_index as int,
            )) as usize,
            ..cursor
        },
        CursorDirection::LineStart => Cursor {
            horizontial_index: CursorPosition::Absolute(0),
            ..cursor
        },
        CursorDirection::LineEnd => Cursor { horizontial_index: CursorPosition::End, ..cursor },
        CursorDirection::Left => match cursor.horizontial_index {
            CursorPosition::Absolute(i) => Cursor {
                horizontial_index: CursorPosition::Absolute(
                    (i - least(count as int, i as int)) as usize,
                ),
                ..cursor
            },
            _ => cursor,
        },
        CursorDirection::Right => match cursor.horizontial_index {
            CursorPosition::Absolute(i) => Cursor {
                horizontial_index: CursorPosition::Absolute(
                    least(i + count, last_index(width)) as usize,
                ),
                ..cursor
            },
            _ => cursor,
        },
    }
}

/// The buffer after its cursor, if it has one, is moved.
pub open spec fn moved(buffer: BufferView, count: usize, direction: CursorDirection) -> BufferView {
    match buffer.cursor {
        Some(cursor) => BufferView {
            cursor: Some(moved_cursor(cursor, buffer.lines, count, direction)),
            ..buffer
        },
        None => buffer,
    }
}

/// The smaller of `a + b` and `limit`.
fn step_to(a: usize, b: usize, limit: usize) -> (reached: usize)
    ensures
        reached == least(a + b, limit as int),
{
    let sum = a.saturating_add(b);
    if sum <= limit {
        sum
    } else {
        limit
    }
}

impl Buffer {
    /// Moves the cursor `count` times in `direction`.
    pub fn move_cursor(&mut self, count: usize, direction: CursorDirection)
        ensures
            final(self).deep_view() == moved(old(self).deep_view(), count, direction),
    {
        let cursor = match self.cursor {
            Some(cursor) => cursor,
            None => {
                return ;
            },
        };
        let last = if self.lines.len() > 0 {
            self.lines.len() - 1
        } else {
            0
        };
        let moved = match direction {
            CursorDirection::Bottom => Cursor { vertical_index: last, ..cursor },
            CursorDirection::Down => Cursor {
                vertical_index: step_to(cursor.vertical_index, count, last),
                ..cursor
            },
            CursorDirection::Top => Cursor { vertical_index: 0, ..cursor },
            CursorDirection::Up => Cursor {
                vertical_index: cursor.vertical_index.saturating_sub(count),
                ..cursor
            },
            CursorDirection::LineStart => Cursor {
                horizontial_index: CursorPosition::Absolute(0),
                ..cursor
            },
            CursorDirection::LineEnd => Cursor { horizontial_index: CursorPosition::End, ..cursor },
            CursorDirection::Left => match cursor.horizontial_index {
                CursorPosition::Absolute(i) => Cursor {
                    horizontial_index: CursorPosition::Absolute(i.saturating_sub(count)),
                    ..cursor
                },
                _ => cursor,
            },
            CursorDirection::Right => match cursor.horizontial_index {
                CursorPosition::Absolute(i) => {
                    let width = if cursor.vertical_index < self.lines.len() {
                        proof {
                            assert(self.deep_view().lines[cursor.vertical_index as int].content
                                == self.lines@[cursor.vertical_index as int].content@);
                        }
                        self.lines[cursor.vertical_index].content.as_str().unicode_len()
                    } else {
                        0
                    };
                    let end = if width > 0 {
                        width - 1
                    } else {
                        0
                    };
                    Cursor {
                        horizontial_index: CursorPosition::Absolute(step_to(i, count, end)),
                        ..cursor
                    }
                },
                _ => cursor,
            },
        };
        self.cursor = Some(moved);
    }
}

} // verus!
