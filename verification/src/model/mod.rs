//! The data the update loop works on.
pub mod buffer;
pub mod history;
pub mod mark;
pub mod register;

use vstd::prelude::*;
use crate::keymap::message::Mode;
use crate::model::buffer::{Buffer, BufferView, Cursor, ViewPort};
use crate::model::history::{History, HistoryNodeView};
use crate::model::mark::Marks;

verus! {

/// A buffer that shows the directory or file at a path.
#[derive(Debug, PartialEq, Eq)]
pub struct DirectoryBuffer {
    pub buffer: Buffer,
    pub path: String,
}

/// The buffer that shows the directory above the current one, if there is
/// one.
#[derive(Debug, PartialEq, Eq)]
pub struct ParentBuffer {
    pub buffer: Buffer,
    pub path: Option<String>,
}

/// Everything the update loop knows.
#[derive(Debug, PartialEq, Eq)]
pub struct Model {
    pub commandline: Buffer,
    pub current: DirectoryBuffer,
    pub history: History,
    /// The pending key sequence as shown to the user.
    pub key_sequence: String,
    pub marks: Marks,
    pub mode: Mode,
    pub parent: ParentBuffer,
    pub preview: DirectoryBuffer,
}

/// A model as plain values.
pub struct ModelView {
    pub commandline: BufferView,
    pub current: BufferView,
    pub current_path: Seq<char>,
    pub history: Seq<HistoryNodeView>,
    pub key_sequence: Seq<char>,
    pub marks: Seq<(char, Seq<char>)>,
    pub mode: Mode,
    pub parent: BufferView,
    pub parent_path: Option<Seq<char>>,
    pub preview: BufferView,
    pub preview_path: Seq<char>,
}

impl DeepView for Model {
    type V = ModelView;

    open spec fn deep_view(&self) -> ModelView {
        ModelView {
            commandline: self.commandline.deep_view(),
            current: self.current.buffer.deep_view(),
            current_path: self.current.path@,
            history: self.history.deep_view(),
            key_sequence: self.key_sequence@,
            marks: self.marks.deep_view(),
            mode: self.mode,
            parent: self.parent.buffer.deep_view(),
            parent_path: self.parent.path.deep_view(),
            preview: self.preview.buffer.deep_view(),
            preview_path: self.preview.path@,
        }
    }
}

/// The buffer of a directory before anything is read: no lines, the cursor
/// at the top.
pub open spec fn fresh_directory() -> BufferView {
    BufferView {
        cursor: Some(Cursor::at_start()),
        lines: Seq::empty(),
        view_port: ViewPort::empty(),
    }
}

/// The buffer with no lines and no cursor.
pub open spec fn empty_buffer() -> BufferView {
    BufferView { cursor: None, lines: Seq::empty(), view_port: ViewPort::empty() }
}

impl Model {
    /// The model at the start: at `current_path`, in the default mode, with
    /// nothing read, nothing marked and nothing remembered.
    pub fn new(current_path: String) -> (model: Model)
        ensures
            model.deep_view() == (ModelView {
                commandline: empty_buffer(),
                current: fresh_directory(),
                current_path: current_path@,
                history: Seq::empty(),
                key_sequence: Seq::empty(),
                marks: Seq::empty(),
                mode: Mode::Navigation,
                parent: fresh_directory(),
                parent_path: None,
                preview: empty_buffer(),
                preview_path: Seq::empty(),
            }),
    {
        let model = Model {
            commandline: Buffer::default(),
            current: DirectoryBuffer {
                buffer: Buffer {
                    cursor: Some(Cursor::default()),
                    lines: Vec::new(),
                    view_port: ViewPort::default(),
                },
                path: current_path,
            },
            history: History::default(),
            key_sequence: String::new(),
            marks: Marks::default(),
            mode: Mode::default(),
            parent: ParentBuffer {
                buffer: Buffer {
                    cursor: Some(Cursor::default()),
                    lines: Vec::new(),
                    view_port: ViewPort::default(),
                },
                path: None,
            },
            preview: DirectoryBuffer { buffer: Buffer::default(), path: String::new() },
        };
        proof {
            assert(model.commandline.deep_view().lines =~= Seq::empty());
            assert(model.current.buffer.deep_view().lines =~= Seq::empty());
            assert(model.parent.buffer.deep_view().lines =~= Seq::empty());
            assert(model.preview.buffer.deep_view().lines =~= Seq::empty());
        }
        model
    }
}

} // verus!
