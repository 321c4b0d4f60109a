//! The messages that reach the update loop, whoever produced them: the key
//! resolver, the translation of file system events, or a background task.
use vstd::prelude::*;
use crate::keymap::message::KeymapMessage;
use crate::path::{is_same_path, path_components, same_path};

verus! {

/// What kind of thing a directory entry is.
#[derive(Clone, Copy, Debug, PartialEq, Eq, Structural, Hash)]
pub enum ContentKind {
    Directory,
    File,
}

impl DeepView for ContentKind {
    type V = ContentKind;

    open spec fn deep_view(&self) -> ContentKind {
        *self
    }
}

/// A message for the update loop. Paths are held as text.
#[derive(Clone, Debug, PartialEq, Eq)]
pub enum Message {
    /// The pending key sequence, as shown to the user, has changed.
    ChangeKeySequence(String),
    /// A task or a service failed; the text says how.
    Error(String),
    /// A command from the key resolver.
    Keymap(KeymapMessage),
    NavigateToPath(String),
    /// What has been read of a directory so far.
    PathEnumerationContentChanged(String, Vec<(ContentKind, String)>),
    /// The directory has been read to its end.
    PathEnumerationFinished(String),
    PathRemoved(String),
    PathsAdded(Vec<String>),
    PathsWriteFinished(Vec<String>),
    /// The text of a file, line by line.
    PreviewLoaded(String, Vec<String>),
    /// The terminal has a new width and height.
    Resize(u16, u16),
}

/// A message as plain values.
pub enum MessageView {
    ChangeKeySequence(Seq<char>),
    Error(Seq<char>),
    Keymap(KeymapMessage),
    NavigateToPath(Seq<char>),
    PathEnumerationContentChanged(Seq<char>, Seq<(ContentKind, Seq<char>)>),
    PathEnumerationFinished(Seq<char>),
    PathRemoved(Seq<char>),
    PathsAdded(Seq<Seq<char>>),
    PathsWriteFinished(Seq<Seq<char>>),
    PreviewLoaded(Seq<char>, Seq<Seq<char>>),
    Resize(u16, u16),
}

impl DeepView for Message {
    type V = MessageView;

    open spec fn deep_view(&self) -> MessageView {
        match self {
            Message::ChangeKeySequence(keys) => MessageView::ChangeKeySequence(keys@),
            Message::Error(text) => MessageView::Error(text@),
            Message::Keymap(message) => MessageView::Keymap(*message),
            Message::NavigateToPath(path) => MessageView::NavigateToPath(path@),
            Message::PathEnumerationContentChanged(path, entries) => {
                MessageView::PathEnumerationContentChanged(path@, entries.deep_view())
            },
            Message::PathEnumerationFinished(path) => MessageView::PathEnumerationFinished(path@),
            Message::PathRemoved(path) => MessageView::PathRemoved(path@),
            Message::PathsAdded(paths) => MessageView::PathsAdded(paths.deep_view()),
            Message::PathsWriteFinished(paths) => MessageView::PathsWriteFinished(
                paths.deep_view(),
            ),
            Message::PreviewLoaded(path, lines) => MessageView::PreviewLoaded(
                path@,
                lines.deep_view(),
            ),
            Message::Resize(width, height) => MessageView::Resize(*width, *height),
        }
    }
}

/// Whether two lists of texts hold the same texts in the same order.
pub fn same_strings(a: &Vec<String>, b: &Vec<String>) -> (same: bool)
    ensures
        same == (a.deep_view() == b.deep_view()),
{
    if a.len() != b.len() {
        proof {
            assert(a.deep_view().len() != b.deep_view().len());
        }
        return false;
    }
    let mut i: usize = 0;
    while i < a.len()
        invariant
            i <= a.len(),
            a.len() == b.len(),
            forall|j: int| 0 <= j < i ==> a@[j]@ == b@[j]@,
        decreases a.len() - i,
    {
        if a[i] != b[i] {
            proof {
                assert(a.deep_view()[i as int] != b.deep_view()[i as int]);
            }
            return false;
        }
        i += 1;
    }
    proof {
        assert(a.deep_view() =~= b.deep_view());
    }
    true
}

/// Whether two lists of directory entries are the same.
pub fn same_entries(a: &Vec<(ContentKind, String)>, b: &Vec<(ContentKind, String)>) -> (same: bool)
    ensures
        same == (a.deep_view() == b.deep_view()),
{
    if a.len() != b.len() {
        proof {
            assert(a.deep_view().len() != b.deep_view().len());
        }
        return false;
    }
    let mut i: usize = 0;
    while i < a.len()
        invariant
            i <= a.len(),
            a.len() == b.len(),
            forall|j: int| 0 <= j < i ==> a@[j].0 == b@[j].0 && a@[j].1@ == b@[j].1@,
        decreases a.len() - i,
    {
        if a[i].0 != b[i].0 || a[i].1 != b[i].1 {
            proof {
                assert(a.deep_view()[i as int] != b.deep_view()[i as int]);
            }
            return false;
        }
        i += 1;
    }
    proof {
        assert(a.deep_view() =~= b.deep_view());
    }
    true
}

/// A copy of a list of directory entries.
pub fn clone_entries(entries: &Vec<(ContentKind, String)>) -> (copy: Vec<(ContentKind, String)>)
    ensures
        copy.deep_view() == entries.deep_view(),
{
    let mut copy: Vec<(ContentKind, String)> = Vec::new();
    let mut i: usize = 0;
    while i < entries.len()
        invariant
            i <= entries.len(),
            copy.len() == i,
            forall|j: int|
                0 <= j < i ==> copy@[j].0 == entries@[j].0 && copy@[j].1@ == entries@[j].1@,
        decreases entries.len() - i,
    {
        copy.push((entries[i].0, entries[i].1.clone()));
        i += 1;
    }
    proof {
        assert(copy.deep_view() =~= entries.deep_view());
    }
    copy
}

/// What makes a message the same as another: its variant and payload,
/// where a path counts by its components.
pub enum MessageIdentity {
    ChangeKeySequence(Seq<char>),
    Error(Seq<char>),
    Keymap(KeymapMessage),
    NavigateToPath(Seq<Seq<char>>),
    PathEnumerationContentChanged(Seq<Seq<char>>, Seq<(ContentKind, Seq<char>)>),
    PathEnumerationFinished(Seq<Seq<char>>),
    PathRemoved(Seq<Seq<char>>),
    PathsAdded(Seq<Seq<Seq<char>>>),
    PathsWriteFinished(Seq<Seq<Seq<char>>>),
    PreviewLoaded(Seq<Seq<char>>, Seq<Seq<char>>),
    Resize(u16, u16),
}

/// The components of each of `paths`.
pub open spec fn paths_identity(paths: Seq<Seq<char>>) -> Seq<Seq<Seq<char>>> {
    Seq::new(paths.len(), |i: int| path_components(paths[i]))
}

/// The identity of a message.
pub open spec fn message_identity(message: MessageView) -> MessageIdentity {
    match message {
        MessageView::ChangeKeySequence(keys) => MessageIdentity::ChangeKeySequence(keys),
        MessageView::Error(text) => MessageIdentity::Error(text),
        MessageView::Keymap(message) => MessageIdentity::Keymap(message),
        MessageView::NavigateToPath(path) => MessageIdentity::NavigateToPath(
            path_components(path),
        ),
        MessageView::PathEnumerationContentChanged(path, entries) => {
            MessageIdentity::PathEnumerationContentChanged(path_components(path), entries)
        },
        MessageView::PathEnumerationFinished(path) => MessageIdentity::PathEnumerationFinished(
            path_components(path),
        ),
        MessageView::PathRemoved(path) => MessageIdentity::PathRemoved(path_components(path)),
        MessageView::PathsAdded(paths) => MessageIdentity::PathsAdded(paths_identity(paths)),
        MessageView::PathsWriteFinished(paths) => MessageIdentity::PathsWriteFinished(
            paths_identity(paths),
        ),
        MessageView::PreviewLoaded(path, lines) => MessageIdentity::PreviewLoaded(
            path_components(path),
            lines,
        ),
        MessageView::Resize(width, height) => MessageIdentity::Resize(width, height),
    }
}

/// The identities of `messages`.
pub open spec fn messages_identity(messages: Seq<MessageView>) -> Seq<MessageIdentity> {
    Seq::new(messages.len(), |i: int| message_identity(messages[i]))
}

/// Whether two lists hold the same paths in the same order.
pub fn same_paths(a: &Vec<String>, b: &Vec<String>) -> (same: bool)
    ensures
        same == (paths_identity(a.deep_view()) == paths_identity(b.deep_view())),
{
    if a.len() != b.len() {
        proof {
            assert(paths_identity(a.deep_view()).len() != paths_identity(b.deep_view()).len());
        }
        return false;
    }
    let mut i: usize = 0;
    while i < a.len()
        invariant
            i <= a.len(),
            a.len() == b.len(),
            forall|j: int| 0 <= j < i ==> same_path(a@[j]@, b@[j]@),
        decreases a.len() - i,
    {
        if !is_same_path(a[i].as_str(), b[i].as_str()) {
            proof {
                assert(paths_identity(a.deep_view())[i as int] != paths_identity(
                    b.deep_view(),
                )[i as int]);
            }
            return false;
        }
        i += 1;
    }
    proof {
        assert(paths_identity(a.deep_view()) =~= paths_identity(b.deep_view()));
    }
    true
}

impl Message {
    /// Whether two messages are the same: of the same variant, with the
    /// same payload, where a path counts by its components.
    pub fn same(&self, other: &Message) -> (same: bool)
        ensures
            same == (message_identity(self.deep_view()) == message_identity(other.deep_view())),
    {
        match (self, other) {
            (Message::ChangeKeySequence(a), Message::ChangeKeySequence(b)) => *a == *b,
            (Message::Error(a), Message::Error(b)) => *a == *b,
            (Message::Keymap(a), Message::Keymap(b)) => *a == *b,
            (Message::NavigateToPath(a), Message::NavigateToPath(b)) => is_same_path(
                a.as_str(),
                b.as_str(),
            ),
            (
                Message::PathEnumerationContentChanged(a, entries),
                Message::PathEnumerationContentChanged(b, others),
            ) => is_same_path(a.as_str(), b.as_str()) && same_entries(entries, others),
            (
                Message::PathEnumerationFinished(a),
                Message::PathEnumerationFinished(b),
            ) => is_same_path(a.as_str(), b.as_str()),
            (Message::PathRemoved(a), Message::PathRemoved(b)) => is_same_path(
                a.as_str(),
                b.as_str(),
            ),
            (Message::PathsAdded(a), Message::PathsAdded(b)) => same_paths(a, b),
            (Message::PathsWriteFinished(a), Message::PathsWriteFinished(b)) => same_paths(a, b),
            (Message::PreviewLoaded(a, lines), Message::PreviewLoaded(b, others)) => is_same_path(
                a.as_str(),
                b.as_str(),
            ) && same_strings(lines, others),
            (Message::Resize(w, h), Message::Resize(x, y)) => *w == *x && *h == *y,
            _ => false,
        }
    }
}

/// Whether two lists hold the same messages in the same order.
pub fn same_messages(a: &Vec<Message>, b: &Vec<Message>) -> (same: bool)
    ensures
        same == (messages_identity(a.deep_view()) == messages_identity(b.deep_view())),
{
    if a.len() != b.len() {
        proof {
            assert(messages_identity(a.deep_view()).len() != messages_identity(
                b.deep_view(),
            ).len());
        }
        return false;
    }
    let mut i: usize = 0;
    while i < a.len()
        invariant
            i <= a.len(),
            a.len() == b.len(),
            forall|j: int|
                0 <= j < i ==> message_identity(a@[j].deep_view()) == message_identity(
                    b@[j].deep_view(),
                ),
        decreases a.len() - i,
    {
        if !a[i].same(&b[i]) {
            proof {
                assert(messages_identity(a.deep_view())[i as int] != messages_identity(
                    b.deep_view(),
                )[i as int]);
            }
            return false;
        }
        i += 1;
    }
    proof {
        assert(messages_identity(a.deep_view()) =~= messages_identity(b.deep_view()));
    }
    true
}

} // verus!
