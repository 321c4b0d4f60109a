//! Previews: which files get one, and what it holds.
//!
//! Before a file is read for its preview, its first bytes are looked at.
//! Only a file whose content is text, or whose kind of content is not
//! known, is shown; for any other file there is no preview, and no error.
use vstd::prelude::*;
use crate::message::{Message, MessageView};

verus! {

/// The number of bytes at the beginning of a file that are looked at to
/// tell what kind of content it has.
pub const HEAD_SIZE: usize = 8192;

/// The MIME type that `infer::get` finds in the first bytes of a file;
/// `None` where it knows none.
pub uninterp spec fn detected_mime(head: Seq<u8>) -> Option<Seq<char>>;

/// The position of the first line feed in `text`, if it has one.
pub open spec fn first_line_feed(text: Seq<char>) -> Option<int>
    decreases text.len(),
{
    if text.len() == 0 {
        None
    } else if text[0] == '\n' {
        Some(0)
    } else {
        match first_line_feed(text.drop_first()) {
            Some(i) => Some(i + 1),
            None => None,
        }
    }
}

/// The line without the carriage return at its end, if it has one there.
pub open spec fn without_carriage_return(line: Seq<char>) -> Seq<char> {
    if line.len() > 0 && line.last() == '\r' {
        line.drop_last()
    } else {
        line
    }
}

/// The lines of a text. A line ends at a line feed, or at a carriage return
/// that a line feed follows; what ends a line is not part of it. What
/// follows the last line feed is a line too, unless it is empty.
pub open spec fn text_lines(content: Seq<char>) -> Seq<Seq<char>>
    decreases content.len(),
{
    if content.len() == 0 {
        Seq::empty()
    } else {
        match first_line_feed(content) {
            Some(i) => if 0 <= i < content.len() {
                seq![without_carriage_return(content.take(i))] + text_lines(content.skip(i + 1))
            } else {
                seq![content]
            },
            None => seq![content],
        }
    }
}

/// Calls `infer::get` and takes the MIME type of what it finds. The
/// contract names the result and claims nothing else of it. The head is
/// no longer than what `infer` itself reads of a file: one of its matchers
/// goes deeper with every frame it skips, so that nothing bounds its depth
/// on a longer head.
#[verifier::external_body]
fn detect_mime(head: &Vec<u8>) -> (mime: Option<String>)
    requires
        head@.len() <= HEAD_SIZE,
    ensures
        mime.deep_view() == detected_mime(head@),
{
    match infer::get(head.as_slice()) {
        Some(kind) => Some(kind.mime_type().to_string()),
        None => None,
    }
}

/// Calls `str::lines`. The contract says what the documentation of
/// `str::lines` says: the text is split at each line feed, a carriage
/// return before a line feed goes with it, and an empty rest after the last
/// line feed is no line.
#[verifier::external_body]
fn lines_of(content: &str) -> (lines: Vec<String>)
    ensures
        lines.deep_view() == text_lines(content@),
{
    content.lines().map(|line| line.to_string()).collect()
}

/// Whether the MIME type is one of text: whether it starts with `text`.
pub open spec fn is_text(mime: Seq<char>) -> bool {
    mime.len() >= 4 && mime[0] == 't' && mime[1] == 'e' && mime[2] == 'x' && mime[3] == 't'
}

/// Whether a file of this MIME type gets a preview: one of text does, and
/// so does one whose type is not known.
pub open spec fn previewable(mime: Option<Seq<char>>) -> bool {
    match mime {
        Some(mime) => is_text(mime),
        None => true,
    }
}

/// Whether a file of this MIME type gets a preview.
pub fn should_preview(mime: &Option<String>) -> (preview: bool)
    ensures
        preview == previewable(mime.deep_view()),
{
    match mime {
        Some(mime) => {
            let text = mime.as_str();
            text.unicode_len() >= 4 && text.get_char(0) == 't' && text.get_char(1) == 'e'
                && text.get_char(2) == 'x' && text.get_char(3) == 't'
        },
        None => true,
    }
}

/// Whether the file that begins with `head` gets a preview. `head` holds
/// at most the first `HEAD_SIZE` bytes of the file.
pub fn previews(head: &Vec<u8>) -> (preview: bool)
    requires
        head@.len() <= HEAD_SIZE,
    ensures
        preview == previewable(detected_mime(head@)),
{
    let mime = detect_mime(head);
    should_preview(&mime)
}

/// The message that carries the preview of the file at `path`, whose
/// lines are `lines`.
pub fn preview_of(path: String, lines: Vec<String>) -> (messages: Vec<Message>)
    ensures
        messages.deep_view() == seq![MessageView::PreviewLoaded(path@, lines.deep_view())],
{
    let mut messages: Vec<Message> = Vec::new();
    messages.push(Message::PreviewLoaded(path, lines));
    proof {
        assert(messages.deep_view() =~= seq![
            MessageView::PreviewLoaded(path@, lines.deep_view()),
        ]);
    }
    messages
}

/// The message that carries the preview of the file at `path`, whose
/// content is `content`.
pub fn preview_loaded(path: String, content: &str) -> (messages: Vec<Message>)
    ensures
        messages.deep_view() == seq![MessageView::PreviewLoaded(path@, text_lines(content@))],
{
    preview_of(path, lines_of(content))
}

} // verus!
