//! What the status line says: where the cursor is among the lines of the
//! current buffer, and how many changes wait to be saved.
use vstd::prelude::*;
use vstd::string::StringExecFns;
use crate::model::buffer::Color;
use crate::model::{Model, ModelView};
use crate::update::current::{BufferChanged, BufferChangedView};

verus! {

/// A piece of text in one colour.
#[derive(Clone, Debug, PartialEq, Eq)]
pub struct Span {
    pub content: String,
    pub color: Color,
}

impl DeepView for Span {
    type V = (Seq<char>, Color);

    open spec fn deep_view(&self) -> (Seq<char>, Color) {
        (self.content@, self.color)
    }
}

/// The character of a decimal digit.
pub open spec fn digit_char(digit: nat) -> char {
    if digit == 0 {
        '0'
    } else if digit == 1 {
        '1'
    } else if digit == 2 {
        '2'
    } else if digit == 3 {
        '3'
    } else if digit == 4 {
        '4'
    } else if digit == 5 {
        '5'
    } else if digit == 6 {
        '6'
    } else if digit == 7 {
        '7'
    } else if digit == 8 {
        '8'
    } else {
        '9'
    }
}

/// The number in decimal digits.
pub open spec fn decimal(number: nat) -> Seq<char>
    decreases number,
{
    if number < 10 {
        seq![digit_char(number)]
    } else {
        decimal(number / 10).push(digit_char(number % 10))
    }
}

/// The text of a decimal digit.
fn digit_text(digit: usize) -> (text: &'static str)
    requires
        digit < 10,
    ensures
        text@ == seq![digit_char(digit as nat)],
{
    proof {
        reveal_strlit("0");
        reveal_strlit("1");
        reveal_strlit("2");
        reveal_strlit("3");
        reveal_strlit("4");
        reveal_strlit("5");
        reveal_strlit("6");
        reveal_strlit("7");
        reveal_strlit("8");
        reveal_strlit("9");
    }
    let text = if digit == 0 {
        "0"
    } else if digit == 1 {
        "1"
    } else if digit == 2 {
        "2"
    } else if digit == 3 {
        "3"
    } else if digit == 4 {
        "4"
    } else if digit == 5 {
        "5"
    } else if digit == 6 {
        "6"
    } else if digit == 7 {
        "7"
    } else if digit == 8 {
        "8"
    } else {
        "9"
    };
    proof {
        assert(text@ =~= seq![digit_char(digit as nat)]);
    }
    text
}

/// The number in decimal digits.
pub fn to_decimal(number: usize) -> (text: String)
    ensures
        text@ == decimal(number as nat),
    decreases number,
{
    if number < 10 {
        String::from_str(digit_text(number))
    } else {
        let text = to_decimal(number / 10).concat(digit_text(number % 10));
        proof {
            assert(text@ =~= decimal((number / 10) as nat).push(
                digit_char((number % 10) as nat),
            ));
        }
        text
    }
}

/// The kinds of change that the status line counts.
#[derive(Clone, Copy, Debug, PartialEq, Eq, Structural)]
pub enum ChangeKind {
    Added,
    Changed,
    Removed,
}

/// The kind of a change.
pub open spec fn kind_of(change: BufferChangedView) -> ChangeKind {
    match change {
        BufferChangedView::Content(_, _, _) => ChangeKind::Changed,
        BufferChangedView::LineAdded(_, _) => ChangeKind::Added,
        BufferChangedView::LineRemoved(_, _) => ChangeKind::Removed,
    }
}

/// How many of `changes` are of `kind`.
pub open spec fn count_of(changes: Seq<BufferChangedView>, kind: ChangeKind) -> nat
    decreases changes.len(),
{
    if changes.len() == 0 {
        0
    } else {
        count_of(changes.drop_last(), kind) + if kind_of(changes.last()) == kind {
            1nat
        } else {
            0nat
        }
    }
}

/// The span that counts changes of one kind: a sign, the count, a blank;
/// nothing for a count of zero.
pub open spec fn count_span(sign: char, count: nat, color: Color) -> Seq<(Seq<char>, Color)> {
    if count > 0 {
        seq![(seq![sign] + decimal(count) + seq![' '], color)]
    } else {
        Seq::empty()
    }
}

/// What the status line says of the changes: how many lines were added, in
/// green, how many changed, in yellow, how many removed, in red.
pub open spec fn changes_content(changes: Seq<BufferChangedView>) -> Seq<(Seq<char>, Color)> {
    count_span('+', count_of(changes, ChangeKind::Added), Color::Green) + count_span(
        '~',
        count_of(changes, ChangeKind::Changed),
        Color::Yellow,
    ) + count_span('-', count_of(changes, ChangeKind::Removed), Color::Red)
}

/// The position that the status line shows for the cursor: the number of
/// its line, counted from one, or zero in a buffer without lines.
pub open spec fn shown_position(model: ModelView) -> Option<nat> {
    match model.current.cursor {
        Some(cursor) => if model.current.lines.len() == 0 {
            Some(0nat)
        } else {
            Some((cursor.vertical_index + 1) as nat)
        },
        None => None,
    }
}

/// What the status line says of the position: the position and a slash, if
/// there is a cursor, then the number of lines.
pub open spec fn position_content(model: ModelView) -> Seq<(Seq<char>, Color)> {
    let count = (decimal(model.current.lines.len()), Color::Gray);
    match shown_position(model) {
        Some(position) => seq![(decimal(position) + seq!['/'], Color::Gray), count],
        None => seq![count],
    }
}

/// The counts of the changes of each kind: added, changed, removed.
pub fn count_changes(changes: &Vec<BufferChanged>) -> (counts: (usize, usize, usize))
    ensures
        counts.0 == count_of(changes.deep_view(), ChangeKind::Added),
        counts.1 == count_of(changes.deep_view(), ChangeKind::Changed),
        counts.2 == count_of(changes.deep_view(), ChangeKind::Removed),
{
    let mut added: usize = 0;
    let mut changed: usize = 0;
    let mut removed: usize = 0;
    let mut i: usize = 0;
    proof {
        assert(changes.deep_view().take(0) =~= Seq::empty());
    }
    while i < changes.len()
        invariant
            i <= changes.len(),
            added + changed + removed == i,
            added == count_of(changes.deep_view().take(i as int), ChangeKind::Added),
            changed == count_of(changes.deep_view().take(i as int), ChangeKind::Changed),
            removed == count_of(changes.deep_view().take(i as int), ChangeKind::Removed),
        decreases changes.len() - i,
    {
        proof {
            let upto = changes.deep_view().take(i + 1);
            assert(upto.drop_last() =~= changes.deep_view().take(i as int));
            assert(upto.last() == changes@[i as int].deep_view());
        }
        match &changes[i] {
            BufferChanged::Content(_, _, _) => {
                changed += 1;
            },
            BufferChanged::LineAdded(_, _) => {
                added += 1;
            },
            BufferChanged::LineRemoved(_, _) => {
                removed += 1;
            },
        }
        i += 1;
    }
    proof {
        assert(changes.deep_view().take(i as int) =~= changes.deep_view());
    }
    (added, changed, removed)
}

/// Appends the span that counts changes of one kind, whose sign is the
/// one character of `sign`.
fn push_count(spans: &mut Vec<Span>, sign: &str, count: usize, color: Color)
    requires
        sign@.len() == 1,
    ensures
        final(spans).deep_view() == old(spans).deep_view() + count_span(
            sign@[0],
            count as nat,
            color,
        ),
{
    if count > 0 {
        let content = String::from_str(sign).concat(to_decimal(count).as_str()).concat(" ");
        proof {
            reveal_strlit(" ");
            assert(" "@ =~= seq![' ']);
            assert(sign@ =~= seq![sign@[0]]);
        }
        spans.push(Span { content, color });
    }
    proof {
        assert(spans.deep_view() =~= old(spans).deep_view() + count_span(
            sign@[0],
            count as nat,
            color,
        ));
    }
}

/// What the status line says of changes that wait to be saved.
pub fn get_changes_content(changes: &Vec<BufferChanged>) -> (spans: Vec<Span>)
    ensures
        spans.deep_view() == changes_content(changes.deep_view()),
{
    let (added, changed, removed) = count_changes(changes);
    let mut spans: Vec<Span> = Vec::new();
    proof {
        reveal_strlit("+");
        reveal_strlit("~");
        reveal_strlit("-");
        assert(spans.deep_view() =~= Seq::empty());
    }
    push_count(&mut spans, "+", added, Color::Green);
    push_count(&mut spans, "~", changed, Color::Yellow);
    push_count(&mut spans, "-", removed, Color::Red);
    proof {
        assert(spans.deep_view() =~= changes_content(changes.deep_view()));
    }
    spans
}

/// Whether the number of the cursor's line fits the machine.
pub open spec fn position_fits(model: ModelView) -> bool {
    model.current.cursor is Some ==> model.current.cursor.unwrap().vertical_index < usize::MAX
}

/// What the status line says of the position of the cursor.
pub fn get_position_content(model: &Model) -> (spans: Vec<Span>)
    requires
        position_fits(model.deep_view()),
    ensures
        spans.deep_view() == position_content(model.deep_view()),
{
    let count = model.current.buffer.lines.len();
    let mut spans: Vec<Span> = Vec::new();
    match model.current.buffer.cursor {
        Some(cursor) => {
            let position = if count == 0 {
                0
            } else {
                cursor.vertical_index + 1
            };
            let content = to_decimal(position).concat("/");
            proof {
                reveal_strlit("/");
                assert("/"@ =~= seq!['/']);
            }
            spans.push(Span { content, color: Color::Gray });
        },
        None => {},
    }
    spans.push(Span { content: to_decimal(count), color: Color::Gray });
    proof {
        assert(spans.deep_view() =~= position_content(model.deep_view()));
    }
    spans
}

} // verus!
