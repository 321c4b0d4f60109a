//! Setting, deleting and listing marks, and the signs that show them.
use vstd::prelude::*;
use vstd::string::StringExecFns;
use crate::action::{Action, ActionView};
use crate::model::buffer::{
    BufferLine, BufferView, Color, LineView, Sign, SignIdentifier, SignView, StylePartial,
};
use crate::model::mark::{marked_path, marks_path, with_mark, without_mark, Marks};
use crate::model::{Model, ModelView};
use crate::path::{
    file_name_of, is_same_path, join, parent_of, path_file_name, path_join, path_parent,
    same_as_some, same_path,
};
use crate::task::{Task, TaskView};

verus! {

/// The sign that shows that a line is marked.
pub open spec fn mark_sign() -> SignView {
    SignView {
        id: SignIdentifier::Mark,
        content: 'm',
        priority: 0,
        style: seq![StylePartial::Foreground(Color::LightMagenta)],
    }
}

/// The position of the first sign of a mark among `signs`.
pub open spec fn mark_sign_position(signs: Seq<SignView>) -> Option<int>
    decreases signs.len(),
{
    if signs.len() == 0 {
        None
    } else if signs[0].id == SignIdentifier::Mark {
        Some(0)
    } else {
        match mark_sign_position(signs.drop_first()) {
            Some(i) => Some(i + 1),
            None => None,
        }
    }
}

/// `mark_sign_position` finds the first sign of a mark.
pub proof fn lemma_mark_sign_position(signs: Seq<SignView>)
    ensures
        match mark_sign_position(signs) {
            Some(i) => 0 <= i < signs.len() && signs[i].id == SignIdentifier::Mark && forall|
                j: int,
            | 0 <= j < i ==> signs[j].id != SignIdentifier::Mark,
            None => forall|j: int| 0 <= j < signs.len() ==> signs[j].id != SignIdentifier::Mark,
        },
    decreases signs.len(),
{
    if signs.len() > 0 && signs[0].id != SignIdentifier::Mark {
        let rest = signs.drop_first();
        lemma_mark_sign_position(rest);
        match mark_sign_position(rest) {
            Some(i) => {
                assert forall|j: int| 0 <= j < i + 1 implies signs[j].id
                    != SignIdentifier::Mark by {
                    if j > 0 {
                        assert(rest[j - 1] == signs[j]);
                    }
                }
                assert(rest[i] == signs[i + 1]);
            },
            None => {
                assert forall|j: int| 0 <= j < signs.len() implies signs[j].id
                    != SignIdentifier::Mark by {
                    if j > 0 {
                        assert(rest[j - 1] == signs[j]);
                    }
                }
            },
        }
    }
}

/// The line with the sign of a mark: added at the end unless it has one.
pub open spec fn with_sign(line: LineView) -> LineView {
    match mark_sign_position(line.signs) {
        Some(_) => line,
        None => LineView { signs: line.signs.push(mark_sign()), ..line },
    }
}

/// The line without its first sign of a mark.
pub open spec fn without_sign(line: LineView) -> LineView {
    match mark_sign_position(line.signs) {
        Some(i) => LineView { signs: line.signs.remove(i), ..line },
        None => line,
    }
}

/// The lines with the sign of a mark taken from every line whose content
/// is `name`.
pub open spec fn unset_in(lines: Seq<LineView>, name: Seq<char>) -> Seq<LineView> {
    Seq::new(
        lines.len(),
        |i: int|
            if lines[i].content == name {
                without_sign(lines[i])
            } else {
                lines[i]
            },
    )
}

/// The model after the sign of a mark is taken from the line named `name`
/// in the first of the current buffer, the preview and the parent buffer
/// that shows the directory `parent`. Nothing changes where there is no such
/// buffer, or where `parent` or `name` is missing.
pub open spec fn unset_sign_at(
    model: ModelView,
    parent: Option<Seq<char>>,
    name: Option<Seq<char>>,
) -> ModelView {
    match (parent, name) {
        (Some(parent), Some(name)) => {
            if same_path(parent, model.current_path) {
                ModelView {
                    current: BufferView {
                        lines: unset_in(model.current.lines, name),
                        ..model.current
                    },
                    ..model
                }
            } else if same_path(parent, model.preview_path) {
                ModelView {
                    preview: BufferView {
                        lines: unset_in(model.preview.lines, name),
                        ..model.preview
                    },
                    ..model
                }
            } else if same_as_some(model.parent_path, parent) {
                ModelView {
                    parent: BufferView {
                        lines: unset_in(model.parent.lines, name),
                        ..model.parent
                    },
                    ..model
                }
            } else {
                model
            }
        },
        _ => model,
    }
}

/// The model after the sign of a mark is taken from the line that shows
/// `removed`: the line named like the last component of `removed`, in the
/// buffer that shows the directory above `removed`.
pub open spec fn unset_sign_in(model: ModelView, removed: Seq<char>) -> ModelView {
    unset_sign_at(model, path_parent(removed), path_file_name(removed))
}

/// The index of the line the cursor of the current buffer is on, if it is
/// on one.
pub open spec fn selected_line(model: ModelView) -> Option<int> {
    match model.current.cursor {
        Some(cursor) => if cursor.vertical_index < model.current.lines.len() {
            Some(cursor.vertical_index as int)
        } else {
            None
        },
        None => None,
    }
}

/// The path that the line under the cursor of the current buffer shows.
pub open spec fn selection(model: ModelView) -> Option<Seq<char>> {
    match selected_line(model) {
        Some(i) => Some(path_join(model.current_path, model.current.lines[i].content)),
        None => None,
    }
}

/// The model with the sign of a mark on the line under the cursor of the
/// current buffer.
pub open spec fn sign_selected(model: ModelView) -> ModelView {
    match selected_line(model) {
        Some(i) => ModelView {
            current: BufferView {
                lines: model.current.lines.update(i, with_sign(model.current.lines[i])),
                ..model.current
            },
            ..model
        },
        None => model,
    }
}

/// The model after `mark` is set to the selection: nothing changes without
/// a selection; else the mark stands for the selected path, the line that
/// showed the path it stood for before loses its sign, and the selected
/// line gets one.
pub open spec fn add_mark(model: ModelView, mark: char) -> ModelView {
    match selection(model) {
        Some(selected) => {
            let marked = ModelView { marks: with_mark(model.marks, mark, selected), ..model };
            let unset = match marked_path(model.marks, mark) {
                Some(replaced) => unset_sign_in(marked, replaced),
                None => marked,
            };
            sign_selected(unset)
        },
        None => model,
    }
}

/// The model after `marks` are deleted one by one, and those of them that
/// were set, in order.
pub open spec fn delete_marks(model: ModelView, marks: Seq<char>) -> (ModelView, Seq<char>)
    decreases marks.len(),
{
    if marks.len() == 0 {
        (model, Seq::empty())
    } else {
        let (before, deleted) = delete_marks(model, marks.drop_last());
        let mark = marks.last();
        match marked_path(before.marks, mark) {
            Some(path) => (
                unset_sign_in(
                    ModelView { marks: without_mark(before.marks, mark), ..before },
                    path,
                ),
                deleted.push(mark),
            ),
            None => (before, deleted),
        }
    }
}

/// The position of the first sign of a mark among `signs`.
fn find_mark_sign(signs: &Vec<Sign>) -> (found: Option<usize>)
    ensures
        match found {
            Some(i) => mark_sign_position(signs.deep_view()) == Some(i as int) && i < signs.len(),
            None => mark_sign_position(signs.deep_view()) is None,
        },
{
    let mut i: usize = 0;
    while i < signs.len()
        invariant
            i <= signs.len(),
            forall|j: int| 0 <= j < i ==> signs.deep_view()[j].id != SignIdentifier::Mark,
        decreases signs.len() - i,
    {
        if signs[i].id == SignIdentifier::Mark {
            proof {
                assert(signs.deep_view()[i as int].id == SignIdentifier::Mark);
                lemma_mark_sign_position(signs.deep_view());
            }
            return Some(i);
        }
        proof {
            assert(signs.deep_view()[i as int].id != SignIdentifier::Mark);
        }
        i += 1;
    }
    proof {
        lemma_mark_sign_position(signs.deep_view());
    }
    None
}

/// Gives `bl` the sign of a mark unless it has one.
fn set_sign(bl: &mut BufferLine)
    ensures
        final(bl).deep_view() == with_sign(old(bl).deep_view()),
{
    if find_mark_sign(&bl.signs).is_some() {
        return ;
    }
    let mut style: Vec<StylePartial> = Vec::new();
    style.push(StylePartial::Foreground(Color::LightMagenta));
    proof {
        assert(style@ =~= seq![StylePartial::Foreground(Color::LightMagenta)]);
    }
    bl.signs.push(Sign { id: SignIdentifier::Mark, content: 'm', priority: 0, style });
    proof {
        assert(bl.signs.deep_view() =~= old(bl).signs.deep_view().push(mark_sign()));
    }
}

/// Takes the first sign of a mark from `bl`.
fn remove_sign(bl: &mut BufferLine)
    ensures
        final(bl).deep_view() == without_sign(old(bl).deep_view()),
{
    match find_mark_sign(&bl.signs) {
        Some(position) => {
            let _ = bl.signs.remove(position);
            proof {
                assert(bl.signs.deep_view() =~= old(bl).signs.deep_view().remove(position as int));
            }
        },
        None => {},
    }
}

/// Takes the sign of a mark from every line of `lines` whose content is `name`.
fn unset_lines(lines: &mut Vec<BufferLine>, name: &String)
    ensures
        final(lines).deep_view() == unset_in(old(lines).deep_view(), name@),
{
    let mut i: usize = 0;
    while i < lines.len()
        invariant
            i <= lines.len(),
            lines.len() == old(lines).len(),
            forall|j: int|
                0 <= j < i ==> lines@[j].deep_view() == unset_in(old(lines).deep_view(), name@)[j],
            forall|j: int| i <= j < lines.len() ==> lines@[j] == old(lines)@[j],
        decreases lines.len() - i,
    {
        if lines[i].content == *name {
            remove_sign(&mut lines[i]);
        }
        i += 1;
    }
    proof {
        assert(lines.deep_view() =~= unset_in(old(lines).deep_view(), name@));
    }
}

/// Takes the sign of a mark from the line named `name` in the buffer that
/// shows the directory `parent`.
pub fn unset_sign_for(model: &mut Model, parent: Option<String>, name: Option<String>)
    ensures
        final(model).deep_view() == unset_sign_at(
            old(model).deep_view(),
            parent.deep_view(),
            name.deep_view(),
        ),
{
    let parent = match parent {
        Some(parent) => parent,
        None => {
            return ;
        },
    };
    let name = match name {
        Some(name) => name,
        None => {
            return ;
        },
    };
    if is_same_path(parent.as_str(), model.current.path.as_str()) {
        unset_lines(&mut model.current.buffer.lines, &name);
    } else if is_same_path(parent.as_str(), model.preview.path.as_str()) {
        unset_lines(&mut model.preview.buffer.lines, &name);
    } else {
        let shown = match &model.parent.path {
            Some(path) => is_same_path(parent.as_str(), path.as_str()),
            None => false,
        };
        if shown {
            unset_lines(&mut model.parent.buffer.lines, &name);
        }
    }
}

/// Takes the sign of a mark from the line that shows `removed`.
pub fn unset_sign(model: &mut Model, removed: &str)
    ensures
        final(model).deep_view() == unset_sign_in(old(model).deep_view(), removed@),
{
    let parent = parent_of(removed);
    let name = file_name_of(removed);
    unset_sign_for(model, parent, name);
}

/// Sets `char` to the path under the cursor of the current buffer.
pub fn add(model: &mut Model, char: char)
    ensures
        final(model).deep_view() == add_mark(old(model).deep_view(), char),
{
    let index = match model.current.buffer.cursor {
        Some(cursor) => {
            if cursor.vertical_index < model.current.buffer.lines.len() {
                cursor.vertical_index
            } else {
                return ;
            }
        },
        None => {
            return ;
        },
    };
    let selected = join(
        model.current.path.as_str(),
        model.current.buffer.lines[index].content.as_str(),
    );
    let removed = model.marks.insert(char, selected);
    match removed {
        Some(removed) => {
            unset_sign(model, removed.as_str());
        },
        None => {},
    }
    proof {
        assert(model.current.buffer.cursor == old(model).current.buffer.cursor);
        assert(model.current.buffer.lines.len() == old(model).current.buffer.lines.len());
    }
    let ghost before = model.current.buffer.lines.deep_view();
    set_sign(&mut model.current.buffer.lines[index]);
    proof {
        assert(model.current.buffer.lines.deep_view() =~= before.update(
            index as int,
            with_sign(before[index as int]),
        ));
    }
}

/// Deletes the marks in `marks`. Returns the task that makes the deletion
/// last, if any of them was set.
pub fn delete(model: &mut Model, marks: &Vec<char>) -> (actions: Option<Vec<Action>>)
    ensures
        final(model).deep_view() == delete_marks(old(model).deep_view(), marks@).0,
        actions.deep_view() == if delete_marks(old(model).deep_view(), marks@).1.len() == 0 {
            None
        } else {
            Some(
                seq![
                    ActionView::Task(
                        TaskView::DeleteMarks(delete_marks(old(model).deep_view(), marks@).1),
                    ),
                ],
            )
        },
{
    let mut persisted: Vec<char> = Vec::new();
    let mut i: usize = 0;
    proof {
        assert(marks@.take(0) =~= Seq::empty());
    }
    while i < marks.len()
        invariant
            i <= marks.len(),
            (model.deep_view(), persisted@) == delete_marks(
                old(model).deep_view(),
                marks@.take(i as int),
            ),
        decreases marks.len() - i,
    {
        proof {
            assert(marks@.take(i + 1).drop_last() =~= marks@.take(i as int));
        }
        let mark = marks[i];
        match model.marks.remove(mark) {
            Some(path) => {
                unset_sign(model, path.as_str());
                persisted.push(mark);
            },
            None => {},
        }
        i += 1;
    }
    proof {
        assert(marks@.take(i as int) =~= marks@);
    }
    if persisted.len() == 0 {
        None
    } else {
        let mut actions: Vec<Action> = Vec::new();
        let ghost deleted = persisted@;
        actions.push(Action::Task(Task::DeleteMarks(persisted)));
        proof {
            assert(actions.deep_view() =~= seq![ActionView::Task(TaskView::DeleteMarks(deleted))]);
        }
        Some(actions)
    }
}

/// Gives `bl` the sign of a mark if some mark stands for `path`.
pub fn set_sign_if_marked(marks: &Marks, bl: &mut BufferLine, path: &str)
    ensures
        final(bl).deep_view() == if marks_path(marks.deep_view(), path@) {
            with_sign(old(bl).deep_view())
        } else {
            old(bl).deep_view()
        },
{
    if !marks.marks(path) {
        return ;
    }
    set_sign(bl);
}

/// The line that lists `mark`: the mark, padded to four columns, a blank,
/// and the path.
pub open spec fn mark_line(mark: char, path: Seq<char>) -> Seq<char> {
    seq![mark, ' ', ' ', ' ', ' '] + path
}

/// Whether `a` comes before `b` in the order of the marks.
pub open spec fn comes_before(a: char, b: char) -> bool {
    (a as u32) < (b as u32)
}

/// `sorted` with `entry` put behind the last entry that does not come
/// after it.
pub open spec fn insert_sorted(sorted: Seq<(char, Seq<char>)>, entry: (char, Seq<char>)) -> Seq<
    (char, Seq<char>),
>
    decreases sorted.len(),
{
    if sorted.len() > 0 && comes_before(entry.0, sorted.last().0) {
        insert_sorted(sorted.drop_last(), entry).push(sorted.last())
    } else {
        sorted.push(entry)
    }
}

/// The entries in the order of their marks.
pub open spec fn sorted_marks(entries: Seq<(char, Seq<char>)>) -> Seq<(char, Seq<char>)>
    decreases entries.len(),
{
    if entries.len() == 0 {
        Seq::empty()
    } else {
        insert_sorted(sorted_marks(entries.drop_last()), entries.last())
    }
}

/// The listing of the marks: two lines of heading, then one line for each
/// mark, in the order of the marks.
pub open spec fn printed(entries: Seq<(char, Seq<char>)>) -> Seq<Seq<char>> {
    let sorted = sorted_marks(entries);
    seq![":marks"@, "Char Content"@] + Seq::new(
        sorted.len(),
        |i: int| mark_line(sorted[i].0, sorted[i].1),
    )
}

/// Whether the entries are in the order of their marks.
pub open spec fn in_order(entries: Seq<(char, Seq<char>)>) -> bool {
    forall|i: int, j: int|
        0 <= i < j < entries.len() ==> !comes_before(entries[j].0, entries[i].0)
}

/// Putting an entry into entries that are in order leaves them in order,
/// and adds that entry and no other.
pub proof fn lemma_insert_sorted(sorted: Seq<(char, Seq<char>)>, entry: (char, Seq<char>))
    requires
        in_order(sorted),
    ensures
        in_order(insert_sorted(sorted, entry)),
        insert_sorted(sorted, entry).to_multiset() == sorted.to_multiset().insert(entry),
        insert_sorted(sorted, entry).len() == sorted.len() + 1,
        forall|i: int|
            0 <= i < insert_sorted(sorted, entry).len() ==> insert_sorted(sorted, entry)[i]
                == entry || sorted.contains(#[trigger] insert_sorted(sorted, entry)[i]),
    decreases sorted.len(),
{
    broadcast use vstd::seq_lib::group_to_multiset_ensures;

    let result = insert_sorted(sorted, entry);
    if sorted.len() > 0 && comes_before(entry.0, sorted.last().0) {
        let front = sorted.drop_last();
        let last = sorted.last();
        assert forall|i: int, j: int| 0 <= i < j < front.len() implies !comes_before(
            front[j].0,
            front[i].0,
        ) by {
            assert(front[i] == sorted[i] && front[j] == sorted[j]);
        }
        lemma_insert_sorted(front, entry);
        let inner = insert_sorted(front, entry);
        assert(front.push(last) =~= sorted);
        assert forall|i: int| 0 <= i < result.len() implies result[i] == entry || sorted.contains(
            #[trigger] result[i],
        ) by {
            if i < inner.len() {
                assert(result[i] == inner[i]);
                if inner[i] != entry {
                    assert(front.contains(inner[i]));
                    let k = choose|k: int| 0 <= k < front.len() && front[k] == inner[i];
                    assert(sorted[k] == inner[i]);
                }
            } else {
                assert(result[i] == last);
                assert(sorted[sorted.len() - 1] == last);
            }
        }
        assert forall|i: int, j: int| 0 <= i < j < result.len() implies !comes_before(
            result[j].0,
            result[i].0,
        ) by {
            if j < inner.len() {
                assert(result[i] == inner[i] && result[j] == inner[j]);
            } else {
                assert(result[j] == last);
                assert(result[i] == inner[i]);
                if inner[i] != entry {
                    let k = choose|k: int| 0 <= k < front.len() && front[k] == inner[i];
                    assert(sorted[k] == inner[i]);
                    assert(k < sorted.len() - 1);
                }
            }
        }
    } else {
        assert forall|i: int| 0 <= i < result.len() implies result[i] == entry || sorted.contains(
            #[trigger] result[i],
        ) by {
            if i < sorted.len() {
                assert(result[i] == sorted[i]);
            }
        }
        assert forall|i: int, j: int| 0 <= i < j < result.len() implies !comes_before(
            result[j].0,
            result[i].0,
        ) by {
            if j < sorted.len() {
                assert(result[i] == sorted[i] && result[j] == sorted[j]);
            } else {
                assert(result[j] == entry);
                assert(result[i] == sorted[i]);
                if sorted.len() > 0 {
                    assert(!comes_before(sorted.last().0, sorted[i].0) || i == sorted.len() - 1);
                }
            }
        }
    }
}

/// The sorted entries are in the order of their marks, and they are the
/// entries: each as often as it occurs among them.
pub proof fn lemma_sorted_marks(entries: Seq<(char, Seq<char>)>)
    ensures
        in_order(sorted_marks(entries)),
        sorted_marks(entries).to_multiset() == entries.to_multiset(),
        sorted_marks(entries).len() == entries.len(),
    decreases entries.len(),
{
    broadcast use vstd::seq_lib::group_to_multiset_ensures;

    if entries.len() > 0 {
        lemma_sorted_marks(entries.drop_last());
        lemma_insert_sorted(sorted_marks(entries.drop_last()), entries.last());
        assert(entries.drop_last().push(entries.last()) =~= entries);
    }
}

/// Putting `entry` at `position` is what `insert_sorted` does, if every
/// entry from `position` on comes after `entry` and the one before does not.
proof fn lemma_insert_at(
    sorted: Seq<(char, Seq<char>)>,
    entry: (char, Seq<char>),
    position: int,
)
    requires
        0 <= position <= sorted.len(),
        forall|i: int| position <= i < sorted.len() ==> comes_before(entry.0, sorted[i].0),
        position > 0 ==> !comes_before(entry.0, sorted[position - 1].0),
    ensures
        insert_sorted(sorted, entry) == sorted.insert(position, entry),
    decreases sorted.len(),
{
    if position < sorted.len() {
        let front = sorted.drop_last();
        assert forall|i: int| position <= i < front.len() implies comes_before(
            entry.0,
            front[i].0,
        ) by {
            assert(front[i] == sorted[i]);
        }
        if position > 0 {
            assert(front[position - 1] == sorted[position - 1]);
        }
        lemma_insert_at(front, entry, position);
        assert(front.insert(position, entry).push(sorted.last()) =~= sorted.insert(
            position,
            entry,
        ));
    } else {
        assert(sorted.push(entry) =~= sorted.insert(position, entry));
    }
}

/// Calls `char::to_string`. The contract says what the documentation of
/// `ToString` for `char` says: the text is that one character.
#[verifier::external_body]
fn char_text(c: char) -> (text: String)
    ensures
        text@ == seq![c],
{
    c.to_string()
}

/// The line that lists `mark`.
fn format_mark(mark: char, path: &str) -> (line: String)
    ensures
        line@ == mark_line(mark, path@),
{
    let line = char_text(mark).concat("    ").concat(path);
    proof {
        reveal_strlit("    ");
        assert(line@ =~= mark_line(mark, path@));
    }
    line
}

/// Puts `entry` into `sorted`, behind the last entry that does not come
/// after it.
fn insert_entry(sorted: &mut Vec<(char, String)>, mark: char, path: String)
    ensures
        final(sorted).deep_view() == insert_sorted(old(sorted).deep_view(), (mark, path@)),
{
    let mut position: usize = sorted.len();
    while position > 0 && (mark as u32) < (sorted[position - 1].0 as u32)
        invariant
            position <= sorted.len(),
            forall|i: int|
                position <= i < sorted.len() ==> comes_before(mark, sorted.deep_view()[i].0),
        decreases position,
    {
        proof {
            assert(sorted.deep_view()[position - 1].0 == sorted@[position - 1].0);
        }
        position -= 1;
    }
    proof {
        if position > 0 {
            assert(sorted.deep_view()[position - 1].0 == sorted@[position - 1].0);
        }
        lemma_insert_at(sorted.deep_view(), (mark, path@), position as int);
    }
    sorted.insert(position, (mark, path));
    proof {
        assert(sorted.deep_view() =~= old(sorted).deep_view().insert(
            position as int,
            (mark, path@),
        ));
    }
}

/// The listing of the marks: two lines of heading, then one line for each
/// mark, in the order of the marks.
pub fn print(marks: &Marks) -> (contents: Vec<String>)
    ensures
        contents.deep_view() == printed(marks.deep_view()),
{
    let mut sorted: Vec<(char, String)> = Vec::new();
    let mut i: usize = 0;
    proof {
        assert(sorted.deep_view() =~= Seq::empty());
        assert(marks.deep_view().take(0) =~= Seq::empty());
    }
    let count = marks.len();
    while i < count
        invariant
            i <= count,
            count == marks.deep_view().len(),
            sorted.deep_view() == sorted_marks(marks.deep_view().take(i as int)),
        decreases count - i,
    {
        proof {
            assert(marks.deep_view().take(i + 1).drop_last() =~= marks.deep_view().take(i as int));
        }
        match marks.entry(i) {
            Some((mark, path)) => {
                insert_entry(&mut sorted, mark, path.clone());
            },
            None => {},
        }
        i += 1;
    }
    proof {
        assert(marks.deep_view().take(i as int) =~= marks.deep_view());
    }
    let mut contents: Vec<String> = Vec::new();
    contents.push(String::from_str(":marks"));
    contents.push(String::from_str("Char Content"));
    let mut k: usize = 0;
    while k < sorted.len()
        invariant
            k <= sorted.len(),
            contents.len() == k + 2,
            contents@[0]@ == ":marks"@,
            contents@[1]@ == "Char Content"@,
            forall|j: int|
                0 <= j < k ==> contents@[j + 2]@ == mark_line(
                    sorted.deep_view()[j].0,
                    sorted.deep_view()[j].1,
                ),
        decreases sorted.len() - k,
    {
        proof {
            assert(sorted.deep_view()[k as int] == (sorted@[k as int].0, sorted@[k as int].1@));
        }
        contents.push(format_mark(sorted[k].0, sorted[k].1.as_str()));
        k += 1;
    }
    proof {
        assert(contents.deep_view() =~= printed(marks.deep_view()));
    }
    contents
}

} // verus!
