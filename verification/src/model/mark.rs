//! Marks: single characters under which paths are remembered.
use vstd::prelude::*;
use crate::path::{is_same_path, same_path};

verus! {

/// The position of the entry for `mark` in `entries`, if there is one.
pub open spec fn mark_position(entries: Seq<(char, Seq<char>)>, mark: char) -> Option<int>
    decreases entries.len(),
{
    if entries.len() == 0 {
        None
    } else if entries[0].0 == mark {
        Some(0)
    } else {
        match mark_position(entries.drop_first(), mark) {
            Some(i) => Some(i + 1),
            None => None,
        }
    }
}

/// `mark_position` finds the first entry for the mark.
pub proof fn lemma_mark_position(entries: Seq<(char, Seq<char>)>, mark: char)
    ensures
        match mark_position(entries, mark) {
            Some(i) => 0 <= i < entries.len() && entries[i].0 == mark && forall|j: int|
                0 <= j < i ==> entries[j].0 != mark,
            None => forall|j: int| 0 <= j < entries.len() ==> entries[j].0 != mark,
        },
    decreases entries.len(),
{
    if entries.len() > 0 && entries[0].0 != mark {
        let rest = entries.drop_first();
        lemma_mark_position(rest, mark);
        match mark_position(rest, mark) {
            Some(i) => {
                assert forall|j: int| 0 <= j < i + 1 implies entries[j].0 != mark by {
                    if j > 0 {
                        assert(rest[j - 1] == entries[j]);
                    }
                }
                assert(rest[i] == entries[i + 1]);
            },
            None => {
                assert forall|j: int| 0 <= j < entries.len() implies entries[j].0 != mark by {
                    if j > 0 {
                        assert(rest[j - 1] == entries[j]);
                    }
                }
            },
        }
    }
}

/// Whether some mark in `entries` stands for `path`: for a text that is
/// the same path.
pub open spec fn marks_path(entries: Seq<(char, Seq<char>)>, path: Seq<char>) -> bool {
    exists|i: int| 0 <= i < entries.len() && same_path((#[trigger] entries[i]).1, path)
}

/// No mark has two entries.
pub open spec fn distinct_marks(entries: Seq<(char, Seq<char>)>) -> bool {
    forall|i: int, j: int| 0 <= i < j < entries.len() ==> entries[i].0 != entries[j].0
}

/// The entries after `mark` is set to `path`: its entry is replaced where it
/// has one, and added at the end where it has none.
pub open spec fn with_mark(entries: Seq<(char, Seq<char>)>, mark: char, path: Seq<char>) -> Seq<
    (char, Seq<char>),
> {
    match mark_position(entries, mark) {
        Some(i) => entries.update(i, (mark, path)),
        None => entries.push((mark, path)),
    }
}

/// The entries after `mark` is removed.
pub open spec fn without_mark(entries: Seq<(char, Seq<char>)>, mark: char) -> Seq<
    (char, Seq<char>),
> {
    match mark_position(entries, mark) {
        Some(i) => entries.remove(i),
        None => entries,
    }
}

/// The path that `mark` stands for.
pub open spec fn marked_path(entries: Seq<(char, Seq<char>)>, mark: char) -> Option<Seq<char>> {
    match mark_position(entries, mark) {
        Some(i) => Some(entries[i].1),
        None => None,
    }
}

/// The marks, each with the path it stands for, in the order in which the
/// marks were first set.
#[derive(Debug, PartialEq, Eq)]
pub struct Marks {
    entries: Vec<(char, String)>,
}

impl DeepView for Marks {
    type V = Seq<(char, Seq<char>)>;

    closed spec fn deep_view(&self) -> Seq<(char, Seq<char>)> {
        self.entries.deep_view()
    }
}

impl Default for Marks {
    /// No marks.
    fn default() -> (marks: Marks)
        ensures
            marks.deep_view() == Seq::<(char, Seq<char>)>::empty(),
    {
        let marks = Marks { entries: Vec::new() };
        proof {
            assert(marks.deep_view() =~= Seq::<(char, Seq<char>)>::empty());
        }
        marks
    }
}

impl Marks {
    #[verifier::type_invariant]
    spec fn well_formed(&self) -> bool {
        distinct_marks(self.entries.deep_view())
    }

    /// The position of the entry for `mark`.
    fn position(&self, mark: char) -> (found: Option<usize>)
        ensures
            match found {
                Some(i) => mark_position(self.deep_view(), mark) == Some(i as int) && i
                    < self.entries.len(),
                None => mark_position(self.deep_view(), mark) is None,
            },
    {
        let mut i: usize = 0;
        while i < self.entries.len()
            invariant
                i <= self.entries.len(),
                forall|j: int| 0 <= j < i ==> self.entries.deep_view()[j].0 != mark,
            decreases self.entries.len() - i,
        {
            if self.entries[i].0 == mark {
                proof {
                    assert(self.entries.deep_view()[i as int].0 == mark);
                    lemma_mark_position(self.deep_view(), mark);
                }
                return Some(i);
            }
            proof {
                assert(self.entries.deep_view()[i as int].0 != mark);
            }
            i += 1;
        }
        proof {
            lemma_mark_position(self.deep_view(), mark);
        }
        None
    }

    /// The number of marks.
    pub fn len(&self) -> (count: usize)
        ensures
            count == self.deep_view().len(),
    {
        self.entries.len()
    }

    /// The mark at `index`, in the order in which the marks were first set,
    /// and the path it stands for; `None` at and past the number of marks.
    pub fn entry(&self, index: usize) -> (entry: Option<(char, &String)>)
        ensures
            index >= self.deep_view().len() ==> entry is None,
            index < self.deep_view().len() ==> entry is Some && entry.unwrap().0
                == self.deep_view()[index as int].0 && entry.unwrap().1@
                == self.deep_view()[index as int].1,
    {
        if index < self.entries.len() {
            proof {
                assert(self.entries.deep_view()[index as int] == (
                    self.entries@[index as int].0,
                    self.entries@[index as int].1@,
                ));
            }
            Some((self.entries[index].0, &self.entries[index].1))
        } else {
            None
        }
    }

    /// The path that `mark` stands for.
    pub fn get(&self, mark: char) -> (path: Option<&String>)
        ensures
            path.deep_view() == marked_path(self.deep_view(), mark),
    {
        match self.position(mark) {
            Some(i) => {
                proof {
                    assert(self.entries.deep_view()[i as int].1 == self.entries@[i as int].1@);
                }
                Some(&self.entries[i].1)
            },
            None => None,
        }
    }

    /// Sets `mark` to `path` and returns the path it stood for before.
    pub fn insert(&mut self, mark: char, path: String) -> (replaced: Option<String>)
        ensures
            final(self).deep_view() == with_mark(old(self).deep_view(), mark, path@),
            replaced.deep_view() == marked_path(old(self).deep_view(), mark),
            distinct_marks(final(self).deep_view()),
    {
        proof {
            use_type_invariant(&*self);
            lemma_mark_position(self.deep_view(), mark);
        }
        let found = self.position(mark);
        let mut entries: Vec<(char, String)> = Vec::new();
        proof {
            assert(entries.deep_view() =~= Seq::empty());
        }
        std::mem::swap(&mut self.entries, &mut entries);
        let ghost before = entries.deep_view();
        let ghost added = path@;
        let replaced = match found {
            Some(i) => {
                let mut path = path;
                std::mem::swap(&mut entries[i].1, &mut path);
                proof {
                    assert(entries.deep_view() =~= before.update(i as int, (mark, added)));
                    assert(path@ == before[i as int].1);
                    assert forall|a: int, b: int|
                        0 <= a < b < entries.deep_view().len() implies entries.deep_view()[a].0
                        != entries.deep_view()[b].0 by {
                        assert(entries.deep_view()[a].0 == before[a].0);
                        assert(entries.deep_view()[b].0 == before[b].0);
                    }
                }
                Some(path)
            },
            None => {
                entries.push((mark, path));
                proof {
                    assert(entries.deep_view() =~= before.push((mark, added)));
                }
                None
            },
        };
        std::mem::swap(&mut self.entries, &mut entries);
        replaced
    }

    /// Removes `mark` and returns the path it stood for.
    pub fn remove(&mut self, mark: char) -> (removed: Option<String>)
        ensures
            final(self).deep_view() == without_mark(old(self).deep_view(), mark),
            removed.deep_view() == marked_path(old(self).deep_view(), mark),
            distinct_marks(final(self).deep_view()),
    {
        proof {
            use_type_invariant(&*self);
            lemma_mark_position(self.deep_view(), mark);
        }
        let found = self.position(mark);
        let mut entries: Vec<(char, String)> = Vec::new();
        proof {
            assert(entries.deep_view() =~= Seq::empty());
        }
        std::mem::swap(&mut self.entries, &mut entries);
        let ghost before = entries.deep_view();
        let removed = match found {
            Some(i) => {
                let entry = entries.remove(i);
                proof {
                    assert(entries.deep_view() =~= before.remove(i as int));
                    assert(entry.1@ == before[i as int].1);
                    assert forall|a: int, b: int|
                        0 <= a < b < entries.deep_view().len() implies entries.deep_view()[a].0
                        != entries.deep_view()[b].0 by {
                        let from_a = if a < i { a } else { a + 1 };
                        let from_b = if b < i { b } else { b + 1 };
                        assert(entries.deep_view()[a] == before[from_a]);
                        assert(entries.deep_view()[b] == before[from_b]);
                    }
                }
                Some(entry.1)
            },
            None => None,
        };
        std::mem::swap(&mut self.entries, &mut entries);
        removed
    }

    /// Whether some mark stands for `path`.
    pub fn marks(&self, path: &str) -> (marked: bool)
        ensures
            marked == marks_path(self.deep_view(), path@),
    {
        let mut i: usize = 0;
        while i < self.entries.len()
            invariant
                i <= self.entries.len(),
                forall|j: int| 0 <= j < i ==> !same_path(self.entries.deep_view()[j].1, path@),
            decreases self.entries.len() - i,
        {
            proof {
                assert(self.entries.deep_view()[i as int].1 == self.entries@[i as int].1@);
            }
            if is_same_path(self.entries[i].1.as_str(), path) {
                return true;
            }
            i += 1;
        }
        false
    }
}

/// Whether two texts are the same.
pub fn same_text(a: &str, b: &str) -> (same: bool)
    ensures
        same == (a@ == b@),
{
    let length = a.unicode_len();
    if length != b.unicode_len() {
        return false;
    }
    let mut i: usize = 0;
    while i < length
        invariant
            i <= length,
            length == a@.len(),
            length == b@.len(),
            forall|j: int| 0 <= j < i ==> a@[j] == b@[j],
        decreases length - i,
    {
        if a.get_char(i) != b.get_char(i) {
            return false;
        }
        i += 1;
    }
    proof {
        assert(a@ =~= b@);
    }
    true
}

/// Whether the line of a marks file is the line of one of `marks`: whether
/// it begins with one of them.
pub open spec fn line_of_marks(line: Seq<char>, marks: Seq<char>) -> bool {
    line.len() > 0 && marks.contains(line[0])
}

/// The first `count` of `lines` without the lines of `marks`.
pub open spec fn lines_without(lines: Seq<Seq<char>>, marks: Seq<char>, count: nat) -> Seq<
    Seq<char>,
>
    decreases count,
{
    if count == 0 || count > lines.len() {
        Seq::empty()
    } else {
        let before = lines_without(lines, marks, (count - 1) as nat);
        if line_of_marks(lines[count - 1], marks) {
            before
        } else {
            before.push(lines[count - 1])
        }
    }
}

/// Whether `mark` is among `marks`.
fn is_among(marks: &Vec<char>, mark: char) -> (found: bool)
    ensures
        found == marks@.contains(mark),
{
    let mut i: usize = 0;
    while i < marks.len()
        invariant
            i <= marks.len(),
            forall|j: int| 0 <= j < i ==> marks@[j] != mark,
        decreases marks.len() - i,
    {
        if marks[i] == mark {
            return true;
        }
        i += 1;
    }
    false
}

/// The lines of a marks file that are left when `marks` are deleted: those
/// that do not begin with one of them.
pub fn retain_unmarked(lines: Vec<String>, marks: &Vec<char>) -> (kept: Vec<String>)
    ensures
        kept.deep_view() == lines_without(lines.deep_view(), marks@, lines.deep_view().len()),
{
    let mut kept: Vec<String> = Vec::new();
    let mut i: usize = 0;
    proof {
        assert(kept.deep_view() =~= Seq::empty());
    }
    while i < lines.len()
        invariant
            i <= lines.len(),
            kept.deep_view() == lines_without(lines.deep_view(), marks@, i as nat),
        decreases lines.len() - i,
    {
        let line = lines[i].as_str();
        let ghost before = kept.deep_view();
        proof {
            assert(lines.deep_view()[i as int] == line@);
        }
        let deleted = line.unicode_len() > 0 && is_among(marks, line.get_char(0));
        if !deleted {
            kept.push(lines[i].clone());
            proof {
                assert(kept.deep_view() =~= before.push(line@));
            }
        }
        i += 1;
    }
    kept
}

} // verus!
