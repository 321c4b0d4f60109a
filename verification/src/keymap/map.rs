//! The key map: for each mode, the list of mappings from which its binding
//! table is built.
use vstd::prelude::*;
use crate::keymap::key::{Key, KeyCode};
use crate::keymap::message::{
    Binding, CursorDirection, KeymapMessage, Mode, NewLineDirection, TextModification,
    ViewPortDirection,
};
use crate::keymap::tree::{table_with, KeyTree};

verus! {

/// A list of mappings as plain values.
pub open spec fn mappings_view(list: Seq<(Vec<Key>, Binding)>) -> Seq<(Seq<Key>, Binding)> {
    Seq::new(list.len(), |i: int| (list[i].0@, list[i].1))
}

/// The table that results from adding `mappings` to `base` in order. A
/// mapping whose keys are empty or bound already is passed over, so of two
/// mappings with the same keys the first one stands.
pub open spec fn table_onto(
    base: Map<Seq<Key>, Binding>,
    mappings: Seq<(Seq<Key>, Binding)>,
) -> Map<Seq<Key>, Binding>
    decreases mappings.len(),
{
    if mappings.len() == 0 {
        base
    } else {
        table_with(table_onto(base, mappings.drop_last()), mappings.last().0, mappings.last().1)
    }
}

/// The table that `mappings` describe.
pub open spec fn table_of(mappings: Seq<(Seq<Key>, Binding)>) -> Map<Seq<Key>, Binding> {
    table_onto(Map::empty(), mappings)
}

/// Whether the mapping at `i` is one the table takes: its keys are not
/// empty, and no mapping before it has the same keys.
pub open spec fn takes(mappings: Seq<(Seq<Key>, Binding)>, i: int) -> bool {
    &&& 0 <= i < mappings.len()
    &&& mappings[i].0.len() > 0
    &&& forall|j: int| 0 <= j < i ==> mappings[j].0 != mappings[i].0
}

/// The table that mappings describe binds exactly the keys of the mappings
/// it takes, each to the binding of that mapping.
pub proof fn lemma_table_of(mappings: Seq<(Seq<Key>, Binding)>)
    ensures
        forall|i: int|
            takes(mappings, i) ==> table_of(mappings).dom().contains(#[trigger] mappings[i].0)
                && table_of(mappings)[mappings[i].0] == mappings[i].1,
        forall|keys: Seq<Key>|
            table_of(mappings).dom().contains(keys) ==> exists|i: int|
                takes(mappings, i) && mappings[i].0 == keys,
    decreases mappings.len(),
{
    if mappings.len() > 0 {
        let earlier = mappings.drop_last();
        let last = mappings.len() - 1;
        lemma_table_of(earlier);
        let before = table_of(earlier);
        assert forall|i: int| takes(mappings, i) implies table_of(mappings).dom().contains(
            #[trigger] mappings[i].0,
        ) && table_of(mappings)[mappings[i].0] == mappings[i].1 by {
            if i < last {
                assert(earlier[i] == mappings[i]);
                assert forall|j: int| 0 <= j < i implies earlier[j].0 != earlier[i].0 by {
                    assert(earlier[j] == mappings[j]);
                }
                assert(takes(earlier, i));
                assert(before.dom().contains(mappings[i].0));
            } else {
                if before.dom().contains(mappings[last].0) {
                    let j = choose|j: int| takes(earlier, j) && earlier[j].0 == mappings[last].0;
                    assert(earlier[j] == mappings[j]);
                    assert(false);
                }
            }
        }
        assert forall|keys: Seq<Key>| table_of(mappings).dom().contains(keys) implies exists|
            i: int,
        | takes(mappings, i) && mappings[i].0 == keys by {
            if before.dom().contains(keys) {
                let i = choose|i: int| takes(earlier, i) && earlier[i].0 == keys;
                assert(earlier[i] == mappings[i]);
                assert forall|j: int| 0 <= j < i implies mappings[j].0 != mappings[i].0 by {
                    assert(earlier[j] == mappings[j]);
                }
                assert(takes(mappings, i));
            } else {
                assert(keys == mappings[last].0);
                assert forall|j: int| 0 <= j < last implies mappings[j].0
                    != mappings[last].0 by {
                    if mappings[j].0 == mappings[last].0 {
                        assert(earlier[j] == mappings[j]);
                        let first = lemma_first_with(earlier, j);
                        assert(takes(earlier, first));
                        assert(before.dom().contains(earlier[first].0));
                    }
                }
                assert(takes(mappings, last));
            }
        }
    }
}

/// The first position whose mapping has the keys of the mapping at `j`.
proof fn lemma_first_with(mappings: Seq<(Seq<Key>, Binding)>, j: int) -> (i: int)
    requires
        0 <= j < mappings.len(),
    ensures
        0 <= i <= j,
        mappings[i].0 == mappings[j].0,
        forall|k: int| 0 <= k < i ==> mappings[k].0 != mappings[j].0,
    decreases j,
{
    if exists|k: int| 0 <= k < j && mappings[k].0 == mappings[j].0 {
        let k = choose|k: int| 0 <= k < j && mappings[k].0 == mappings[j].0;
        lemma_first_with(mappings, k)
    } else {
        j
    }
}

/// For each mode, its mappings in the order in which they are added to the
/// binding table.
#[derive(Debug)]
pub struct KeyMap {
    command: Vec<(Vec<Key>, Binding)>,
    insert: Vec<(Vec<Key>, Binding)>,
    navigation: Vec<(Vec<Key>, Binding)>,
    normal: Vec<(Vec<Key>, Binding)>,
}

/// Adds the mappings of `list` to the table of `mode`, in order.
fn add_all(tree: &mut KeyTree, mode: Mode, list: &Vec<(Vec<Key>, Binding)>)
    ensures
        final(tree).bindings(mode) == table_onto(old(tree).bindings(mode), mappings_view(list@)),
        forall|other: Mode|
            other != mode ==> final(tree).bindings(other) == old(tree).bindings(other),
{
    let ghost view = mappings_view(list@);
    let mut i: usize = 0;
    proof {
        assert(view.take(0).len() == 0);
    }
    while i < list.len()
        invariant
            i <= list.len(),
            view == mappings_view(list@),
            tree.bindings(mode) == table_onto(old(tree).bindings(mode), view.take(i as int)),
            forall|other: Mode| other != mode ==> tree.bindings(other) == old(tree).bindings(other),
        decreases list.len() - i,
    {
        let keys = list[i].0.clone();
        let binding = list[i].1;
        proof {
            assert(keys@ =~= list[i as int].0@);
            assert(view.take(i + 1).drop_last() =~= view.take(i as int));
            assert(view.take(i + 1).last() == (keys@, binding));
        }
        let _ = tree.add_mapping(&mode, keys, binding);
        i += 1;
    }
    proof {
        assert(view.take(i as int) =~= view);
    }
}

impl KeyMap {
    /// The mappings of `mode`, in order.
    pub closed spec fn mappings(&self, mode: Mode) -> Seq<(Seq<Key>, Binding)> {
        match mode {
            Mode::Command => mappings_view(self.command@),
            Mode::Insert => mappings_view(self.insert@),
            Mode::Navigation => mappings_view(self.navigation@),
            Mode::Normal => mappings_view(self.normal@),
        }
    }

    /// The binding tables of this key map. Mappings that the tables refuse
    /// are passed over.
    pub fn into_tree(self) -> (tree: KeyTree)
        ensures
            forall|mode: Mode| tree.bindings(mode) == table_of(self.mappings(mode)),
    {
        let mut tree = KeyTree::default();
        add_all(&mut tree, Mode::Command, &self.command);
        add_all(&mut tree, Mode::Insert, &self.insert);
        add_all(&mut tree, Mode::Navigation, &self.navigation);
        add_all(&mut tree, Mode::Normal, &self.normal);
        tree
    }
}


/// The chord of one key.
fn chord(key: Key) -> (keys: Vec<Key>)
    ensures
        keys@ == seq![key],
{
    let mut keys = Vec::new();
    keys.push(key);
    proof {
        assert(keys@ =~= seq![key]);
    }
    keys
}

/// The chord of two keys.
fn chord_of_two(first: Key, second: Key) -> (keys: Vec<Key>)
    ensures
        keys@ == seq![first, second],
{
    let mut keys = Vec::new();
    keys.push(first);
    keys.push(second);
    proof {
        assert(keys@ =~= seq![first, second]);
    }
    keys
}

/// The default mappings of the command line.
pub open spec fn default_command_mappings() -> Seq<(Seq<Key>, Binding)> {
    seq![
        (
            seq![Key::plain(KeyCode::Backspace)],
            Binding::modification(TextModification::DeleteCharBeforeCursor),
        ),
        (seq![Key::plain(KeyCode::Enter)], Binding::Message(KeymapMessage::ExecuteCommand)),
        (seq![Key::plain(KeyCode::Esc)], Binding::Mode(Mode::Navigation)),
        (
            seq![Key::plain(KeyCode::Delete)],
            Binding::modification(TextModification::DeleteCharOnCursor),
        ),
        (seq![Key::plain(KeyCode::Left)], Binding::Motion(CursorDirection::Left)),
        (seq![Key::plain(KeyCode::Right)], Binding::Motion(CursorDirection::Right)),
    ]
}

/// The default mappings of the command line.
fn default_command() -> (list: Vec<(Vec<Key>, Binding)>)
    ensures
        mappings_view(list@) == default_command_mappings(),
{
    let mut list: Vec<(Vec<Key>, Binding)> = Vec::new();
    list.push(
        (
            chord(Key::plain(KeyCode::Backspace)),
            Binding::modification(TextModification::DeleteCharBeforeCursor),
        ),
    );
    list.push((chord(Key::plain(KeyCode::Enter)), Binding::Message(KeymapMessage::ExecuteCommand)));
    list.push((chord(Key::plain(KeyCode::Esc)), Binding::Mode(Mode::Navigation)));
    list.push(
        (
            chord(Key::plain(KeyCode::Delete)),
            Binding::modification(TextModification::DeleteCharOnCursor),
        ),
    );
    list.push((chord(Key::plain(KeyCode::Left)), Binding::Motion(CursorDirection::Left)));
    list.push((chord(Key::plain(KeyCode::Right)), Binding::Motion(CursorDirection::Right)));
    proof {
        assert(mappings_view(list@) =~= default_command_mappings());
    }
    list
}

/// The default mappings of insert mode.
pub open spec fn default_insert_mappings() -> Seq<(Seq<Key>, Binding)> {
    seq![
        (
            seq![Key::plain(KeyCode::Backspace)],
            Binding::modification(TextModification::DeleteCharBeforeCursor),
        ),
        (seq![Key::plain(KeyCode::Enter)], Binding::Message(KeymapMessage::ExecuteCommand)),
        (seq![Key::plain(KeyCode::Esc)], Binding::Mode(Mode::Normal)),
        (
            seq![Key::plain(KeyCode::Delete)],
            Binding::modification(TextModification::DeleteCharOnCursor),
        ),
        (seq![Key::plain(KeyCode::Left)], Binding::Motion(CursorDirection::Left)),
        (seq![Key::plain(KeyCode::Right)], Binding::Motion(CursorDirection::Right)),
    ]
}

/// The default mappings of insert mode.
fn default_insert() -> (list: Vec<(Vec<Key>, Binding)>)
    ensures
        mappings_view(list@) == default_insert_mappings(),
{
    let mut list: Vec<(Vec<Key>, Binding)> = Vec::new();
    list.push(
        (
            chord(Key::plain(KeyCode::Backspace)),
            Binding::modification(TextModification::DeleteCharBeforeCursor),
        ),
    );
    list.push((chord(Key::plain(KeyCode::Enter)), Binding::Message(KeymapMessage::ExecuteCommand)));
    list.push((chord(Key::plain(KeyCode::Esc)), Binding::Mode(Mode::Normal)));
    list.push(
        (
            chord(Key::plain(KeyCode::Delete)),
            Binding::modification(TextModification::DeleteCharOnCursor),
        ),
    );
    list.push((chord(Key::plain(KeyCode::Left)), Binding::Motion(CursorDirection::Left)));
    list.push((chord(Key::plain(KeyCode::Right)), Binding::Motion(CursorDirection::Right)));
    proof {
        assert(mappings_view(list@) =~= default_insert_mappings());
    }
    list
}

/// The default mappings of navigation mode.
pub open spec fn default_navigation_mappings() -> Seq<(Seq<Key>, Binding)> {
    seq![
        (seq![Key::plain(KeyCode::Esc)], Binding::Mode(Mode::Navigation)),
        (seq![Key::print('0')], Binding::Repeat(0)),
        (seq![Key::print('1')], Binding::Repeat(1)),
        (seq![Key::print('2')], Binding::Repeat(2)),
        (seq![Key::print('3')], Binding::Repeat(3)),
        (seq![Key::print('4')], Binding::Repeat(4)),
        (seq![Key::print('5')], Binding::Repeat(5)),
        (seq![Key::print('6')], Binding::Repeat(6)),
        (seq![Key::print('7')], Binding::Repeat(7)),
        (seq![Key::print('8')], Binding::Repeat(8)),
        (seq![Key::print('9')], Binding::Repeat(9)),
        (seq![Key::print(':')], Binding::Mode(Mode::Command)),
        (seq![Key::print('d').with_ctrl()], Binding::scroll(ViewPortDirection::HalfPageDown)),
        (seq![Key::print('g').with_shift()], Binding::Motion(CursorDirection::Bottom)),
        (seq![Key::print('g'), Key::print('g')], Binding::Motion(CursorDirection::Top)),
        (seq![Key::print('h')], Binding::Message(KeymapMessage::SelectParent)),
        (seq![Key::print('l')], Binding::Message(KeymapMessage::SelectCurrent)),
        (seq![Key::print('j')], Binding::Motion(CursorDirection::Down)),
        (seq![Key::print('k')], Binding::Motion(CursorDirection::Up)),
        (seq![Key::print('n').with_ctrl()], Binding::Mode(Mode::Normal)),
        (seq![Key::print('u').with_ctrl()], Binding::scroll(ViewPortDirection::HalfPageUp)),
        (
            seq![Key::print('z'), Key::print('b')],
            Binding::scroll(ViewPortDirection::BottomOnCursor),
        ),
        (seq![Key::print('z'), Key::print('t')], Binding::scroll(ViewPortDirection::TopOnCursor)),
        (
            seq![Key::print('z'), Key::print('z')],
            Binding::scroll(ViewPortDirection::CenterOnCursor),
        ),
    ]
}

/// The default mappings of navigation mode.
fn default_navigation() -> (list: Vec<(Vec<Key>, Binding)>)
    ensures
        mappings_view(list@) == default_navigation_mappings(),
{
    let mut list: Vec<(Vec<Key>, Binding)> = Vec::new();
    list.push((chord(Key::plain(KeyCode::Esc)), Binding::Mode(Mode::Navigation)));
    list.push((chord(Key::print('0')), Binding::Repeat(0)));
    list.push((chord(Key::print('1')), Binding::Repeat(1)));
    list.push((chord(Key::print('2')), Binding::Repeat(2)));
    list.push((chord(Key::print('3')), Binding::Repeat(3)));
    list.push((chord(Key::print('4')), Binding::Repeat(4)));
    list.push((chord(Key::print('5')), Binding::Repeat(5)));
    list.push((chord(Key::print('6')), Binding::Repeat(6)));
    list.push((chord(Key::print('7')), Binding::Repeat(7)));
    list.push((chord(Key::print('8')), Binding::Repeat(8)));
    list.push((chord(Key::print('9')), Binding::Repeat(9)));
    list.push((chord(Key::print(':')), Binding::Mode(Mode::Command)));
    list.push(
        (chord(Key::print('d').with_ctrl()), Binding::scroll(ViewPortDirection::HalfPageDown)),
    );
    list.push((chord(Key::print('g').with_shift()), Binding::Motion(CursorDirection::Bottom)));
    list.push(
        (chord_of_two(Key::print('g'), Key::print('g')), Binding::Motion(CursorDirection::Top)),
    );
    list.push((chord(Key::print('h')), Binding::Message(KeymapMessage::SelectParent)));
    list.push((chord(Key::print('l')), Binding::Message(KeymapMessage::SelectCurrent)));
    list.push((chord(Key::print('j')), Binding::Motion(CursorDirection::Down)));
    list.push((chord(Key::print('k')), Binding::Motion(CursorDirection::Up)));
    list.push((chord(Key::print('n').with_ctrl()), Binding::Mode(Mode::Normal)));
    list.push((chord(Key::print('u').with_ctrl()), Binding::scroll(ViewPortDirection::HalfPageUp)));
    list.push(
        (
            chord_of_two(Key::print('z'), Key::print('b')),
            Binding::scroll(ViewPortDirection::BottomOnCursor),
        ),
    );
    list.push(
        (
            chord_of_two(Key::print('z'), Key::print('t')),
            Binding::scroll(ViewPortDirection::TopOnCursor),
        ),
    );
    list.push(
        (
            chord_of_two(Key::print('z'), Key::print('z')),
            Binding::scroll(ViewPortDirection::CenterOnCursor),
        ),
    );
    proof {
        assert(mappings_view(list@) =~= default_navigation_mappings());
    }
    list
}

/// The default mappings of normal mode.
pub open spec fn default_normal_mappings() -> Seq<(Seq<Key>, Binding)> {
    seq![
        (seq![Key::plain(KeyCode::Esc)], Binding::Mode(Mode::Navigation)),
        (seq![Key::print('0')], Binding::RepeatOrMotion(0, CursorDirection::LineStart)),
        (seq![Key::print('1')], Binding::Repeat(1)),
        (seq![Key::print('2')], Binding::Repeat(2)),
        (seq![Key::print('3')], Binding::Repeat(3)),
        (seq![Key::print('4')], Binding::Repeat(4)),
        (seq![Key::print('5')], Binding::Repeat(5)),
        (seq![Key::print('6')], Binding::Repeat(6)),
        (seq![Key::print('7')], Binding::Repeat(7)),
        (seq![Key::print('8')], Binding::Repeat(8)),
        (seq![Key::print('9')], Binding::Repeat(9)),
        (seq![Key::print(':')], Binding::Mode(Mode::Command)),
        (seq![Key::print('$')], Binding::Motion(CursorDirection::LineEnd)),
        (seq![Key::print('d').with_ctrl()], Binding::scroll(ViewPortDirection::HalfPageDown)),
        (
            seq![Key::print('d'), Key::print('d')],
            Binding::modification(TextModification::DeleteLineOnCursor),
        ),
        (seq![Key::print('g').with_shift()], Binding::Motion(CursorDirection::Bottom)),
        (seq![Key::print('g'), Key::print('g')], Binding::Motion(CursorDirection::Top)),
        (seq![Key::print('h')], Binding::Motion(CursorDirection::Left)),
        (seq![Key::print('j')], Binding::Motion(CursorDirection::Down)),
        (seq![Key::print('k')], Binding::Motion(CursorDirection::Up)),
        (seq![Key::print('l')], Binding::Motion(CursorDirection::Right)),
        (seq![Key::print('o')], Binding::open_line(NewLineDirection::Under)),
        (seq![Key::print('o').with_shift()], Binding::open_line(NewLineDirection::Above)),
        (seq![Key::print('u').with_ctrl()], Binding::scroll(ViewPortDirection::HalfPageUp)),
        (
            seq![Key::print('z'), Key::print('b')],
            Binding::scroll(ViewPortDirection::BottomOnCursor),
        ),
        (seq![Key::print('z'), Key::print('t')], Binding::scroll(ViewPortDirection::TopOnCursor)),
        (
            seq![Key::print('z'), Key::print('z')],
            Binding::scroll(ViewPortDirection::CenterOnCursor),
        ),
    ]
}

/// The default mappings of normal mode.
fn default_normal() -> (list: Vec<(Vec<Key>, Binding)>)
    ensures
        mappings_view(list@) == default_normal_mappings(),
{
    let mut list: Vec<(Vec<Key>, Binding)> = Vec::new();
    list.push((chord(Key::plain(KeyCode::Esc)), Binding::Mode(Mode::Navigation)));
    list.push((chord(Key::print('0')), Binding::RepeatOrMotion(0, CursorDirection::LineStart)));
    list.push((chord(Key::print('1')), Binding::Repeat(1)));
    list.push((chord(Key::print('2')), Binding::Repeat(2)));
    list.push((chord(Key::print('3')), Binding::Repeat(3)));
    list.push((chord(Key::print('4')), Binding::Repeat(4)));
    list.push((chord(Key::print('5')), Binding::Repeat(5)));
    list.push((chord(Key::print('6')), Binding::Repeat(6)));
    list.push((chord(Key::print('7')), Binding::Repeat(7)));
    list.push((chord(Key::print('8')), Binding::Repeat(8)));
    list.push((chord(Key::print('9')), Binding::Repeat(9)));
    list.push((chord(Key::print(':')), Binding::Mode(Mode::Command)));
    list.push((chord(Key::print('$')), Binding::Motion(CursorDirection::LineEnd)));
    list.push(
        (chord(Key::print('d').with_ctrl()), Binding::scroll(ViewPortDirection::HalfPageDown)),
    );
    list.push(
        (
            chord_of_two(Key::print('d'), Key::print('d')),
            Binding::modification(TextModification::DeleteLineOnCursor),
        ),
    );
    list.push((chord(Key::print('g').with_shift()), Binding::Motion(CursorDirection::Bottom)));
    list.push(
        (chord_of_two(Key::print('g'), Key::print('g')), Binding::Motion(CursorDirection::Top)),
    );
    list.push((chord(Key::print('h')), Binding::Motion(CursorDirection::Left)));
    list.push((chord(Key::print('j')), Binding::Motion(CursorDirection::Down)));
    list.push((chord(Key::print('k')), Binding::Motion(CursorDirection::Up)));
    list.push((chord(Key::print('l')), Binding::Motion(CursorDirection::Right)));
    list.push((chord(Key::print('o')), Binding::open_line(NewLineDirection::Under)));
    list.push((chord(Key::print('o').with_shift()), Binding::open_line(NewLineDirection::Above)));
    list.push((chord(Key::print('u').with_ctrl()), Binding::scroll(ViewPortDirection::HalfPageUp)));
    list.push(
        (
            chord_of_two(Key::print('z'), Key::print('b')),
            Binding::scroll(ViewPortDirection::BottomOnCursor),
        ),
    );
    list.push(
        (
            chord_of_two(Key::print('z'), Key::print('t')),
            Binding::scroll(ViewPortDirection::TopOnCursor),
        ),
    );
    list.push(
        (
            chord_of_two(Key::print('z'), Key::print('z')),
            Binding::scroll(ViewPortDirection::CenterOnCursor),
        ),
    );
    proof {
        assert(mappings_view(list@) =~= default_normal_mappings());
    }
    list
}

/// The default mappings of `mode`.
pub open spec fn default_mappings(mode: Mode) -> Seq<(Seq<Key>, Binding)> {
    match mode {
        Mode::Command => default_command_mappings(),
        Mode::Insert => default_insert_mappings(),
        Mode::Navigation => default_navigation_mappings(),
        Mode::Normal => default_normal_mappings(),
    }
}

impl Default for KeyMap {
    /// The key map with the default mappings of every mode.
    fn default() -> (map: KeyMap)
        ensures
            forall|mode: Mode| map.mappings(mode) == default_mappings(mode),
    {
        KeyMap {
            command: default_command(),
            insert: default_insert(),
            navigation: default_navigation(),
            normal: default_normal(),
        }
    }
}

} // verus!
