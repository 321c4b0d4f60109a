use yeet::keymap::conversion::{to_key, TerminalKey};
use yeet::keymap::key::{Key, KeyCode, KeyModifier};
use yeet::keymap::map::KeyMap;
use yeet::keymap::message::{
    Binding, CursorDirection, KeymapMessage, Mode, NewLineDirection, TextModification,
    ViewPortDirection,
};
use yeet::keymap::resolver::MessageResolver;
use yeet::keymap::tree::{KeyMapError, KeyTree, Lookup};

fn normal() -> MessageResolver {
    let mut resolver = MessageResolver::default();
    resolver.set_mode(Mode::Normal);
    resolver
}

#[test]
fn key_new_collects_modifiers_as_a_set() {
    let key = Key::new(
        KeyCode::from_char('g'),
        vec![KeyModifier::Shift, KeyModifier::Ctrl, KeyModifier::Shift],
    );
    assert_eq!(key.code, KeyCode::Print('g'));
    assert!(key.shift);
    assert!(key.ctrl);
    assert!(!key.alt);
    assert_eq!(key, Key::print('g').with_ctrl().with_shift());
    assert_eq!(
        Key::new(KeyCode::Esc, vec![KeyModifier::Alt]),
        Key::plain(KeyCode::Esc).with_alt()
    );
}

#[test]
fn key_new_without_modifiers_is_plain() {
    assert_eq!(Key::new(KeyCode::from_char('a'), vec![]), Key::print('a'));
    assert_ne!(Key::print('g'), Key::print('g').with_shift());
}

#[test]
fn mode_default_is_navigation() {
    assert_eq!(Mode::default(), Mode::Navigation);
    assert!(Mode::Command.inserts_unmatched());
    assert!(Mode::Insert.inserts_unmatched());
    assert!(!Mode::Navigation.inserts_unmatched());
    assert!(!Mode::Normal.inserts_unmatched());
}

#[test]
fn with_count_touches_only_counted_commands() {
    assert_eq!(
        KeymapMessage::MoveCursor(1, CursorDirection::Up).with_count(7),
        KeymapMessage::MoveCursor(7, CursorDirection::Up)
    );
    assert_eq!(
        KeymapMessage::Modification(1, TextModification::DeleteLineOnCursor).with_count(3),
        KeymapMessage::Modification(3, TextModification::DeleteLineOnCursor)
    );
    assert_eq!(KeymapMessage::SelectParent.with_count(3), KeymapMessage::SelectParent);
}

#[test]
fn empty_tree_binds_nothing() {
    let tree = KeyTree::default();
    assert_eq!(tree.lookup(&Mode::Normal, &vec![Key::print('j')]), Lookup::Unbound);
    assert_eq!(tree.lookup(&Mode::Normal, &vec![]), Lookup::Unbound);
}

#[test]
fn add_mapping_refuses_empty_and_bound_sequences() {
    let mut tree = KeyTree::default();
    let motion = Binding::Motion(CursorDirection::Down);
    assert_eq!(
        tree.add_mapping(&Mode::Normal, vec![], motion),
        Err(KeyMapError::EmptyKeySequence)
    );
    assert_eq!(tree.add_mapping(&Mode::Normal, vec![Key::print('j')], motion), Ok(()));
    assert_eq!(
        tree.add_mapping(
            &Mode::Normal,
            vec![Key::print('j')],
            Binding::Motion(CursorDirection::Up)
        ),
        Err(KeyMapError::KeySequenceAlreadyBound)
    );
    assert_eq!(
        tree.lookup(&Mode::Normal, &vec![Key::print('j')]),
        Lookup::Bound(motion)
    );
    assert_eq!(tree.lookup(&Mode::Insert, &vec![Key::print('j')]), Lookup::Unbound);
}

#[test]
fn lookup_tells_bound_pending_and_unbound_apart() {
    let mut tree = KeyTree::default();
    let top = Binding::Motion(CursorDirection::Top);
    let g = Key::print('g');
    assert_eq!(tree.add_mapping(&Mode::Normal, vec![g, g], top), Ok(()));
    assert_eq!(tree.lookup(&Mode::Normal, &vec![g]), Lookup::Pending);
    assert_eq!(tree.lookup(&Mode::Normal, &vec![g, g]), Lookup::Bound(top));
    assert_eq!(tree.lookup(&Mode::Normal, &vec![g, g, g]), Lookup::Unbound);
    assert_eq!(tree.lookup(&Mode::Normal, &vec![Key::print('x')]), Lookup::Unbound);
    assert_eq!(tree.lookup(&Mode::Normal, &vec![g, Key::print('x')]), Lookup::Unbound);
}

#[test]
fn a_bound_sequence_with_a_continuation_stays_pending() {
    let mut tree = KeyTree::default();
    let g = Key::print('g');
    let bottom = Binding::Motion(CursorDirection::Bottom);
    let top = Binding::Motion(CursorDirection::Top);
    assert_eq!(tree.add_mapping(&Mode::Normal, vec![g], bottom), Ok(()));
    assert_eq!(tree.lookup(&Mode::Normal, &vec![g]), Lookup::Bound(bottom));
    assert_eq!(tree.add_mapping(&Mode::Normal, vec![g, g], top), Ok(()));
    assert_eq!(tree.lookup(&Mode::Normal, &vec![g]), Lookup::Pending);
    assert_eq!(tree.lookup(&Mode::Normal, &vec![g, g]), Lookup::Bound(top));
    assert_eq!(
        tree.add_mapping(&Mode::Normal, vec![g], top),
        Err(KeyMapError::KeySequenceAlreadyBound)
    );
}

#[test]
fn default_key_map_becomes_a_tree() {
    let tree = KeyMap::default().into_tree();
    assert_eq!(
        tree.lookup(&Mode::Navigation, &vec![Key::print('h')]),
        Lookup::Bound(Binding::Message(KeymapMessage::SelectParent))
    );
    assert_eq!(
        tree.lookup(&Mode::Normal, &vec![Key::print('h')]),
        Lookup::Bound(Binding::Motion(CursorDirection::Left))
    );
    assert_eq!(
        tree.lookup(&Mode::Normal, &vec![Key::print('0')]),
        Lookup::Bound(Binding::RepeatOrMotion(0, CursorDirection::LineStart))
    );
    assert_eq!(
        tree.lookup(&Mode::Navigation, &vec![Key::print('0')]),
        Lookup::Bound(Binding::Repeat(0))
    );
    assert_eq!(
        tree.lookup(&Mode::Command, &vec![Key::plain(KeyCode::Esc)]),
        Lookup::Bound(Binding::Mode(Mode::Navigation))
    );
    assert_eq!(
        tree.lookup(&Mode::Insert, &vec![Key::plain(KeyCode::Esc)]),
        Lookup::Bound(Binding::Mode(Mode::Normal))
    );
    assert_eq!(
        tree.lookup(&Mode::Normal, &vec![Key::print('z')]),
        Lookup::Pending
    );
    assert_eq!(
        tree.lookup(&Mode::Normal, &vec![Key::print('z'), Key::print('t')]),
        Lookup::Bound(Binding::Message(KeymapMessage::MoveViewPort(
            ViewPortDirection::TopOnCursor
        )))
    );
    assert_eq!(
        tree.lookup(&Mode::Insert, &vec![Key::print('z')]),
        Lookup::Unbound
    );
}

#[test]
fn resolver_starts_idle_in_navigation() {
    let resolver = MessageResolver::default();
    assert_eq!(resolver.mode(), Mode::Navigation);
    assert_eq!(resolver.count(), None);
    assert!(resolver.pending().is_empty());
}

#[test]
fn complete_sequence_yields_its_message_and_resets() {
    let mut resolver = normal();
    assert!(resolver.add_and_resolve(Key::print('g')).is_empty());
    assert_eq!(resolver.pending(), vec![Key::print('g')]);
    let messages = resolver.add_and_resolve(Key::print('g'));
    assert_eq!(messages, vec![KeymapMessage::MoveCursor(1, CursorDirection::Top)]);
    assert!(resolver.pending().is_empty());
    assert_eq!(resolver.count(), None);
}

#[test]
fn single_key_binding_resolves_at_once() {
    let mut resolver = normal();
    assert_eq!(
        resolver.add_and_resolve(Key::print('g').with_shift()),
        vec![KeymapMessage::MoveCursor(1, CursorDirection::Bottom)]
    );
    assert_eq!(
        resolver.add_and_resolve(Key::print('d').with_ctrl()),
        vec![KeymapMessage::MoveViewPort(ViewPortDirection::HalfPageDown)]
    );
    assert!(resolver.pending().is_empty());
}

#[test]
fn prefix_with_continuations_stays_pending() {
    let mut resolver = normal();
    assert!(resolver.add_and_resolve(Key::print('z')).is_empty());
    assert_eq!(resolver.pending(), vec![Key::print('z')]);
    assert_eq!(resolver.mode(), Mode::Normal);
    assert_eq!(
        resolver.add_and_resolve(Key::print('z')),
        vec![KeymapMessage::MoveViewPort(ViewPortDirection::CenterOnCursor)]
    );
}

#[test]
fn two_digits_form_one_count() {
    let mut resolver = normal();
    assert!(resolver.add_and_resolve(Key::print('2')).is_empty());
    assert_eq!(resolver.count(), Some(2));
    assert!(resolver.add_and_resolve(Key::print('3')).is_empty());
    assert_eq!(resolver.count(), Some(23));
    assert_eq!(resolver.pending(), vec![Key::print('2'), Key::print('3')]);
    let messages = resolver.add_and_resolve(Key::print('j'));
    assert_eq!(messages, vec![KeymapMessage::MoveCursor(23, CursorDirection::Down)]);
    assert!(resolver.pending().is_empty());
    assert_eq!(resolver.count(), None);
}

#[test]
fn count_applies_to_a_chord_of_two_keys() {
    let mut resolver = normal();
    assert!(resolver.add_and_resolve(Key::print('4')).is_empty());
    assert!(resolver.add_and_resolve(Key::print('g')).is_empty());
    assert_eq!(resolver.pending(), vec![Key::print('4'), Key::print('g')]);
    assert_eq!(
        resolver.add_and_resolve(Key::print('g')),
        vec![KeymapMessage::MoveCursor(4, CursorDirection::Top)]
    );
}

#[test]
fn count_is_attached_to_a_counted_message() {
    let mut resolver = normal();
    assert!(resolver.add_and_resolve(Key::print('3')).is_empty());
    assert!(resolver.add_and_resolve(Key::print('d')).is_empty());
    assert_eq!(
        resolver.add_and_resolve(Key::print('d')),
        vec![KeymapMessage::Modification(3, TextModification::DeleteLineOnCursor)]
    );
    assert_eq!(resolver.count(), None);
}

#[test]
fn message_without_count_is_emitted_as_mapped() {
    let mut resolver = normal();
    assert!(resolver.add_and_resolve(Key::print('d')).is_empty());
    assert_eq!(
        resolver.add_and_resolve(Key::print('d')),
        vec![KeymapMessage::Modification(1, TextModification::DeleteLineOnCursor)]
    );
    let mut navigation = MessageResolver::default();
    assert!(navigation.add_and_resolve(Key::print('5')).is_empty());
    assert_eq!(
        navigation.add_and_resolve(Key::print('h')),
        vec![KeymapMessage::SelectParent]
    );
}

#[test]
fn zero_without_count_is_a_motion() {
    let mut resolver = normal();
    assert_eq!(
        resolver.add_and_resolve(Key::print('0')),
        vec![KeymapMessage::MoveCursor(1, CursorDirection::LineStart)]
    );
    assert_eq!(resolver.count(), None);
    assert!(resolver.pending().is_empty());
}

#[test]
fn zero_with_count_extends_the_count() {
    let mut resolver = normal();
    assert!(resolver.add_and_resolve(Key::print('1')).is_empty());
    assert!(resolver.add_and_resolve(Key::print('0')).is_empty());
    assert_eq!(resolver.count(), Some(10));
    assert_eq!(
        resolver.add_and_resolve(Key::print('j')),
        vec![KeymapMessage::MoveCursor(10, CursorDirection::Down)]
    );
}

#[test]
fn plain_zero_digit_counts_in_navigation() {
    let mut resolver = MessageResolver::default();
    assert!(resolver.add_and_resolve(Key::print('0')).is_empty());
    assert_eq!(resolver.count(), Some(0));
    assert_eq!(
        resolver.add_and_resolve(Key::print('j')),
        vec![KeymapMessage::MoveCursor(0, CursorDirection::Down)]
    );
}

#[test]
fn unmatched_key_resets_without_message() {
    let mut resolver = normal();
    assert!(resolver.add_and_resolve(Key::print('2')).is_empty());
    assert!(resolver.add_and_resolve(Key::print('g')).is_empty());
    assert!(resolver.add_and_resolve(Key::print('x')).is_empty());
    assert!(resolver.pending().is_empty());
    assert_eq!(resolver.count(), None);
    assert_eq!(resolver.mode(), Mode::Normal);
    assert_eq!(
        resolver.add_and_resolve(Key::print('j')),
        vec![KeymapMessage::MoveCursor(1, CursorDirection::Down)]
    );
}

#[test]
fn unmatched_key_is_inserted_in_insert_and_command_mode() {
    let mut resolver = MessageResolver::default();
    resolver.set_mode(Mode::Insert);
    let key = Key::print('x');
    assert_eq!(
        resolver.add_and_resolve(key),
        vec![KeymapMessage::Modification(1, TextModification::Insert(key))]
    );
    assert!(resolver.pending().is_empty());
    resolver.set_mode(Mode::Command);
    let other = Key::print('q').with_shift();
    assert_eq!(
        resolver.add_and_resolve(other),
        vec![KeymapMessage::Modification(1, TextModification::Insert(other))]
    );
}

#[test]
fn mode_binding_asks_for_the_change_and_leaves_the_mode() {
    let mut resolver = normal();
    assert_eq!(
        resolver.add_and_resolve(Key::print(':')),
        vec![KeymapMessage::ChangeMode(Mode::Normal, Mode::Command)]
    );
    assert_eq!(resolver.mode(), Mode::Normal);
    assert!(resolver.pending().is_empty());
}

#[test]
fn mode_and_modification_come_in_that_order() {
    let mut resolver = normal();
    assert_eq!(
        resolver.add_and_resolve(Key::print('o')),
        vec![
            KeymapMessage::ChangeMode(Mode::Normal, Mode::Insert),
            KeymapMessage::Modification(
                1,
                TextModification::InsertNewLine(NewLineDirection::Under)
            ),
        ]
    );
    assert_eq!(
        resolver.add_and_resolve(Key::print('o').with_shift()),
        vec![
            KeymapMessage::ChangeMode(Mode::Normal, Mode::Insert),
            KeymapMessage::Modification(
                1,
                TextModification::InsertNewLine(NewLineDirection::Above)
            ),
        ]
    );
}

#[test]
fn set_mode_drops_pending_keys_and_count() {
    let mut resolver = normal();
    assert!(resolver.add_and_resolve(Key::print('7')).is_empty());
    assert!(resolver.add_and_resolve(Key::print('g')).is_empty());
    resolver.set_mode(Mode::Navigation);
    assert_eq!(resolver.mode(), Mode::Navigation);
    assert!(resolver.pending().is_empty());
    assert_eq!(resolver.count(), None);
    assert_eq!(
        resolver.add_and_resolve(Key::print('l')),
        vec![KeymapMessage::SelectCurrent]
    );
}

#[test]
fn count_stops_at_the_largest_number() {
    let mut resolver = normal();
    for _ in 0..40 {
        assert!(resolver.add_and_resolve(Key::print('9')).is_empty());
    }
    assert_eq!(resolver.count(), Some(usize::MAX));
    assert_eq!(
        resolver.add_and_resolve(Key::print('k')),
        vec![KeymapMessage::MoveCursor(usize::MAX, CursorDirection::Up)]
    );
}

#[test]
fn custom_tree_with_digit_chord() {
    let mut tree = KeyTree::default();
    let a = Key::print('a');
    let b = Key::print('b');
    assert_eq!(tree.add_mapping(&Mode::Normal, vec![a, b], Binding::Repeat(4)), Ok(()));
    assert_eq!(
        tree.add_mapping(&Mode::Normal, vec![b], Binding::Motion(CursorDirection::Right)),
        Ok(())
    );
    let mut resolver = MessageResolver::new(tree, Mode::Normal);
    assert!(resolver.add_and_resolve(a).is_empty());
    assert!(resolver.add_and_resolve(b).is_empty());
    assert_eq!(resolver.count(), Some(4));
    assert_eq!(resolver.pending(), vec![a, b]);
    assert_eq!(
        resolver.add_and_resolve(b),
        vec![KeymapMessage::MoveCursor(4, CursorDirection::Right)]
    );
}

#[test]
fn terminal_keys_become_resolver_keys() {
    assert_eq!(to_key(TerminalKey::Char('g'), false, false, false), Some(Key::print('g')));
    assert_eq!(
        to_key(TerminalKey::Char('G'), false, false, false),
        Some(Key::print('g').with_shift())
    );
    assert_eq!(
        to_key(TerminalKey::Char('G'), false, false, true),
        Some(Key::print('g').with_shift())
    );
    assert_eq!(
        to_key(TerminalKey::Char('A'), false, false, false),
        Some(Key::print('a').with_shift())
    );
    assert_eq!(
        to_key(TerminalKey::Char('Z'), true, false, false),
        Some(Key::print('z').with_shift().with_alt())
    );
    assert_eq!(
        to_key(TerminalKey::Char('d'), false, true, false),
        Some(Key::print('d').with_ctrl())
    );
    assert_eq!(to_key(TerminalKey::Char('$'), false, false, true), Some(Key::print('$').with_shift()));
    assert_eq!(to_key(TerminalKey::Char('['), false, false, false), Some(Key::print('[')));
    assert_eq!(to_key(TerminalKey::Char('@'), false, false, false), Some(Key::print('@')));
    assert_eq!(to_key(TerminalKey::Char('Ä'), false, false, false), Some(Key::print('Ä')));
    assert_eq!(to_key(TerminalKey::Esc, false, false, false), Some(Key::plain(KeyCode::Esc)));
    assert_eq!(
        to_key(TerminalKey::Enter, false, false, false),
        Some(Key::plain(KeyCode::Enter))
    );
    assert_eq!(to_key(TerminalKey::Other, false, true, false), None);
}

#[test]
fn a_capital_letter_from_the_terminal_resolves_as_shifted() {
    let mut resolver = normal();
    let key = to_key(TerminalKey::Char('G'), false, false, false).unwrap();
    assert_eq!(
        resolver.add_and_resolve(key),
        vec![KeymapMessage::MoveCursor(1, CursorDirection::Bottom)]
    );
}
