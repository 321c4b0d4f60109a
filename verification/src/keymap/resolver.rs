//! The key resolver: a state machine that takes one key at a time and
//! answers with the commands the key completes, if any.
//!
//! [`step`] defines the machine over plain values; [`MessageResolver`] runs
//! it on a [`KeyTree`].
use vstd::prelude::*;
use crate::keymap::key::Key;
use crate::keymap::map::{default_mappings, table_of, KeyMap};
use crate::keymap::message::{
    Binding, CursorDirection, KeymapMessage, Mode, TextModification,
};
use crate::keymap::tree::{
    continues, has_continuation, lookup_in, starts_with, KeyTree, Lookup,
};

verus! {

/// What the resolver remembers between two keys.
pub struct ResolverState {
    /// The mode whose table is consulted.
    pub mode: Mode,
    /// The keys that were taken as digits of the repeat count.
    pub digits: Seq<Key>,
    /// The keys of the chord that is not resolved yet.
    pub chord: Seq<Key>,
    /// The repeat count accumulated so far.
    pub count: Option<usize>,
}

impl ResolverState {
    /// The state in `mode` with nothing pending.
    pub open spec fn idle(mode: Mode) -> ResolverState {
        ResolverState { mode, digits: Seq::empty(), chord: Seq::empty(), count: None }
    }

    /// The pending sequence: every key since the last reset.
    pub open spec fn pending(self) -> Seq<Key> {
        self.digits + self.chord
    }
}

/// The count that results from appending `digit` to `count`. It stops at the
/// largest value a `usize` holds.
pub open spec fn extend_count(count: Option<usize>, digit: u8) -> usize {
    let so_far: int = match count {
        Some(c) => c as int,
        None => 0,
    };
    if so_far * 10 + digit <= usize::MAX {
        (so_far * 10 + digit) as usize
    } else {
        usize::MAX
    }
}

/// The digit that `binding` contributes to the count, if it does: a
/// `Repeat` always, a `RepeatOrMotion` while a nonzero count is accumulating.
pub open spec fn digit_of(binding: Binding, count: Option<usize>) -> Option<u8> {
    match binding {
        Binding::Repeat(digit) => Some(digit),
        Binding::RepeatOrMotion(digit, _) => match count {
            Some(c) => if c != 0 {
                Some(digit)
            } else {
                None
            },
            None => None,
        },
        _ => None,
    }
}

/// The commands that `binding` emits when it resolves in `mode` with the
/// accumulated `count`. A motion moves once if there is no count.
pub open spec fn emitted(binding: Binding, mode: Mode, count: Option<usize>) -> Seq<KeymapMessage> {
    match binding {
        Binding::Message(message) => match count {
            Some(c) => seq![message.with_count(c)],
            None => seq![message],
        },
        Binding::Mode(to) => seq![KeymapMessage::ChangeMode(mode, to)],
        Binding::ModeAndTextModification(to, modification) => seq![
            KeymapMessage::ChangeMode(mode, to),
            KeymapMessage::Modification(1, modification),
        ],
        Binding::Motion(direction) | Binding::RepeatOrMotion(_, direction) => match count {
            Some(c) => seq![KeymapMessage::MoveCursor(c, direction)],
            None => seq![KeymapMessage::MoveCursor(1, direction)],
        },
        Binding::Repeat(_) => Seq::empty(),
    }
}

/// The commands for a key that nothing in the table of `mode` matches.
pub open spec fn unmatched(mode: Mode, key: Key) -> Seq<KeymapMessage> {
    if mode.inserts_unmatched() {
        seq![KeymapMessage::Modification(1, TextModification::Insert(key))]
    } else {
        Seq::empty()
    }
}

/// One step of the resolver: the state after `key` and the commands emitted,
/// where `table` is the binding table of the state's mode.
pub open spec fn step(table: Map<Seq<Key>, Binding>, state: ResolverState, key: Key) -> (
    ResolverState,
    Seq<KeymapMessage>,
) {
    let chord = state.chord.push(key);
    match lookup_in(table, chord) {
        Lookup::Unbound => (ResolverState::idle(state.mode), unmatched(state.mode, key)),
        Lookup::Pending => (ResolverState { chord, ..state }, Seq::empty()),
        Lookup::Bound(binding) => match digit_of(binding, state.count) {
            Some(digit) => (
                ResolverState {
                    mode: state.mode,
                    digits: state.digits + chord,
                    chord: Seq::empty(),
                    count: Some(extend_count(state.count, digit)),
                },
                Seq::empty(),
            ),
            None => (ResolverState::idle(state.mode), emitted(binding, state.mode, state.count)),
        },
    }
}

/// The resolver after `keys`, one step each, and all the commands emitted.
pub open spec fn run(table: Map<Seq<Key>, Binding>, state: ResolverState, keys: Seq<Key>) -> (
    ResolverState,
    Seq<KeymapMessage>,
)
    decreases keys.len(),
{
    if keys.len() == 0 {
        (state, Seq::empty())
    } else {
        let (before, earlier) = run(table, state, keys.drop_last());
        let (after, last) = step(table, before, keys.last());
        (after, earlier + last)
    }
}

/// Whether `first` is a chord that was taken as the first digit of
/// `digits`: it is their beginning, it is bound in `table`, and no bound
/// sequence continues it.
pub open spec fn first_digit_chord(
    table: Map<Seq<Key>, Binding>,
    digits: Seq<Key>,
    first: Seq<Key>,
) -> bool {
    first.len() > 0 && starts_with(digits, first) && table.dom().contains(first)
        && !has_continuation(table, first)
}

/// What holds of every state the resolver reaches with the table `table`
/// of its mode: without pending digits there is no count, and pending
/// digits begin with a chord that resolved as a digit.
pub open spec fn consistent(table: Map<Seq<Key>, Binding>, state: ResolverState) -> bool {
    if state.digits.len() == 0 {
        state.count is None
    } else {
        exists|first: Seq<Key>| first_digit_chord(table, state.digits, first)
    }
}

/// A step keeps the state consistent.
pub proof fn lemma_step_keeps_consistent(
    table: Map<Seq<Key>, Binding>,
    state: ResolverState,
    key: Key,
)
    requires
        consistent(table, state),
    ensures
        consistent(table, step(table, state, key).0),
{
    let chord = state.chord.push(key);
    let after = step(table, state, key).0;
    if after.digits.len() > 0 && after.digits != state.digits {
        assert(after.digits == state.digits + chord);
        if state.digits.len() == 0 {
            assert(after.digits =~= chord);
            assert(chord.take(chord.len() as int) =~= chord);
            assert(first_digit_chord(table, after.digits, chord));
        } else {
            let first = choose|first: Seq<Key>| first_digit_chord(table, state.digits, first);
            assert(after.digits.take(first.len() as int) =~= state.digits.take(first.len() as int));
            assert(first_digit_chord(table, after.digits, first));
        }
    }
}

/// Where the pending sequence with one more key is bound, or is the
/// beginning of a bound sequence, no digit is pending: the pending sequence
/// is the chord, and there is no count.
pub proof fn lemma_no_digits_pending(
    table: Map<Seq<Key>, Binding>,
    state: ResolverState,
    key: Key,
)
    requires
        consistent(table, state),
        table.dom().contains(state.pending().push(key)) || has_continuation(
            table,
            state.pending().push(key),
        ),
    ensures
        state.digits.len() == 0,
        state.count is None,
        state.pending() == state.chord,
{
    let typed = state.pending().push(key);
    if state.digits.len() > 0 {
        let first = choose|first: Seq<Key>| first_digit_chord(table, state.digits, first);
        assert(typed.take(first.len() as int) =~= state.digits.take(first.len() as int));
        if table.dom().contains(typed) {
            assert(continues(table, first, typed));
        } else {
            let longer = choose|longer: Seq<Key>| continues(table, typed, longer);
            assert(longer.take(first.len() as int) =~= longer.take(typed.len() as int).take(
                first.len() as int,
            ));
            assert(continues(table, first, longer));
        }
    }
    assert(state.digits + state.chord =~= state.chord);
}

/// Turns keys into commands, one key at a time.
pub struct MessageResolver {
    tree: KeyTree,
    mode: Mode,
    digits: Vec<Key>,
    chord: Vec<Key>,
    count: Option<usize>,
}

impl View for MessageResolver {
    type V = ResolverState;

    closed spec fn view(&self) -> ResolverState {
        ResolverState {
            mode: self.mode,
            digits: self.digits@,
            chord: self.chord@,
            count: self.count,
        }
    }
}

/// Appends `digit` to `count`, stopping at the largest value a `usize` holds.
fn extended(count: Option<usize>, digit: u8) -> (extended: usize)
    ensures
        extended == extend_count(count, digit),
{
    let so_far: usize = match count {
        Some(c) => c,
        None => 0,
    };
    match so_far.checked_mul(10) {
        Some(tens) => match tens.checked_add(digit as usize) {
            Some(sum) => sum,
            None => usize::MAX,
        },
        None => usize::MAX,
    }
}

impl MessageResolver {
    #[verifier::type_invariant]
    spec fn well_formed(&self) -> bool {
        consistent(self.tree.bindings(self.mode), self@)
    }

    /// The binding table of `mode`.
    pub closed spec fn bindings(&self, mode: Mode) -> Map<Seq<Key>, Binding> {
        self.tree.bindings(mode)
    }

    /// A resolver over `tree` that starts in `mode` with nothing pending.
    pub fn new(tree: KeyTree, mode: Mode) -> (resolver: MessageResolver)
        ensures
            resolver@ == ResolverState::idle(mode),
            forall|m: Mode| resolver.bindings(m) == tree.bindings(m),
    {
        MessageResolver { tree, mode, digits: Vec::new(), chord: Vec::new(), count: None }
    }

    /// The current mode.
    pub fn mode(&self) -> (mode: Mode)
        ensures
            mode == self@.mode,
            consistent(self.bindings(self@.mode), self@),
    {
        proof {
            use_type_invariant(self);
        }
        self.mode
    }

    /// The repeat count accumulated so far.
    pub fn count(&self) -> (count: Option<usize>)
        ensures
            count == self@.count,
    {
        self.count
    }

    /// The pending sequence: every key since the last reset.
    pub fn pending(&self) -> (keys: Vec<Key>)
        ensures
            keys@ == self@.pending(),
    {
        let mut keys = self.digits.clone();
        let mut chord = self.chord.clone();
        keys.append(&mut chord);
        keys
    }

    /// Changes the mode. The pending sequence and the count are dropped, so
    /// that no part of a chord is carried into another mode.
    pub fn set_mode(&mut self, mode: Mode)
        ensures
            final(self)@ == ResolverState::idle(mode),
            forall|m: Mode| final(self).bindings(m) == old(self).bindings(m),
    {
        self.reset();
        self.mode = mode;
    }

    /// Takes `key` and returns the commands it completes.
    pub fn add_and_resolve(&mut self, key: Key) -> (messages: Vec<KeymapMessage>)
        ensures
            (final(self)@, messages@) == step(old(self).bindings(old(self)@.mode), old(self)@, key),
            forall|m: Mode| final(self).bindings(m) == old(self).bindings(m),
            consistent(old(self).bindings(old(self)@.mode), old(self)@),
            consistent(final(self).bindings(final(self)@.mode), final(self)@),
    {
        let ghost table = self.bindings(self@.mode);
        let ghost expected = step(table, self@, key);
        proof {
            use_type_invariant(&*self);
            lemma_step_keeps_consistent(table, self@, key);
        }
        let mut messages: Vec<KeymapMessage> = Vec::new();
        let mut chord: Vec<Key> = Vec::new();
        std::mem::swap(&mut self.chord, &mut chord);
        chord.push(key);
        match self.tree.lookup(&self.mode, &chord) {
            Lookup::Unbound => {
                self.reset();
                if self.mode.inserts_unmatched() {
                    messages.push(KeymapMessage::Modification(1, TextModification::Insert(key)));
                }
            },
            Lookup::Pending => {
                std::mem::swap(&mut self.chord, &mut chord);
            },
            Lookup::Bound(binding) => {
                let digit = match binding {
                    Binding::Repeat(digit) => Some(digit),
                    Binding::RepeatOrMotion(digit, _) => match self.count {
                        Some(c) => if c != 0 {
                            Some(digit)
                        } else {
                            None
                        },
                        None => None,
                    },
                    _ => None,
                };
                match digit {
                    Some(digit) => {
                        let count = extended(self.count, digit);
                        let mut digits: Vec<Key> = Vec::new();
                        self.count = None;
                        std::mem::swap(&mut self.digits, &mut digits);
                        digits.append(&mut chord);
                        proof {
                            assert(digits@ =~= expected.0.digits);
                            assert(digits@.len() > 0);
                        }
                        std::mem::swap(&mut self.digits, &mut digits);
                        self.count = Some(count);
                    },
                    None => {
                        match binding {
                            Binding::Message(message) => match self.count {
                                Some(c) => messages.push(message.with_count(c)),
                                None => messages.push(message),
                            },
                            Binding::Mode(to) => {
                                messages.push(KeymapMessage::ChangeMode(self.mode, to));
                            },
                            Binding::ModeAndTextModification(to, modification) => {
                                messages.push(KeymapMessage::ChangeMode(self.mode, to));
                                messages.push(KeymapMessage::Modification(1, modification));
                            },
                            Binding::Motion(direction) | Binding::RepeatOrMotion(_, direction) => {
                                match self.count {
                                    Some(c) => messages.push(
                                        KeymapMessage::MoveCursor(c, direction),
                                    ),
                                    None => messages.push(KeymapMessage::MoveCursor(1, direction)),
                                }
                            },
                            Binding::Repeat(_) => {},
                        }
                        self.reset();
                    },
                }
            },
        }
        proof {
            assert(self@.digits =~= expected.0.digits);
            assert(self@.chord =~= expected.0.chord);
            assert(messages@ =~= expected.1);
        }
        messages
    }

    /// Drops the pending sequence and the count.
    fn reset(&mut self)
        ensures
            final(self)@ == ResolverState::idle(old(self)@.mode),
            final(self).tree == old(self).tree,
    {
        proof {
            use_type_invariant(&*self);
        }
        let mut digits: Vec<Key> = Vec::new();
        let mut chord: Vec<Key> = Vec::new();
        self.count = None;
        std::mem::swap(&mut self.digits, &mut digits);
        std::mem::swap(&mut self.chord, &mut chord);
    }
}

impl Default for MessageResolver {
    /// A resolver over the default key map, in the default mode, with
    /// nothing pending.
    fn default() -> (resolver: MessageResolver)
        ensures
            resolver@ == ResolverState::idle(Mode::Navigation),
            forall|m: Mode|
                resolver.bindings(m) == table_of(default_mappings(m)),
    {
        MessageResolver::new(KeyMap::default().into_tree(), Mode::default())
    }
}

/// While the keys typed so far are the beginning of a longer bound
/// sequence, nothing is emitted and the keys stay pending as the chord.
proof fn lemma_beginning_stays_pending(
    table: Map<Seq<Key>, Binding>,
    state: ResolverState,
    keys: Seq<Key>,
    n: int,
)
    requires
        state.chord.len() == 0,
        table.dom().contains(keys),
        0 <= n < keys.len(),
    ensures
        run(table, state, keys.take(n)) == (
            ResolverState { chord: keys.take(n), ..state },
            Seq::<KeymapMessage>::empty(),
        ),
    decreases n,
{
    if n == 0 {
        assert(keys.take(0) =~= state.chord);
    } else {
        lemma_beginning_stays_pending(table, state, keys, n - 1);
        assert(keys.take(n).drop_last() =~= keys.take(n - 1));
        assert(keys.take(n - 1).push(keys.take(n).last()) =~= keys.take(n));
        assert(keys.take(n).take(n) =~= keys.take(n));
        assert(continues(table, keys.take(n), keys));
        assert(Seq::<KeymapMessage>::empty() + Seq::<KeymapMessage>::empty() =~= Seq::<
            KeymapMessage,
        >::empty());
    }
}

/// Typing a bound sequence that no bound sequence continues, key by key and
/// with no chord pending before, emits exactly what its binding emits, and
/// leaves nothing pending. (A binding that counts as a digit emits nothing
/// and is left out here.)
pub proof fn lemma_bound_sequence_resolves(
    table: Map<Seq<Key>, Binding>,
    state: ResolverState,
    keys: Seq<Key>,
)
    requires
        state.chord.len() == 0,
        keys.len() > 0,
        table.dom().contains(keys),
        !has_continuation(table, keys),
        digit_of(table[keys], state.count) is None,
    ensures
        run(table, state, keys) == (
            ResolverState::idle(state.mode),
            emitted(table[keys], state.mode, state.count),
        ),
{
    let n = keys.len() - 1;
    lemma_beginning_stays_pending(table, state, keys, n);
    assert(keys.drop_last() =~= keys.take(n));
    assert(keys.take(n).push(keys.last()) =~= keys);
    let messages = emitted(table[keys], state.mode, state.count);
    assert(Seq::<KeymapMessage>::empty() + messages =~= messages);
}

/// A key after which the chord is the beginning of a longer bound sequence
/// emits nothing and joins the chord.
pub proof fn lemma_prefix_stays_pending(
    table: Map<Seq<Key>, Binding>,
    state: ResolverState,
    key: Key,
)
    requires
        has_continuation(table, state.chord.push(key)),
    ensures
        step(table, state, key) == (
            ResolverState { chord: state.chord.push(key), ..state },
            Seq::<KeymapMessage>::empty(),
        ),
{
}

/// Two digit keys and a motion key, typed with nothing pending, move the
/// cursor once by the two-digit count.
pub proof fn lemma_digits_form_one_count(
    table: Map<Seq<Key>, Binding>,
    mode: Mode,
    first: Key,
    second: Key,
    motion: Key,
    tens: u8,
    ones: u8,
    direction: CursorDirection,
)
    requires
        tens <= 9,
        ones <= 9,
        lookup_in(table, seq![first]) == Lookup::Bound(Binding::Repeat(tens)),
        lookup_in(table, seq![second]) == Lookup::Bound(Binding::Repeat(ones)),
        lookup_in(table, seq![motion]) == Lookup::Bound(Binding::Motion(direction)),
    ensures
        run(table, ResolverState::idle(mode), seq![first, second, motion]) == (
            ResolverState::idle(mode),
            seq![KeymapMessage::MoveCursor((tens * 10 + ones) as usize, direction)],
        ),
{
    let start = ResolverState::idle(mode);
    let keys = seq![first, second, motion];
    let none = Seq::<Key>::empty();
    assert(none.push(first) =~= seq![first]);
    assert(none.push(second) =~= seq![second]);
    assert(none.push(motion) =~= seq![motion]);
    assert(keys.drop_last() =~= seq![first, second]);
    assert(keys.drop_last().drop_last() =~= seq![first]);
    assert(seq![first].drop_last() =~= none);
    reveal_with_fuel(run, 4);
    let after_first = step(table, start, first);
    assert(after_first.0.count == Some(tens as usize));
    assert(after_first.0.chord =~= none);
    let after_second = step(table, after_first.0, second);
    assert(after_second.0.count == Some((tens * 10 + ones) as usize));
    assert(after_second.0.chord =~= none);
    let after_motion = step(table, after_second.0, motion);
    let nothing = Seq::<KeymapMessage>::empty();
    assert(run(table, start, seq![first]) == (after_first.0, nothing + after_first.1));
    assert(nothing + after_first.1 =~= nothing);
    assert(nothing + after_second.1 =~= nothing);
    assert(nothing + after_motion.1 =~= after_motion.1);
}

/// A key bound to a digit-or-motion resolves as the motion unless a nonzero
/// count is accumulating, and extends that count if one is.
pub proof fn lemma_digit_or_motion(
    table: Map<Seq<Key>, Binding>,
    state: ResolverState,
    key: Key,
    digit: u8,
    direction: CursorDirection,
)
    requires
        lookup_in(table, state.chord.push(key)) == Lookup::Bound(
            Binding::RepeatOrMotion(digit, direction),
        ),
    ensures
        state.count is None ==> step(table, state, key) == (
            ResolverState::idle(state.mode),
            seq![KeymapMessage::MoveCursor(1, direction)],
        ),
        state.count == Some(0usize) ==> step(table, state, key) == (
            ResolverState::idle(state.mode),
            seq![KeymapMessage::MoveCursor(0, direction)],
        ),
        state.count is Some && state.count != Some(0usize) ==> step(table, state, key) == (
            ResolverState {
                mode: state.mode,
                digits: state.digits + state.chord.push(key),
                chord: Seq::empty(),
                count: Some(extend_count(state.count, digit)),
            },
            Seq::<KeymapMessage>::empty(),
        ),
{
}

/// A key that nothing matches, in a mode that does not take such keys as
/// text, emits nothing and leaves nothing pending.
pub proof fn lemma_unmatched_key_resets(
    table: Map<Seq<Key>, Binding>,
    state: ResolverState,
    key: Key,
)
    requires
        lookup_in(table, state.chord.push(key)) == Lookup::Unbound,
        !state.mode.inserts_unmatched(),
    ensures
        step(table, state, key) == (
            ResolverState::idle(state.mode),
            Seq::<KeymapMessage>::empty(),
        ),
{
}

/// A key that completes the pending sequence to a bound sequence that no
/// bound sequence continues emits exactly what its binding emits, with no
/// count, and leaves nothing pending. (A `Repeat` emits nothing and is left
/// out here.)
pub proof fn lemma_pending_sequence_resolves(
    table: Map<Seq<Key>, Binding>,
    state: ResolverState,
    key: Key,
)
    requires
        consistent(table, state),
        table.dom().contains(state.pending().push(key)),
        !has_continuation(table, state.pending().push(key)),
        !(table[state.pending().push(key)] is Repeat),
    ensures
        step(table, state, key) == (
            ResolverState::idle(state.mode),
            emitted(table[state.pending().push(key)], state.mode, None),
        ),
{
    lemma_no_digits_pending(table, state, key);
}

/// A key after which the pending sequence is the beginning of a longer
/// bound sequence emits nothing and joins the pending sequence; mode and
/// count stay as they are.
pub proof fn lemma_pending_prefix_stays(
    table: Map<Seq<Key>, Binding>,
    state: ResolverState,
    key: Key,
)
    requires
        consistent(table, state),
        has_continuation(table, state.pending().push(key)),
    ensures
        step(table, state, key) == (
            ResolverState { chord: state.chord.push(key), ..state },
            Seq::<KeymapMessage>::empty(),
        ),
        step(table, state, key).0.pending() == state.pending().push(key),
        step(table, state, key).0.mode == state.mode,
        step(table, state, key).0.count == state.count,
{
    lemma_no_digits_pending(table, state, key);
    assert(state.digits + state.chord.push(key) =~= (state.digits + state.chord).push(key));
}

/// With no digit pending, a key after which nothing bound begins with the
/// pending sequence, in a mode that does not take such keys as text, emits
/// nothing and leaves nothing pending.
pub proof fn lemma_pending_unmatched_resets(
    table: Map<Seq<Key>, Binding>,
    state: ResolverState,
    key: Key,
)
    requires
        state.digits.len() == 0,
        lookup_in(table, state.pending().push(key)) == Lookup::Unbound,
        !state.mode.inserts_unmatched(),
    ensures
        step(table, state, key) == (
            ResolverState::idle(state.mode),
            Seq::<KeymapMessage>::empty(),
        ),
{
    assert(state.digits + state.chord =~= state.chord);
}

} // verus!
